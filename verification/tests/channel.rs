use capture_pipeline::channel::{ChannelItem, FrameChannel};
use capture_pipeline::error::ErrorKind;
use capture_pipeline::frame::{Frame, Payload, PixelLayout};
use capture_pipeline::time::MonotonicInstant;

fn frame(n: u64) -> Frame {
    Frame::new(
        1,
        1,
        PixelLayout::PackedBGRA8,
        MonotonicInstant::from_nanos(n),
        Payload::Bytes(vec![n as u8; 4]),
    )
    .unwrap()
}

#[test]
fn new_channel_is_empty_and_open() {
    let mut c = FrameChannel::new();
    assert!(c.is_empty());
    assert!(!c.is_sealed());
    assert_eq!(c.recv(), Ok(None));
}

#[test]
fn frames_come_out_in_the_order_they_went_in() {
    let mut c = FrameChannel::new();
    for n in [3, 1, 2, 9, 4] {
        assert!(c.send(ChannelItem::Frame(frame(n))));
    }
    assert!(c.send(ChannelItem::EndOfStream));
    assert!(!c.is_empty());
    for n in [3, 1, 2, 9, 4] {
        assert_eq!(c.recv(), Ok(Some(ChannelItem::Frame(frame(n)))));
    }
    assert_eq!(c.recv(), Ok(Some(ChannelItem::EndOfStream)));
    assert!(c.is_empty());
}

#[test]
fn the_marker_is_delivered_exactly_once() {
    let mut c = FrameChannel::new();
    assert!(c.send(ChannelItem::EndOfStream));
    assert!(c.is_sealed());
    assert_eq!(c.recv(), Ok(Some(ChannelItem::EndOfStream)));
    assert_eq!(c.recv(), Ok(None));
    assert_eq!(c.recv(), Ok(None));
    assert!(c.is_sealed());
}

#[test]
fn nothing_is_taken_after_the_marker() {
    let mut c = FrameChannel::new();
    assert!(c.send(ChannelItem::Frame(frame(1))));
    assert!(c.send(ChannelItem::EndOfStream));
    assert!(!c.send(ChannelItem::Frame(frame(2))));
    assert!(!c.send(ChannelItem::EndOfStream));
    assert_eq!(c.recv(), Ok(Some(ChannelItem::Frame(frame(1)))));
    assert_eq!(c.recv(), Ok(Some(ChannelItem::EndOfStream)));
    assert_eq!(c.recv(), Ok(None));
}

#[test]
fn sending_and_receiving_may_alternate() {
    let mut c = FrameChannel::new();
    assert!(c.send(ChannelItem::Frame(frame(1))));
    assert_eq!(c.recv(), Ok(Some(ChannelItem::Frame(frame(1)))));
    assert_eq!(c.recv(), Ok(None));
    assert!(c.send(ChannelItem::Frame(frame(2))));
    assert!(c.send(ChannelItem::Frame(frame(3))));
    assert_eq!(c.recv(), Ok(Some(ChannelItem::Frame(frame(2)))));
    assert!(c.send(ChannelItem::Frame(frame(4))));
    assert_eq!(c.recv(), Ok(Some(ChannelItem::Frame(frame(3)))));
    assert_eq!(c.recv(), Ok(Some(ChannelItem::Frame(frame(4)))));
}

#[test]
fn a_producer_that_leaves_without_the_marker_is_an_error() {
    let mut c = FrameChannel::new();
    assert!(c.send(ChannelItem::Frame(frame(1))));
    c.hang_up();
    // what was sent is still delivered
    assert_eq!(c.recv(), Ok(Some(ChannelItem::Frame(frame(1)))));
    assert_eq!(c.recv(), Err(ErrorKind::ChannelClosedUnexpectedly));
    assert_eq!(c.recv(), Err(ErrorKind::ChannelClosedUnexpectedly));
    assert!(!c.send(ChannelItem::Frame(frame(2))));
}

#[test]
fn a_producer_that_leaves_after_the_marker_is_no_error() {
    let mut c = FrameChannel::new();
    assert!(c.send(ChannelItem::EndOfStream));
    c.hang_up();
    assert_eq!(c.recv(), Ok(Some(ChannelItem::EndOfStream)));
    assert_eq!(c.recv(), Ok(None));
}
