//! Output files: which ones are being written, and how their paths are
//! spelled for the platform.

use vstd::prelude::*;

verus! {

/// Whether a path starts with the verbatim prefix `\\?\` that canonical
/// Windows paths carry.
pub open spec fn has_verbatim_prefix(path: Seq<char>) -> bool {
    path.len() >= 4 && path[0] == '\\' && path[1] == '\\' && path[2] == '?' && path[3] == '\\'
}

/// The path without its verbatim prefix, if it has one; any other path as
/// it is.
pub fn without_verbatim_prefix(path: &str) -> (r: &str)
    ensures
        r@ == if has_verbatim_prefix(path@) {
            path@.skip(4)
        } else {
            path@
        },
{
    let n = path.unicode_len();
    if n >= 4 && path.get_char(0) == '\\' && path.get_char(1) == '\\' && path.get_char(2) == '?'
        && path.get_char(3) == '\\' {
        let rest = path.substring_char(4, n);
        proof {
            assert(path@.subrange(4, n as int) =~= path@.skip(4));
        }
        rest
    } else {
        path
    }
}

/// Whether one of `names` spells `path`.
pub open spec fn holds(names: Seq<String>, path: Seq<char>) -> bool {
    exists|i: int| 0 <= i < names.len() && (#[trigger] names[i])@ == path
}

proof fn lemma_holds_push(names: Seq<String>, name: String, path: Seq<char>)
    ensures
        holds(names.push(name), path) <==> holds(names, path) || name@ == path,
{
    let longer = names.push(name);
    if holds(names, path) {
        let i = choose|i: int| 0 <= i < names.len() && (#[trigger] names[i])@ == path;
        assert(longer[i]@ == path);
    }
    if name@ == path {
        assert(longer[names.len() as int]@ == path);
    }
    if holds(longer, path) {
        let i = choose|i: int| 0 <= i < longer.len() && (#[trigger] longer[i])@ == path;
        if i < names.len() {
            assert(names[i]@ == path);
        }
    }
}

/// The output files that sessions have claimed. A file is claimed by the
/// session that is made for it and given back by that session when it is
/// over, so one session at a time writes it.
pub struct OutputRegistry {
    active: Vec<String>,
}

impl View for OutputRegistry {
    type V = Set<Seq<char>>;

    closed spec fn view(&self) -> Set<Seq<char>> {
        Set::new(|p: Seq<char>| holds(self.active@, p))
    }
}

impl OutputRegistry {
    /// A registry with no file in use.
    pub fn new() -> (r: Self)
        ensures
            r@ == Set::<Seq<char>>::empty(),
    {
        let r = OutputRegistry { active: Vec::new() };
        assert(r@ =~= Set::<Seq<char>>::empty());
        r
    }

    /// Whether a session is writing `path`.
    pub fn is_active(&self, path: &str) -> (r: bool)
        ensures
            r == self@.contains(path@),
    {
        let wanted = path.to_owned();
        let mut i: usize = 0;
        while i < self.active.len()
            invariant
                i <= self.active@.len(),
                wanted@ == path@,
                forall|k: int| 0 <= k < i ==> (#[trigger] self.active@[k])@ != path@,
            decreases self.active@.len() - i,
        {
            if self.active[i] == wanted {
                assert(self.active@[i as int]@ == path@);
                return true;
            }
            i = i + 1;
        }
        false
    }

    /// Claims `path` for a new session. The claim succeeds exactly if no
    /// session is writing `path`; afterwards one is.
    pub(crate) fn claim(&mut self, path: &str) -> (claimed: bool)
        ensures
            claimed == !old(self)@.contains(path@),
            final(self)@ == old(self)@.insert(path@),
    {
        if self.is_active(path) {
            assert(self@ =~= self@.insert(path@));
            return false;
        }
        let ghost before = self.active@;
        let name = path.to_owned();
        self.active.push(name);
        proof {
            assert forall|p: Seq<char>| self@.contains(p) <==> old(self)@.insert(path@).contains(
                p,
            ) by {
                lemma_holds_push(before, name, p);
            }
            assert(self@ =~= old(self)@.insert(path@));
        }
        true
    }

    /// Gives `path` back when its session is over, and says whether it was
    /// claimed.
    pub(crate) fn release(&mut self, path: &str) -> (released: bool)
        ensures
            released == old(self)@.contains(path@),
            final(self)@ == old(self)@.remove(path@),
    {
        let wanted = path.to_owned();
        let ghost before = self.active@;
        let mut kept: Vec<String> = Vec::new();
        let mut released = false;
        loop
            invariant
                wanted@ == path@,
                !holds(kept@, path@),
                holds(before, path@) <==> released || holds(self.active@, path@),
                forall|p: Seq<char>|
                    p != path@ ==> (#[trigger] holds(before, p) <==> holds(self.active@, p)
                        || holds(kept@, p)),
            ensures
                self.active@.len() == 0,
            decreases self.active@.len(),
        {
            let ghost longer = self.active@;
            let ghost had = kept@;
            match self.active.pop() {
                None => {
                    break ;
                },
                Some(name) => {
                    proof {
                        assert(longer =~= self.active@.push(name));
                        lemma_holds_push(self.active@, name, path@);
                    }
                    if name == wanted {
                        released = true;
                        proof {
                            assert forall|p: Seq<char>| p != path@ implies (#[trigger] holds(
                                before,
                                p,
                            ) <==> holds(self.active@, p) || holds(kept@, p)) by {
                                lemma_holds_push(self.active@, name, p);
                            }
                        }
                    } else {
                        kept.push(name);
                        proof {
                            lemma_holds_push(had, name, path@);
                            assert forall|p: Seq<char>| p != path@ implies (#[trigger] holds(
                                before,
                                p,
                            ) <==> holds(self.active@, p) || holds(kept@, p)) by {
                                lemma_holds_push(self.active@, name, p);
                                lemma_holds_push(had, name, p);
                            }
                        }
                    }
                },
            }
        }
        self.active = kept;
        proof {
            assert(self@ =~= old(self)@.remove(path@));
        }
        released
    }
}

} // verus!
