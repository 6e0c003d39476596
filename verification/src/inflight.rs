//! The variants that are being stored right now.
//!
//! Two requests for one new width of one image each make the variant for
//! their own response, but only one of them needs to store it. The first to
//! claim the pair of key and width stores the variant; later ones find the
//! pair claimed and leave the storing to the first. The pair is released
//! when the storing has ended, however it ended.

use vstd::prelude::*;
use vstd::string::*;

verus! {

/// One variant that is being stored.
#[derive(Clone, Debug, PartialEq, Eq)]
pub struct Task {
    pub key: String,
    pub width: u32,
}

/// The variants that are being stored, each named by the key of its image
/// and its width.
#[derive(Clone, Debug)]
pub struct InFlight {
    tasks: Vec<Task>,
}

/// Whether one of the tasks is the storing of the given variant.
pub open spec fn holds(tasks: Seq<Task>, key: Seq<char>, width: u32) -> bool {
    exists|i: int| 0 <= i < tasks.len() && (#[trigger] tasks[i]).key@ == key && tasks[i].width == width
}

impl View for InFlight {
    type V = Set<(Seq<char>, u32)>;

    /// The pairs of key and width that are claimed.
    closed spec fn view(&self) -> Set<(Seq<char>, u32)> {
        Set::new(|pair: (Seq<char>, u32)| holds(self.tasks@, pair.0, pair.1))
    }
}

impl InFlight {
    /// Nothing is being stored.
    pub fn new() -> (fresh: InFlight)
        ensures
            fresh@ == Set::<(Seq<char>, u32)>::empty(),
    {
        let fresh = InFlight { tasks: Vec::new() };
        assert(fresh@ =~= Set::<(Seq<char>, u32)>::empty());
        fresh
    }

    /// Whether the variant is being stored.
    pub fn contains(&self, key: &str, width: u32) -> (found: bool)
        ensures
            found == self@.contains((key@, width)),
    {
        let wanted = String::from_str(key);
        let mut i: usize = 0;
        while i < self.tasks.len()
            invariant
                i <= self.tasks.len(),
                wanted@ == key@,
                forall|k: int|
                    0 <= k < i ==> !((#[trigger] self.tasks@[k]).key@ == key@ && self.tasks@[k].width
                        == width),
            decreases self.tasks.len() - i,
        {
            if self.tasks[i].width == width && self.tasks[i].key == wanted {
                return true;
            }
            i = i + 1;
        }
        false
    }

    /// Claims the storing of a variant. Tells whether the claim was made: it
    /// is not where the variant is being stored already. Either way the
    /// variant is being stored afterwards.
    pub fn claim(&mut self, key: &str, width: u32) -> (claimed: bool)
        ensures
            claimed == !old(self)@.contains((key@, width)),
            final(self)@ == old(self)@.insert((key@, width)),
    {
        if self.contains(key, width) {
            assert(self@ =~= self@.insert((key@, width)));
            return false;
        }
        let ghost before = self.tasks@;
        self.tasks.push(Task { key: String::from_str(key), width });
        proof {
            let after = self.tasks@;
            assert forall|pair: (Seq<char>, u32)|
                holds(after, pair.0, pair.1) <==> (holds(before, pair.0, pair.1) || pair == (
                    key@,
                    width,
                )) by {
                if holds(before, pair.0, pair.1) {
                    let i = choose|i: int|
                        0 <= i < before.len() && (#[trigger] before[i]).key@ == pair.0
                            && before[i].width == pair.1;
                    assert(after[i] == before[i]);
                }
                if pair == (key@, width) {
                    assert(after[before.len() as int].key@ == key@);
                }
                if holds(after, pair.0, pair.1) {
                    let i = choose|i: int|
                        0 <= i < after.len() && (#[trigger] after[i]).key@ == pair.0
                            && after[i].width == pair.1;
                    if i < before.len() {
                        assert(before[i] == after[i]);
                    }
                }
            }
            assert(self@ =~= old(self)@.insert((key@, width)));
        }
        true
    }

    /// Gives up the claim on a variant, once its storing has ended. All
    /// other claims stay.
    pub fn release(&mut self, key: &str, width: u32)
        ensures
            final(self)@ == old(self)@.remove((key@, width)),
    {
        let wanted = String::from_str(key);
        let mut kept: Vec<Task> = Vec::new();
        let ghost before = self.tasks@;
        let ghost mut done: int = 0;
        while self.tasks.len() > 0
            invariant
                0 <= done <= before.len(),
                wanted@ == key@,
                self.tasks@ == before.skip(done),
                forall|pair: (Seq<char>, u32)|
                    holds(kept@, pair.0, pair.1) <==> (holds(before.take(done), pair.0, pair.1)
                        && pair != (key@, width)),
            decreases self.tasks.len(),
        {
            let task = self.tasks.remove(0);
            let ghost kept_before = kept@;
            let keep = !(task.width == width && task.key == wanted);
            if keep {
                kept.push(task);
            }
            proof {
                assert(task == before[done]);
                assert(self.tasks@ =~= before.skip(done + 1));
                let seen = before.take(done);
                let next = before.take(done + 1);
                assert forall|pair: (Seq<char>, u32)|
                    holds(kept@, pair.0, pair.1) <==> (holds(next, pair.0, pair.1) && pair != (
                        key@,
                        width,
                    )) by {
                    let here = (task.key@, task.width);
                    assert(holds(next, pair.0, pair.1) <==> (holds(seen, pair.0, pair.1) || pair
                        == here)) by {
                        if holds(seen, pair.0, pair.1) {
                            let i = choose|i: int|
                                0 <= i < seen.len() && (#[trigger] seen[i]).key@ == pair.0
                                    && seen[i].width == pair.1;
                            assert(next[i] == seen[i]);
                        }
                        if pair == here {
                            assert(next[done] == task);
                        }
                        if holds(next, pair.0, pair.1) {
                            let i = choose|i: int|
                                0 <= i < next.len() && (#[trigger] next[i]).key@ == pair.0
                                    && next[i].width == pair.1;
                            if i < seen.len() {
                                assert(seen[i] == next[i]);
                            }
                        }
                    }
                    if keep {
                        assert(holds(kept@, pair.0, pair.1) <==> (holds(kept_before, pair.0, pair.1)
                            || pair == here)) by {
                            if holds(kept_before, pair.0, pair.1) {
                                let i = choose|i: int|
                                    0 <= i < kept_before.len() && (#[trigger] kept_before[i]).key@
                                        == pair.0 && kept_before[i].width == pair.1;
                                assert(kept@[i] == kept_before[i]);
                            }
                            if pair == here {
                                assert(kept@[kept_before.len() as int] == task);
                            }
                            if holds(kept@, pair.0, pair.1) {
                                let i = choose|i: int|
                                    0 <= i < kept@.len() && (#[trigger] kept@[i]).key@ == pair.0
                                        && kept@[i].width == pair.1;
                                if i < kept_before.len() {
                                    assert(kept_before[i] == kept@[i]);
                                }
                            }
                        }
                    }
                }
                done = done + 1;
            }
        }
        proof {
            assert(before.take(done) =~= before);
        }
        self.tasks = kept;
        assert(self@ =~= old(self)@.remove((key@, width)));
    }
}

impl InFlight {
    /// Gives up the claim that a task stands for.
    pub fn finish(&mut self, task: &Task)
        ensures
            final(self)@ == old(self)@.remove((task.key@, task.width)),
    {
        self.release(task.key.as_str(), task.width)
    }
}

/// A variant that is claimed cannot be claimed again before it is released,
/// and can be claimed again afterwards.
pub proof fn lemma_one_claim_at_a_time(claimed: Set<(Seq<char>, u32)>, key: Seq<char>, width: u32)
    ensures
        claimed.insert((key, width)).contains((key, width)),
        !claimed.insert((key, width)).remove((key, width)).contains((key, width)),
        claimed.insert((key, width)).insert((key, width)) == claimed.insert((key, width)),
{
    assert(claimed.insert((key, width)).insert((key, width)) =~= claimed.insert((key, width)));
}

} // verus!
