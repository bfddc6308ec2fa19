//! What became of each item of a cycle, and of the cycle as a whole.
use vstd::prelude::*;

verus! {

/// Why a step of a transfer failed.
#[derive(Clone, Copy, Debug, PartialEq, Eq, Structural)]
pub enum StepError {
    /// A directory could not be packed.
    ArchiveWrite,
    /// An archive could not be unpacked.
    ArchiveRead,
    /// A local or remote transfer step failed.
    Transfer,
    /// The remote object no longer exists.
    NotFound,
}

/// Why an item was passed over without being attempted or completed.
#[derive(Clone, Copy, Debug, PartialEq, Eq, Structural)]
pub enum SkipReason {
    /// The local name is not valid key text.
    InvalidName,
    /// The local child is neither a regular file nor a directory.
    NotFileOrDirectory,
    /// The remote object vanished before it could be fetched.
    ObjectGone,
}

/// The result of handling one item.
#[derive(Clone, Copy, Debug, PartialEq, Eq, Structural)]
pub enum ItemOutcome {
    /// Every step was carried out.
    Success,
    /// Nothing was done, and nothing is wrong.
    Skipped(SkipReason),
    /// A step failed; the item stays where it is for the next cycle.
    Failed(StepError),
}

/// Whether some outcome in the sequence is a failure.
pub open spec fn any_failed(outcomes: Seq<ItemOutcome>) -> bool {
    exists|i: int| 0 <= i < outcomes.len() && (#[trigger] outcomes[i]) is Failed
}

/// The outcomes of the items of one cycle, in the order they were handled.
#[derive(Clone, Debug, PartialEq, Eq)]
pub struct CycleReport {
    pub outcomes: Vec<ItemOutcome>,
}

impl View for CycleReport {
    type V = Seq<ItemOutcome>;

    open spec fn view(&self) -> Seq<ItemOutcome> {
        self.outcomes@
    }
}

impl CycleReport {
    /// A report of a cycle in which nothing has been handled yet.
    pub fn new() -> (report: CycleReport)
        ensures
            report@ == Seq::<ItemOutcome>::empty(),
    {
        CycleReport { outcomes: Vec::new() }
    }

    /// Appends the outcome of one more item.
    pub fn record(&mut self, outcome: ItemOutcome)
        ensures
            final(self)@ == old(self)@.push(outcome),
    {
        self.outcomes.push(outcome);
    }

    /// How many items ended with a failure.
    pub fn failed_count(&self) -> (count: usize)
        ensures
            count == self@.filter(|o: ItemOutcome| o is Failed).len(),
    {
        let ghost failed = |o: ItemOutcome| o is Failed;
        let mut count: usize = 0;
        let mut i: usize = 0;
        while i < self.outcomes.len()
            invariant
                i <= self.outcomes.len(),
                count <= i,
                count == self@.take(i as int).filter(failed).len(),
                failed == |o: ItemOutcome| o is Failed,
            decreases self.outcomes.len() - i,
        {
            proof {
                let head = self@.take(i as int);
                assert(self@.take(i + 1) =~= head.push(self@[i as int]));
                head.lemma_filter_push(self@[i as int], failed);
            }
            match self.outcomes[i] {
                ItemOutcome::Failed(_) => {
                    count += 1;
                },
                _ => {},
            }
            i += 1;
        }
        assert(self@.take(i as int) =~= self@);
        count
    }

    /// The process exit code for the cycle: 0 when nothing failed, 1 otherwise.
    pub fn exit_code(&self) -> (code: i32)
        ensures
            code == if any_failed(self@) { 1i32 } else { 0i32 },
    {
        let mut i: usize = 0;
        while i < self.outcomes.len()
            invariant
                i <= self.outcomes.len(),
                forall|k: int| 0 <= k < i ==> !((#[trigger] self@[k]) is Failed),
            decreases self.outcomes.len() - i,
        {
            match self.outcomes[i] {
                ItemOutcome::Failed(_) => {
                    assert(self@[i as int] is Failed);
                    return 1;
                },
                _ => {},
            }
            i += 1;
        }
        0
    }
}

} // verus!
