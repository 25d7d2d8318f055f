use vstd::prelude::*;
use crate::catalog::catalog_lookup;
use crate::error::ProcessError;
use crate::musicfile::{file_plan, Mode};

verus! {

/// What became of one file of a run.
#[derive(Debug, Clone, Copy, PartialEq, Eq, Structural)]
pub enum Outcome {
    /// Copied unconverted.
    Copied,
    /// Transcoded to the target format.
    Transcoded,
    /// Left alone: its destination existed already.
    Skipped,
    /// Failed; the other files went on.
    Failed(ProcessError),
}

/// How many files of a run have a result.
pub open spec fn count_done(results: Seq<Option<Outcome>>) -> nat
    decreases results.len(),
{
    if results.len() == 0 {
        0
    } else {
        count_done(results.drop_last()) + if results.last() is Some { 1nat } else { 0nat }
    }
}

/// How many files of a run failed.
pub open spec fn count_failed(results: Seq<Option<Outcome>>) -> nat
    decreases results.len(),
{
    if results.len() == 0 {
        0
    } else {
        count_failed(results.drop_last()) + if results.last() matches Some(Outcome::Failed(_)) { 1nat } else { 0nat }
    }
}

proof fn lemma_count_bounds(s: Seq<Option<Outcome>>)
    ensures
        count_done(s) <= s.len(),
        count_failed(s) <= count_done(s),
        count_done(s) == s.len() <==> forall|i: int| 0 <= i < s.len() ==> s[i] is Some,
    decreases s.len(),
{
    if s.len() > 0 {
        lemma_count_bounds(s.drop_last());
        if count_done(s) == s.len() {
            assert forall|i: int| 0 <= i < s.len() implies s[i] is Some by {
                if i < s.len() - 1 {
                    assert(s.drop_last()[i] == s[i]);
                }
            }
        }
        if forall|i: int| 0 <= i < s.len() ==> s[i] is Some {
            assert forall|i: int| 0 <= i < s.drop_last().len() implies s.drop_last()[i] is Some by {
                assert(s.drop_last()[i] == s[i]);
            }
        }
    }
}

proof fn lemma_count_record(s: Seq<Option<Outcome>>, i: int, o: Outcome)
    requires
        0 <= i < s.len(),
        s[i] is None,
    ensures
        count_done(s.update(i, Some(o))) == count_done(s) + 1,
        count_failed(s.update(i, Some(o))) == count_failed(s) + if o is Failed { 1nat } else { 0nat },
    decreases s.len(),
{
    let t = s.update(i, Some(o));
    if i == s.len() - 1 {
        assert(t.drop_last() =~= s.drop_last());
    } else {
        lemma_count_record(s.drop_last(), i, o);
        assert(t.drop_last() =~= s.drop_last().update(i, Some(o)));
    }
}

/// One file's failure is its own: a file whose probed codec is not in the
/// catalog fails with `UnknownCodec`, and recording that failure leaves the
/// result of every other file as it was.
pub proof fn lemma_fault_isolation(
    results: Seq<Option<Outcome>>,
    index: int,
    file: Seq<char>,
    src: Seq<char>,
    dest: Seq<char>,
    name: Seq<char>,
    target: Seq<char>,
    formats: Seq<Seq<char>>,
    kbps: usize,
)
    requires
        0 <= index < results.len(),
        catalog_lookup(name) is None,
    ensures
        file_plan(file, src, dest, Some(name), target, formats, kbps)
            == Err::<(Seq<char>, Seq<char>, Mode), ProcessError>(ProcessError::UnknownCodec),
        forall|j: int| 0 <= j < results.len() && j != index
            ==> #[trigger] results.update(index, Some(Outcome::Failed(ProcessError::UnknownCodec)))[j] == results[j],
{
}

/// The results of a run, one slot per discovered file. Each file's result
/// is recorded once, whatever the order in which the workers finish, and a
/// failure touches only its own slot.
pub struct SyncRun {
    results: Vec<Option<Outcome>>,
    completed: usize,
    failed: usize,
}

impl View for SyncRun {
    type V = Seq<Option<Outcome>>;

    closed spec fn view(&self) -> Seq<Option<Outcome>> {
        self.results@
    }
}

impl SyncRun {
    pub closed spec fn wf(&self) -> bool {
        &&& self.completed == count_done(self.results@)
        &&& self.failed == count_failed(self.results@)
    }

    /// A run over `total` files, none of them done.
    pub fn new(total: usize) -> (r: SyncRun)
        ensures
            r.wf(),
            r@ == Seq::new(total as nat, |i: int| None::<Outcome>),
            r.completed() == 0,
            count_failed(r@) == 0,
    {
        let mut results: Vec<Option<Outcome>> = Vec::new();
        let mut i: usize = 0;
        while i < total
            invariant
                i <= total,
                results@ == Seq::new(i as nat, |k: int| None::<Outcome>),
                count_done(results@) == 0,
                count_failed(results@) == 0,
            decreases total - i,
        {
            let ghost before = results@;
            results.push(None);
            assert(results@.drop_last() =~= before);
            assert(results@ =~= Seq::new((i + 1) as nat, |k: int| None::<Outcome>));
            i = i + 1;
        }
        SyncRun { results, completed: 0, failed: 0 }
    }

    /// Records the result of file `index`. Progress moves by exactly one.
    pub fn record(&mut self, index: usize, outcome: Outcome)
        requires
            old(self).wf(),
            index < old(self)@.len(),
            old(self)@[index as int] is None,
        ensures
            final(self).wf(),
            final(self)@ == old(self)@.update(index as int, Some(outcome)),
            final(self).completed() == old(self).completed() + 1,
    {
        let total = self.results.len();
        proof {
            lemma_count_record(self.results@, index as int, outcome);
            lemma_count_bounds(self.results@.update(index as int, Some(outcome)));
            assert(self.completed < total);
        }
        self.results.set(index, Some(outcome));
        self.completed = self.completed + 1;
        if let Outcome::Failed(_) = outcome {
            self.failed = self.failed + 1;
        }
    }

    pub closed spec fn completed(&self) -> nat {
        count_done(self.results@)
    }

    /// How many files have a result.
    pub fn completed_count(&self) -> (r: usize)
        requires
            self.wf(),
        ensures
            r == self.completed(),
    {
        self.completed
    }

    /// How many files failed.
    pub fn failed_count(&self) -> (r: usize)
        requires
            self.wf(),
        ensures
            r == count_failed(self@),
    {
        self.failed
    }

    /// How many files the run holds.
    pub fn total(&self) -> (r: usize)
        ensures
            r == self@.len(),
    {
        self.results.len()
    }

    /// Whether every file has its result.
    pub fn is_finished(&self) -> (r: bool)
        requires
            self.wf(),
        ensures
            r == forall|i: int| 0 <= i < self@.len() ==> self@[i] is Some,
    {
        proof {
            lemma_count_bounds(self.results@);
        }
        self.completed == self.results.len()
    }

    /// The result of file `index`, if it has one.
    pub fn outcome(&self, index: usize) -> (r: Option<Outcome>)
        requires
            index < self@.len(),
        ensures
            r == self@[index as int],
    {
        self.results[index]
    }
}

} // verus!
