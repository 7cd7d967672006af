//! Which workspaces a run has completed and which have failed, so that an
//! interrupted run can resume.

use vstd::prelude::*;
use vstd::string::*;

use crate::text::{find_string, views};
use vstd::seq_lib::seq_to_set_is_finite;

verus! {

/// The keys a checkpoint records: completed and failed workspaces.
pub ghost struct CheckpointView {
    pub completed: Set<Seq<char>>,
    pub failed: Set<Seq<char>>,
}

impl CheckpointView {
    /// A checkpoint that records nothing.
    pub open spec fn fresh() -> CheckpointView {
        CheckpointView { completed: Set::empty(), failed: Set::empty() }
    }

    /// The checkpoint after `key` completed: recorded as completed, no longer
    /// as failed.
    pub open spec fn after_completed(self, key: Seq<char>) -> CheckpointView {
        CheckpointView { completed: self.completed.insert(key), failed: self.failed.remove(key) }
    }

    /// The checkpoint after `key` failed: recorded as failed.
    pub open spec fn after_failed(self, key: Seq<char>) -> CheckpointView {
        CheckpointView { completed: self.completed, failed: self.failed.insert(key) }
    }
}

/// Marking a workspace completed makes it done and takes it off the failed
/// list.
pub proof fn lemma_completed_is_done(p: CheckpointView, key: Seq<char>)
    ensures
        p.after_completed(key).completed.contains(key),
        !p.after_completed(key).failed.contains(key),
{
}

/// Marking a workspace completed twice is the same as marking it once.
pub proof fn lemma_completion_idempotent(p: CheckpointView, key: Seq<char>)
    ensures
        p.after_completed(key).after_completed(key) == p.after_completed(key),
{
    assert(p.after_completed(key).after_completed(key).completed =~= p.after_completed(key).completed);
    assert(p.after_completed(key).after_completed(key).failed =~= p.after_completed(key).failed);
}

/// A workspace that completed stays completed, whatever is marked next, so a
/// resumed run skips it.
pub proof fn lemma_completion_persists(p: CheckpointView, done: Seq<char>, key: Seq<char>)
    requires
        p.completed.contains(done),
    ensures
        p.after_completed(key).completed.contains(done),
        p.after_failed(key).completed.contains(done),
{
}

/// A failure changes nothing of what completed; a workspace that had not
/// completed is still not done after it fails, so the next run retries it.
pub proof fn lemma_failure_is_retried(p: CheckpointView, key: Seq<char>)
    ensures
        p.after_failed(key).completed == p.completed,
        p.after_failed(key).failed.contains(key),
        !p.completed.contains(key) ==> !p.after_failed(key).completed.contains(key),
{
}

/// Completing a workspace adds one to the completed count, unless it had
/// completed already.
pub proof fn lemma_completion_counts_once(p: CheckpointView, key: Seq<char>)
    requires
        p.completed.finite(),
    ensures
        p.after_completed(key).completed.len() == p.completed.len() + if p.completed.contains(key) {
            0int
        } else {
            1int
        },
{
    if p.completed.contains(key) {
        assert(p.completed.insert(key) =~= p.completed);
    }
}

/// After a reset nothing is done and nothing has failed.
pub proof fn lemma_reset_clears(key: Seq<char>)
    ensures
        !CheckpointView::fresh().completed.contains(key),
        !CheckpointView::fresh().failed.contains(key),
        CheckpointView::fresh().completed.len() == 0,
{
}

/// One change a run makes to its checkpoint.
pub ghost enum ProgressOp {
    Completed(Seq<char>),
    Failed(Seq<char>),
    Reset,
}

/// The checkpoint after `op`.
pub open spec fn apply_op(p: CheckpointView, op: ProgressOp) -> CheckpointView {
    match op {
        ProgressOp::Completed(k) => p.after_completed(k),
        ProgressOp::Failed(k) => p.after_failed(k),
        ProgressOp::Reset => CheckpointView::fresh(),
    }
}

/// The checkpoint after `ops`, in order.
pub open spec fn apply_ops(p: CheckpointView, ops: Seq<ProgressOp>) -> CheckpointView
    decreases ops.len(),
{
    if ops.len() == 0 {
        p
    } else {
        apply_op(apply_ops(p, ops.drop_last()), ops.last())
    }
}

/// No reset among `ops` after position `i`.
pub open spec fn no_reset_after(ops: Seq<ProgressOp>, i: int) -> bool {
    forall|j: int| i < j < ops.len() ==> !(#[trigger] ops[j] is Reset)
}

/// Neither a reset nor a completion of `key` among `ops` after position `i`.
pub open spec fn no_clear_after(ops: Seq<ProgressOp>, key: Seq<char>, i: int) -> bool {
    forall|j: int|
        i < j < ops.len() ==> !(#[trigger] ops[j] is Reset) && ops[j] != ProgressOp::Completed(key)
}

/// After any run of changes, a key is done exactly when it completed after
/// the last reset, or when nothing reset the checkpoint and it was done at the
/// start. A failure never changes what is done.
pub proof fn lemma_done_after_run(p: CheckpointView, ops: Seq<ProgressOp>, key: Seq<char>)
    ensures
        apply_ops(p, ops).completed.contains(key) <==> (exists|i: int|
            0 <= i < ops.len() && ops[i] == ProgressOp::Completed(key) && no_reset_after(ops, i))
            || (no_reset_after(ops, -1) && p.completed.contains(key)),
    decreases ops.len(),
{
    if ops.len() > 0 {
        let init = ops.drop_last();
        lemma_done_after_run(p, init, key);
        let n = ops.len() - 1;
        assert forall|j: int| 0 <= j < n implies init[j] == ops[j] by {}
        if apply_ops(p, ops).completed.contains(key) {
            if ops.last() == ProgressOp::Completed(key) {
                assert(no_reset_after(ops, n));
            } else {
                assert(!(ops.last() is Reset));
                if exists|i: int|
                    0 <= i < init.len() && init[i] == ProgressOp::Completed(key) && no_reset_after(
                        init,
                        i,
                    ) {
                    let i = choose|i: int|
                        0 <= i < init.len() && init[i] == ProgressOp::Completed(key)
                            && no_reset_after(init, i);
                    assert(ops[i] == ProgressOp::Completed(key));
                    assert forall|j: int| i < j < ops.len() implies !(#[trigger] ops[j] is Reset) by {
                        if j < n {
                            assert(init[j] == ops[j]);
                        }
                    }
                } else {
                    assert forall|j: int| -1 < j < ops.len() implies !(#[trigger] ops[j] is Reset) by {
                        if j < n {
                            assert(init[j] == ops[j]);
                        }
                    }
                }
            }
        } else {
            if exists|i: int|
                0 <= i < ops.len() && ops[i] == ProgressOp::Completed(key) && no_reset_after(ops, i) {
                let i = choose|i: int|
                    0 <= i < ops.len() && ops[i] == ProgressOp::Completed(key) && no_reset_after(ops, i);
                if i < n {
                    assert(init[i] == ProgressOp::Completed(key));
                    assert(!(ops[n] is Reset));
                    assert forall|j: int| i < j < init.len() implies !(#[trigger] init[j] is Reset) by {
                        assert(init[j] == ops[j]);
                    }
                }
            }
            if no_reset_after(ops, -1) && p.completed.contains(key) {
                assert(!(ops[n] is Reset));
                assert forall|j: int| -1 < j < init.len() implies !(#[trigger] init[j] is Reset) by {
                    assert(init[j] == ops[j]);
                }
            }
        }
    }
}

/// After any run of changes, a key has failed exactly when it failed with no
/// reset or completion of it since, or when nothing since the start reset the
/// checkpoint or completed it and it had failed at the start.
pub proof fn lemma_failed_after_run(p: CheckpointView, ops: Seq<ProgressOp>, key: Seq<char>)
    ensures
        apply_ops(p, ops).failed.contains(key) <==> (exists|i: int|
            0 <= i < ops.len() && ops[i] == ProgressOp::Failed(key) && no_clear_after(ops, key, i))
            || (no_clear_after(ops, key, -1) && p.failed.contains(key)),
    decreases ops.len(),
{
    if ops.len() > 0 {
        let init = ops.drop_last();
        lemma_failed_after_run(p, init, key);
        let n = ops.len() - 1;
        assert forall|j: int| 0 <= j < n implies init[j] == ops[j] by {}
        let last = ops.last();
        let kills = last is Reset || last == ProgressOp::Completed(key);
        if apply_ops(p, ops).failed.contains(key) {
            if last == ProgressOp::Failed(key) {
                assert(no_clear_after(ops, key, n));
            } else {
                assert(!kills);
                if exists|i: int|
                    0 <= i < init.len() && init[i] == ProgressOp::Failed(key) && no_clear_after(
                        init,
                        key,
                        i,
                    ) {
                    let i = choose|i: int|
                        0 <= i < init.len() && init[i] == ProgressOp::Failed(key) && no_clear_after(
                            init,
                            key,
                            i,
                        );
                    assert(ops[i] == ProgressOp::Failed(key));
                    assert forall|j: int| i < j < ops.len() implies !(#[trigger] ops[j] is Reset)
                        && ops[j] != ProgressOp::Completed(key) by {
                        if j < n {
                            assert(init[j] == ops[j]);
                        }
                    }
                } else {
                    assert forall|j: int| -1 < j < ops.len() implies !(#[trigger] ops[j] is Reset)
                        && ops[j] != ProgressOp::Completed(key) by {
                        if j < n {
                            assert(init[j] == ops[j]);
                        }
                    }
                }
            }
        } else {
            if exists|i: int|
                0 <= i < ops.len() && ops[i] == ProgressOp::Failed(key) && no_clear_after(ops, key, i) {
                let i = choose|i: int|
                    0 <= i < ops.len() && ops[i] == ProgressOp::Failed(key) && no_clear_after(
                        ops,
                        key,
                        i,
                    );
                if i < n {
                    assert(init[i] == ProgressOp::Failed(key));
                    assert(!(ops[n] is Reset) && ops[n] != ProgressOp::Completed(key));
                    assert forall|j: int| i < j < init.len() implies !(#[trigger] init[j] is Reset)
                        && init[j] != ProgressOp::Completed(key) by {
                        assert(init[j] == ops[j]);
                    }
                }
            }
            if no_clear_after(ops, key, -1) && p.failed.contains(key) {
                assert(!(ops[n] is Reset) && ops[n] != ProgressOp::Completed(key));
                assert forall|j: int| -1 < j < init.len() implies !(#[trigger] init[j] is Reset)
                    && init[j] != ProgressOp::Completed(key) by {
                    assert(init[j] == ops[j]);
                }
            }
        }
    }
}

/// Progress over a run: the completed and the failed workspace keys, each
/// held once.
pub struct Progress {
    completed: Vec<String>,
    failed: Vec<String>,
}

/// The character sequences of a sequence of string slices.
pub open spec fn str_views(v: Seq<&str>) -> Seq<Seq<char>> {
    v.map_values(|s: &str| s@)
}

/// `v` with `key` added, unless it holds it already.
fn insert_key(v: &mut Vec<String>, key: &str)
    requires
        views(old(v)@).no_duplicates(),
    ensures
        views(final(v)@).no_duplicates(),
        views(final(v)@).to_set() == views(old(v)@).to_set().insert(key@),
{
    let ghost before = views(v@);
    match find_string(v, key) {
        Some(i) => {
            assert(before[i as int] == key@);
            assert(views(v@).to_set() =~= before.to_set().insert(key@));
        },
        None => {
            v.push(key.to_owned());
            assert(views(v@) =~= before.push(key@));
            assert(views(v@)[before.len() as int] == key@);
            proof {
                before.lemma_push_to_set_commute(key@);
            }
            assert(views(v@).to_set() =~= before.to_set().insert(key@));
        },
    }
}

/// `v` without `key`.
fn remove_key(v: &mut Vec<String>, key: &str)
    requires
        views(old(v)@).no_duplicates(),
    ensures
        views(final(v)@).no_duplicates(),
        views(final(v)@).to_set() == views(old(v)@).to_set().remove(key@),
{
    let ghost before = views(v@);
    match find_string(v, key) {
        Some(i) => {
            assert(before[i as int] == key@);
            v.remove(i);
            assert(views(v@) =~= before.remove(i as int));
            assert forall|x: Seq<char>| #[trigger]
                views(v@).contains(x) implies before.contains(x) && x != key@ by {
                let m = choose|m: int| 0 <= m < views(v@).len() && views(v@)[m] == x;
                if m < i {
                    assert(before[m] == x);
                    assert(before[m] != before[i as int]);
                } else {
                    assert(before[m + 1] == x);
                    assert(before[m + 1] != before[i as int]);
                }
            }
            assert forall|x: Seq<char>| #[trigger]
                before.contains(x) && x != key@ implies views(v@).contains(x) by {
                let m = choose|m: int| 0 <= m < before.len() && before[m] == x;
                assert(m != i);
                if m < i {
                    assert(views(v@)[m] == x);
                } else {
                    assert(views(v@)[m - 1] == x);
                }
            }
            assert(views(v@).to_set() =~= before.to_set().remove(key@));
        },
        None => {
            assert(views(v@).to_set() =~= before.to_set().remove(key@));
        },
    }
}

/// The keys of `v`, each once.
fn distinct_keys(v: &Vec<String>) -> (res: Vec<String>)
    ensures
        views(res@).no_duplicates(),
        views(res@).to_set() == views(v@).to_set(),
{
    let mut res: Vec<String> = Vec::new();
    let mut i: usize = 0;
    assert(views(res@).to_set() =~= views(v@.take(0)).to_set());
    while i < v.len()
        invariant
            i <= v@.len(),
            views(res@).no_duplicates(),
            views(res@).to_set() == views(v@.take(i as int)).to_set(),
        decreases v@.len() - i,
    {
        insert_key(&mut res, v[i].as_str());
        assert(views(v@.take(i + 1)) =~= views(v@.take(i as int)).push(v@[i as int]@));
        proof {
            views(v@.take(i as int)).lemma_push_to_set_commute(v@[i as int]@);
        }
        i = i + 1;
    }
    assert(v@.take(v@.len() as int) =~= v@);
    res
}

/// The keys of `v` as string slices, in order.
fn key_slices(v: &Vec<String>) -> (res: Vec<&str>)
    ensures
        str_views(res@) == views(v@),
{
    let mut res: Vec<&str> = Vec::new();
    let mut i: usize = 0;
    while i < v.len()
        invariant
            i <= v@.len(),
            str_views(res@) == views(v@.take(i as int)),
        decreases v@.len() - i,
    {
        let ghost before = res@;
        let s = v[i].as_str();
        res.push(s);
        assert(res@ == before.push(s));
        assert(views(v@.take(i + 1)) =~= views(v@.take(i as int)).push(v@[i as int]@));
        assert(str_views(res@) =~= str_views(before).push(s@));
        i = i + 1;
    }
    assert(v@.take(v@.len() as int) =~= v@);
    res
}

impl View for Progress {
    type V = CheckpointView;

    closed spec fn view(&self) -> CheckpointView {
        CheckpointView {
            completed: views(self.completed@).to_set(),
            failed: views(self.failed@).to_set(),
        }
    }
}

impl Progress {
    #[verifier::type_invariant]
    spec fn each_key_once(self) -> bool {
        views(self.completed@).no_duplicates() && views(self.failed@).no_duplicates()
    }

    /// Progress that records the given completed and failed keys.
    pub fn from_keys(completed: Vec<String>, failed: Vec<String>) -> (res: Self)
        ensures
            res@.completed == views(completed@).to_set(),
            res@.failed == views(failed@).to_set(),
    {
        Progress { completed: distinct_keys(&completed), failed: distinct_keys(&failed) }
    }

    /// The sets a checkpoint records are finite.
    pub proof fn lemma_finite(&self)
        ensures
            self@.completed.finite(),
            self@.failed.finite(),
    {
        seq_to_set_is_finite(views(self.completed@));
        seq_to_set_is_finite(views(self.failed@));
    }

    /// Whether the workspace `key` has completed.
    pub fn is_done(&self, key: &str) -> (res: bool)
        ensures
            res == self@.completed.contains(key@),
    {
        match find_string(&self.completed, key) {
            Some(i) => {
                assert(views(self.completed@)[i as int] == key@);
                true
            },
            None => false,
        }
    }

    /// Record that `key` completed.
    pub fn mark_completed(&mut self, key: &str)
        ensures
            final(self)@ == old(self)@.after_completed(key@),
    {
        proof {
            use_type_invariant(&*self);
        }
        let mut failed = Vec::new();
        std::mem::swap(&mut failed, &mut self.failed);
        remove_key(&mut failed, key);
        self.failed = failed;
        let mut completed = Vec::new();
        std::mem::swap(&mut completed, &mut self.completed);
        insert_key(&mut completed, key);
        self.completed = completed;
    }

    /// Record that `key` failed.
    pub fn mark_failed(&mut self, key: &str)
        ensures
            final(self)@ == old(self)@.after_failed(key@),
    {
        proof {
            use_type_invariant(&*self);
        }
        let mut failed = Vec::new();
        std::mem::swap(&mut failed, &mut self.failed);
        insert_key(&mut failed, key);
        self.failed = failed;
    }

    /// How many workspaces have completed.
    pub fn completed_count(&self) -> (res: usize)
        ensures
            res == self@.completed.len(),
    {
        proof {
            use_type_invariant(self);
            views(self.completed@).unique_seq_to_set();
        }
        self.completed.len()
    }

    /// The failed workspaces, each once, in no particular order.
    pub fn failed_keys(&self) -> (res: Vec<&str>)
        ensures
            str_views(res@).no_duplicates(),
            str_views(res@).to_set() == self@.failed,
    {
        proof {
            use_type_invariant(self);
        }
        key_slices(&self.failed)
    }

    /// The completed workspaces, each once, in no particular order.
    pub fn completed_keys(&self) -> (res: Vec<&str>)
        ensures
            str_views(res@).no_duplicates(),
            str_views(res@).to_set() == self@.completed,
    {
        proof {
            use_type_invariant(self);
        }
        key_slices(&self.completed)
    }

    /// Reset the checkpoint (clear all state).
    pub fn reset(&mut self)
        ensures
            final(self)@ == CheckpointView::fresh(),
    {
        let empty_completed: Vec<String> = Vec::new();
        let empty_failed: Vec<String> = Vec::new();
        assert(views(empty_completed@) =~= Seq::<Seq<char>>::empty());
        assert(views(empty_failed@) =~= Seq::<Seq<char>>::empty());
        *self = Progress { completed: empty_completed, failed: empty_failed };
        assert(views(self.completed@).to_set() =~= Set::<Seq<char>>::empty());
        assert(views(self.failed@).to_set() =~= Set::<Seq<char>>::empty());
    }
}

} // verus!
