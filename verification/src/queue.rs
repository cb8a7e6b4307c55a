use crate::paths::{paths_equal, same_path};
use std::collections::VecDeque;
use vstd::prelude::*;

verus! {

/// Queue of release paths waiting for processing. A path is never queued
/// twice (paths are compared as paths, so `/a/b` and `/a/b/` are one);
/// paths leave in the order in which they were first queued.
pub struct JobQueue {
    jobs: VecDeque<String>,
}

/// Some queued path is the same path as `path`.
pub open spec fn queued(q: Seq<Seq<char>>, path: Seq<char>) -> bool {
    exists|i: int| 0 <= i < q.len() && #[trigger] paths_equal(q[i], path)
}

/// No two queued paths are the same path.
pub open spec fn distinct_paths(q: Seq<Seq<char>>) -> bool {
    forall|i: int, j: int| 0 <= i < j < q.len() ==> !#[trigger] paths_equal(q[i], q[j])
}

/// The queue after `push(path)`, and whether the path was added.
pub open spec fn queue_push(q: Seq<Seq<char>>, path: Seq<char>) -> (Seq<Seq<char>>, bool) {
    if queued(q, path) {
        (q, false)
    } else {
        (q.push(path), true)
    }
}

/// The queue after `pop()`, and the path that left it.
pub open spec fn queue_pop(q: Seq<Seq<char>>) -> (Seq<Seq<char>>, Option<Seq<char>>) {
    if q.len() == 0 {
        (q, None)
    } else {
        (q.drop_first(), Some(q[0]))
    }
}

impl View for JobQueue {
    type V = Seq<Seq<char>>;

    closed spec fn view(&self) -> Seq<Seq<char>> {
        self.jobs@.map_values(|s: String| s@)
    }
}

impl JobQueue {
    #[verifier::type_invariant]
    closed spec fn no_duplicates(&self) -> bool {
        distinct_paths(self@)
    }

    pub fn new() -> (q: Self)
        ensures
            q@ == Seq::<Seq<char>>::empty(),
    {
        let q = JobQueue { jobs: VecDeque::new() };
        assert(q@ =~= Seq::<Seq<char>>::empty());
        q
    }

    fn contains(&self, path: &String) -> (r: bool)
        ensures
            r == queued(self@, path@),
    {
        let n = self.jobs.len();
        let mut i: usize = 0;
        assert(forall|k: int| 0 <= k < n ==> #[trigger] self@[k] == self.jobs@[k]@);
        while i < n
            invariant
                n == self.jobs@.len(),
                n == self@.len(),
                i <= n,
                forall|k: int| 0 <= k < n ==> #[trigger] self@[k] == self.jobs@[k]@,
                forall|k: int| 0 <= k < i ==> !#[trigger] paths_equal(self@[k], path@),
            decreases n - i,
        {
            if same_path(self.jobs[i].as_str(), path.as_str()) {
                assert(paths_equal(self@[i as int], path@));
                return true;
            }
            i = i + 1;
        }
        false
    }

    /// Queues `path` unless it is already queued; returns whether it was added.
    pub fn push(&mut self, path: String) -> (added: bool)
        ensures
            (final(self)@, added) == queue_push(old(self)@, path@),
            distinct_paths(final(self)@),
    {
        proof {
            use_type_invariant(&*self);
        }
        if self.contains(&path) {
            proof {
                use_type_invariant(&*self);
            }
            return false;
        }
        let ghost before = self@;
        let ghost p = path@;
        assert(distinct_paths(before));
        assert(!queued(before, p));
        let mut jobs: VecDeque<String> = VecDeque::new();
        std::mem::swap(&mut jobs, &mut self.jobs);
        jobs.push_back(path);
        assert(jobs@.map_values(|s: String| s@) =~= before.push(p));
        assert(distinct_paths(before.push(p))) by {
            assert forall|a: int, b: int| 0 <= a < b < before.push(p).len() implies !#[trigger] paths_equal(
                before.push(p)[a],
                before.push(p)[b],
            ) by {
                assert(before.push(p)[a] == before[a]);
                if b < before.len() {
                    assert(before.push(p)[b] == before[b]);
                }
            }
        }
        self.jobs = jobs;
        assert(self@ =~= before.push(p));
        proof {
            use_type_invariant(&*self);
        }
        true
    }

    /// Takes the oldest queued path.
    pub fn pop(&mut self) -> (job: Option<String>)
        ensures
            (final(self)@, match job {
                Some(j) => Some(j@),
                None => None::<Seq<char>>,
            }) == queue_pop(old(self)@),
            distinct_paths(final(self)@),
    {
        proof {
            use_type_invariant(&*self);
        }
        let ghost before = self@;
        let mut jobs: VecDeque<String> = VecDeque::new();
        std::mem::swap(&mut jobs, &mut self.jobs);
        let job = jobs.pop_front();
        assert(jobs@.map_values(|s: String| s@) =~= if job is Some {
            before.drop_first()
        } else {
            before
        });
        self.jobs = jobs;
        assert(job is Some ==> self@ =~= before.drop_first());
        proof {
            use_type_invariant(&*self);
        }
        job
    }

    pub fn len(&self) -> (n: usize)
        ensures
            n == self@.len(),
    {
        self.jobs.len()
    }

    pub fn is_empty(&self) -> (r: bool)
        ensures
            r == (self@.len() == 0),
    {
        self.jobs.len() == 0
    }
}

/// Queuing a path that is already queued changes nothing: pushing twice is
/// pushing once.
pub proof fn law_push_idempotent(q: Seq<Seq<char>>, path: Seq<char>)
    ensures
        queue_push(queue_push(q, path).0, path).0 == queue_push(q, path).0,
        !queue_push(queue_push(q, path).0, path).1,
{
    if !queued(q, path) {
        assert(paths_equal(q.push(path)[q.len() as int], path));
    }
}

/// A queue that holds no path twice keeps that property under push and pop.
pub proof fn law_distinct_preserved(q: Seq<Seq<char>>, path: Seq<char>)
    requires
        distinct_paths(q),
    ensures
        distinct_paths(queue_push(q, path).0),
        distinct_paths(queue_pop(q).0),
{
    if !queued(q, path) {
        let r = q.push(path);
        assert forall|a: int, b: int| 0 <= a < b < r.len() implies !#[trigger] paths_equal(r[a], r[b]) by {
            assert(r[a] == q[a]);
            if b < q.len() {
                assert(r[b] == q[b]);
            }
        }
    }
    if q.len() > 0 {
        let r = q.drop_first();
        assert forall|a: int, b: int| 0 <= a < b < r.len() implies !#[trigger] paths_equal(r[a], r[b]) by {
            assert(r[a] == q[a + 1] && r[b] == q[b + 1]);
        }
    }
}

/// First in, first out: on a non-empty queue, a push does not change which
/// path the next pop returns; on an empty queue, the pushed path comes out.
pub proof fn law_fifo(q: Seq<Seq<char>>, path: Seq<char>)
    ensures
        q.len() > 0 ==> queue_pop(queue_push(q, path).0).1 == queue_pop(q).1,
        q.len() > 0 ==> queue_pop(queue_push(q, path).0).0 == queue_push(queue_pop(q).0, path).0
            || paths_equal(q[0], path),
        q.len() == 0 ==> queue_pop(queue_push(q, path).0) == (q, Some(path)),
{
    if q.len() > 0 && !queued(q, path) {
        assert(q.push(path).drop_first() =~= q.drop_first().push(path));
        if queued(q.drop_first(), path) {
            let k = choose|k: int| 0 <= k < q.drop_first().len() && #[trigger] paths_equal(q.drop_first()[k], path);
            assert(paths_equal(q[k + 1], path));
        }
    }
    if q.len() > 0 && queued(q, path) && !paths_equal(q[0], path) {
        let k = choose|k: int| 0 <= k < q.len() && #[trigger] paths_equal(q[k], path);
        assert(paths_equal(q.drop_first()[k - 1], path));
    }
    if q.len() == 0 {
        assert(q.push(path).drop_first() =~= q);
    }
}

/// Two different paths pushed in turn onto an empty queue are both
/// accepted, and leave it in the order they came: first, then second, and
/// the queue is empty again.
pub proof fn law_two_paths_in_order(first: Seq<char>, second: Seq<char>)
    requires
        !paths_equal(first, second),
    ensures
        queue_push(Seq::empty(), first) == (seq![first], true),
        queue_push(seq![first], second) == (seq![first, second], true),
        queue_pop(seq![first, second]) == (seq![second], Some(first)),
        queue_pop(seq![second]) == (Seq::<Seq<char>>::empty(), Some(second)),
{
    let e = Seq::<Seq<char>>::empty();
    assert(!queued(e, first));
    assert(e.push(first) =~= seq![first]);
    assert(!queued(seq![first], second)) by {
        if queued(seq![first], second) {
            let k = choose|k: int| 0 <= k < 1 && #[trigger] paths_equal(seq![first][k], second);
            assert(seq![first][k] == first);
        }
    }
    assert(seq![first].push(second) =~= seq![first, second]);
    assert(seq![first, second].drop_first() =~= seq![second]);
    assert(seq![second].drop_first() =~= e);
}

} // verus!
