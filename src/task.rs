use vstd::prelude::*;

use smallvec::SmallVec;

verus! {

/// Bound on the number of fetch tasks. `SmallVec::push` panics with "capacity overflow"
/// when the next power of two above the length, times the size of a `String`, passes
/// `isize::MAX` bytes; below this bound it cannot.
pub const MAX_TASKS: usize = usize::MAX / 128;

/// Fetch task URLs in a `SmallVec` that keeps up to eight of them inline.
#[verifier::external_body]
pub struct TaskVec {
    inner: SmallVec<[String; 8]>,
}

/// The URLs a `TaskVec` holds, in order.
pub uninterp spec fn tasks_of(v: TaskVec) -> Seq<Seq<char>>;

impl TaskVec {
    /// Relies on `SmallVec::new`: a new vector holds nothing.
    #[verifier::external_body]
    fn new() -> (r: Self)
        ensures
            tasks_of(r) == Seq::<Seq<char>>::empty(),
    {
        TaskVec { inner: SmallVec::new() }
    }

    /// Relies on `<[String]>::contains`, reached through `SmallVec`'s `Deref` to a slice:
    /// whether an equal string is held.
    #[verifier::external_body]
    fn contains(&self, task: &String) -> (r: bool)
        ensures
            r == tasks_of(*self).contains(task@),
    {
        self.inner.contains(task)
    }

    /// Relies on `SmallVec::push`: the string is appended after the others; it only panics
    /// on a capacity overflow, which `MAX_TASKS` rules out.
    #[verifier::external_body]
    fn push(&mut self, task: String)
        requires
            tasks_of(*old(self)).len() < MAX_TASKS,
        ensures
            tasks_of(*final(self)) == tasks_of(*old(self)).push(task@),
    {
        self.inner.push(task)
    }

    /// Relies on `SmallVec::into_vec`: the same strings, in the same order.
    #[verifier::external_body]
    fn into_vec(self) -> (r: Vec<String>)
        ensures
            r@.map_values(|t: String| t@) == tasks_of(self),
    {
        self.inner.into_vec()
    }
}

/// `s` with `t` appended unless it is already there.
pub open spec fn with_task(s: Seq<Seq<char>>, t: Seq<char>) -> Seq<Seq<char>> {
    if s.contains(t) {
        s
    } else {
        s.push(t)
    }
}

/// `s` with each of `ts` added in turn by `with_task`.
pub open spec fn with_tasks(s: Seq<Seq<char>>, ts: Seq<Seq<char>>) -> Seq<Seq<char>>
    decreases ts.len(),
{
    if ts.len() == 0 {
        s
    } else {
        with_task(with_tasks(s, ts.drop_last()), ts.last())
    }
}

/// Adding tasks one by one never makes the list longer by more than their number.
proof fn lemma_with_tasks_len(s: Seq<Seq<char>>, ts: Seq<Seq<char>>)
    ensures
        with_tasks(s, ts).len() <= s.len() + ts.len(),
    decreases ts.len(),
{
    if ts.len() > 0 {
        lemma_with_tasks_len(s, ts.drop_last());
    }
}

/// A collection of resource URLs to fetch, without repeats, in order of first insertion.
pub struct FetchTaskCollection {
    tasks: TaskVec,
}

impl FetchTaskCollection {
    /// The URLs held, in order of first insertion.
    pub closed spec fn view(&self) -> Seq<Seq<char>> {
        tasks_of(self.tasks)
    }

    /// An empty collection.
    pub fn new() -> (r: Self)
        ensures
            r.view() == Seq::<Seq<char>>::empty(),
    {
        FetchTaskCollection { tasks: TaskVec::new() }
    }

    /// Adds a URL unless the collection already holds it.
    pub fn insert(&mut self, task: String)
        requires
            old(self).view().len() < MAX_TASKS,
        ensures
            final(self).view() == with_task(old(self).view(), task@),
    {
        if !self.tasks.contains(&task) {
            self.tasks.push(task);
        }
    }

    /// Adds each URL of `tasks` in turn, skipping those already held.
    pub fn insert_many(&mut self, tasks: Vec<String>)
        requires
            old(self).view().len() + tasks@.len() < MAX_TASKS,
        ensures
            final(self).view() == with_tasks(old(self).view(), tasks@.map_values(|t: String| t@)),
    {
        let ghost all = tasks@.map_values(|t: String| t@);
        let mut i: usize = 0;
        while i < tasks.len()
            invariant
                i <= tasks@.len(),
                all == tasks@.map_values(|t: String| t@),
                self.view() == with_tasks(old(self).view(), all.take(i as int)),
                old(self).view().len() + tasks@.len() < MAX_TASKS,
            decreases tasks@.len() - i,
        {
            proof {
                lemma_with_tasks_len(old(self).view(), all.take(i as int));
            }
            let t = tasks[i].clone();
            self.insert(t);
            proof {
                assert(all.take(i + 1).drop_last() =~= all.take(i as int));
            }
            i = i + 1;
        }
        proof {
            assert(all.take(tasks@.len() as int) =~= all);
        }
    }

    /// Consumes the collection and returns the URLs.
    pub fn into_inner(self) -> (r: Vec<String>)
        ensures
            r@.map_values(|t: String| t@) == self.view(),
    {
        self.tasks.into_vec()
    }
}

} // verus!
