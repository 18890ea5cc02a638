use vstd::prelude::*;

verus! {

/// The process registry: the identifiers of the processes that a pipeline
/// started and has not yet waited for, in the order they were started.
pub struct Forker {
    child_pids: Vec<i32>,
}

impl View for Forker {
    type V = Seq<i32>;

    closed spec fn view(&self) -> Seq<i32> {
        self.child_pids@
    }
}

impl Forker {
    /// An empty registry.
    pub fn new() -> (r: Forker)
        ensures
            r@ == Seq::<i32>::empty(),
    {
        Forker { child_pids: Vec::new() }
    }

    /// Starts tracking the process `pid`.
    pub fn track(&mut self, pid: i32)
        ensures
            final(self)@ == old(self)@.push(pid),
    {
        self.child_pids.push(pid);
    }

    /// The number of processes in the registry.
    pub fn len(&self) -> (r: usize)
        ensures
            r == self@.len(),
    {
        self.child_pids.len()
    }

    /// Stops tracking one process and returns it; `None` when the registry is empty.
    pub fn take_next(&mut self) -> (r: Option<i32>)
        ensures
            old(self)@.len() == 0 ==> r is None && final(self)@ == old(self)@,
            old(self)@.len() > 0 ==> r == Some(old(self)@.last()) && final(self)@ == old(
                self,
            )@.drop_last(),
    {
        self.child_pids.pop()
    }

    /// Hands every registered process, one at a time, to `wait`, which blocks
    /// until that process has ended. Each process is handed over once, the
    /// most recently started first; afterwards the registry is empty.
    pub fn wait_all<F: Fn(i32)>(&mut self, wait: F)
        requires
            forall|pid: i32| wait.requires((pid,)),
        ensures
            final(self)@.len() == 0,
            forall|k: int| 0 <= k < old(self)@.len() ==> wait.ensures((old(self)@[k],), ()),
    {
        while self.child_pids.len() > 0
            invariant
                forall|pid: i32| wait.requires((pid,)),
                self@ == old(self)@.take(self@.len() as int),
                self@.len() <= old(self)@.len(),
                forall|k: int|
                    self@.len() <= k < old(self)@.len() ==> wait.ensures((old(self)@[k],), ()),
            decreases self.child_pids@.len(),
        {
            let pid = self.child_pids.pop().unwrap();
            wait(pid);
        }
    }
}

} // verus!
