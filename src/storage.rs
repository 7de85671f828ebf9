//! The mailbox between a redraw loop and background I/O: tasks wait here
//! until a worker takes them, and finished reads wait until the next poll.
use crate::profile::FormatError;
use vstd::prelude::*;

verus! {

/// A unit of background work.
#[derive(Debug, PartialEq, Eq)]
pub enum IoTask {
    /// Let the user pick a save file and read it.
    Open,
    /// Let the user pick a destination and write these bytes there.
    Save(Vec<u8>),
    /// Tell the user that a loaded file was rejected.
    Notify(FormatError),
}

pub struct Storage {
    inbox: Vec<Vec<u8>>,
    tasks: Vec<IoTask>,
}

/// Mathematical model of a `Storage`.
pub struct StorageModel {
    /// Results delivered by finished tasks, oldest first.
    pub inbox: Seq<Vec<u8>>,
    /// Dispatched tasks that no worker has taken yet, oldest first.
    pub tasks: Seq<IoTask>,
}

impl View for Storage {
    type V = StorageModel;

    closed spec fn view(&self) -> StorageModel {
        StorageModel { inbox: self.inbox@, tasks: self.tasks@ }
    }
}

/// The state after a finished task delivers `data`.
pub open spec fn delivered(s: StorageModel, data: Vec<u8>) -> StorageModel {
    StorageModel { inbox: s.inbox.push(data), ..s }
}

/// The newest delivered result, if any; older ones are dropped.
pub open spec fn latest(s: StorageModel) -> Option<Vec<u8>> {
    if s.inbox.len() == 0 {
        None
    } else {
        Some(s.inbox.last())
    }
}

/// The state after a poll has drained the inbox.
pub open spec fn drained(s: StorageModel) -> StorageModel {
    StorageModel { inbox: Seq::empty(), ..s }
}

/// The state after `task` is dispatched.
pub open spec fn dispatched(s: StorageModel, task: IoTask) -> StorageModel {
    StorageModel { tasks: s.tasks.push(task), ..s }
}

/// Of two results delivered one after the other, whichever task finished
/// first, a poll returns only the one delivered last and keeps neither.
pub proof fn lemma_last_write_wins(s: StorageModel, first: Vec<u8>, second: Vec<u8>)
    ensures
        latest(delivered(delivered(s, first), second)) == Some(second),
        drained(delivered(delivered(s, first), second)).inbox.len() == 0,
{
}

fn copy_bytes(data: &[u8]) -> (r: Vec<u8>)
    ensures
        r@ == data@,
{
    let mut r: Vec<u8> = Vec::with_capacity(data.len());
    let mut i: usize = 0;
    while i < data.len()
        invariant
            i <= data@.len(),
            r@ =~= data@.subrange(0, i as int),
        decreases data@.len() - i,
    {
        r.push(data[i]);
        i = i + 1;
    }
    r
}

impl Default for Storage {
    fn default() -> (r: Storage)
        ensures
            r@.inbox.len() == 0,
            r@.tasks.len() == 0,
    {
        Storage::new()
    }
}

impl Storage {
    pub fn new() -> (r: Storage)
        ensures
            r@.inbox.len() == 0,
            r@.tasks.len() == 0,
    {
        Storage { inbox: Vec::new(), tasks: Vec::new() }
    }

    /// Takes the newest delivered result and drops any older ones; returns
    /// `None` when nothing has arrived. Never waits.
    pub fn try_read_data(&mut self) -> (r: Option<Vec<u8>>)
        ensures
            r == latest(old(self)@),
            final(self)@ == drained(old(self)@),
    {
        let r = self.inbox.pop();
        self.inbox.clear();
        proof {
            assert(final(self)@.inbox =~= Seq::<Vec<u8>>::empty());
        }
        r
    }

    /// Hands in the bytes that a finished task read.
    pub fn deliver(&mut self, data: Vec<u8>)
        ensures
            final(self)@ == delivered(old(self)@, data),
    {
        self.inbox.push(data);
    }

    /// Hands in the bytes of a file dropped on the window, if there is one.
    pub fn drag_handle(&mut self, dropped: Option<Vec<u8>>)
        ensures
            final(self)@ == match dropped {
                Some(data) => delivered(old(self)@, data),
                None => old(self)@,
            },
    {
        if let Some(data) = dropped {
            self.deliver(data);
        }
    }

    /// Queues a task that lets the user pick a file and reads it.
    pub fn open_dialog(&mut self)
        ensures
            final(self)@ == dispatched(old(self)@, IoTask::Open),
    {
        self.tasks.push(IoTask::Open);
    }

    /// Queues a task that lets the user pick a destination and writes `data`.
    pub fn try_write_data(&mut self, data: &[u8])
        ensures
            final(self)@.inbox == old(self)@.inbox,
            final(self)@.tasks.len() == old(self)@.tasks.len() + 1,
            final(self)@.tasks.drop_last() == old(self)@.tasks,
            final(self)@.tasks.last() matches IoTask::Save(bytes) && bytes@ == data@,
    {
        let bytes = copy_bytes(data);
        self.tasks.push(IoTask::Save(bytes));
    }

    /// Queues a notice that a loaded file was rejected with `e`.
    pub fn notify(&mut self, e: FormatError)
        ensures
            final(self)@ == dispatched(old(self)@, IoTask::Notify(e)),
    {
        self.tasks.push(IoTask::Notify(e));
    }

    /// Hands the oldest waiting task to a worker.
    pub fn next_task(&mut self) -> (r: Option<IoTask>)
        ensures
            old(self)@.tasks.len() == 0 ==> r is None && final(self)@ == old(self)@,
            old(self)@.tasks.len() > 0 ==> r == Some(old(self)@.tasks[0]) && final(self)@
                == (StorageModel { tasks: old(self)@.tasks.drop_first(), ..old(self)@ }),
    {
        if self.tasks.len() == 0 {
            None
        } else {
            let t = self.tasks.remove(0);
            proof {
                assert(self@.tasks =~= old(self)@.tasks.drop_first());
            }
            Some(t)
        }
    }
}

} // verus!
