use vstd::prelude::*;
use crate::config::Config;
use crate::error::Error;

verus! {

/// The background loops that a running node has, each cancelled through its own flag.
#[derive(Debug, Clone, Copy, PartialEq, Eq, Structural)]
pub struct TaskSet {
    /// Refreshes the on-chain wallet.
    pub wallet_sync: bool,
    /// Feeds new chain data to the channel engine.
    pub chain_sync: bool,
    /// Accepts inbound connections on the listening address.
    pub listener: bool,
    /// Reconnects to the peers of open channels.
    pub reconnector: bool,
}

/// The loops that a start spawns: all of them, but the listener only where a listening
/// address is configured.
pub open spec fn tasks_for(listening: bool) -> TaskSet {
    TaskSet { wallet_sync: true, chain_sync: true, listener: listening, reconnector: true }
}

/// A call on the lifecycle of a node.
#[derive(Debug, Clone, Copy, PartialEq, Eq, Structural)]
pub enum LifecycleOp {
    Start,
    Stop,
}

/// What a call returns, given whether the node runs before it.
pub open spec fn op_outcome(running: bool, op: LifecycleOp) -> Result<(), Error> {
    match op {
        LifecycleOp::Start => if running {
            Err(Error::AlreadyRunning)
        } else {
            Ok(())
        },
        LifecycleOp::Stop => if running {
            Ok(())
        } else {
            Err(Error::NotRunning)
        },
    }
}

/// Whether the node runs after the calls, starting from a node that does not run: it runs
/// exactly when the last call was a start.
pub open spec fn running_after(ops: Seq<LifecycleOp>) -> bool {
    ops.len() > 0 && ops.last() == LifecycleOp::Start
}

/// The slot that holds the runtime of a node while it runs.
pub struct Lifecycle {
    runtime: Option<TaskSet>,
}

impl Lifecycle {
    /// Whether the node runs.
    pub closed spec fn is_running(&self) -> bool {
        self.runtime is Some
    }

    /// The loops of the installed runtime, if any; there are some exactly while the node
    /// runs.
    pub closed spec fn tasks(&self) -> Option<TaskSet> {
        self.runtime
    }

    /// A node that does not run.
    pub fn new() -> (r: Lifecycle)
        ensures
            !r.is_running(),
            r.tasks() is None,
    {
        Lifecycle { runtime: None }
    }

    /// Installs a runtime and returns the loops to spawn: all four, but the listener only
    /// where the configuration has a listening address. Fails with `AlreadyRunning`, and
    /// changes nothing, where a runtime is installed.
    pub fn start(&mut self, config: &Config) -> (r: Result<TaskSet, Error>)
        ensures
            match op_outcome(old(self).is_running(), LifecycleOp::Start) {
                Ok(()) => r == Ok::<TaskSet, Error>(tasks_for(config.listening_address is Some))
                    && final(self).tasks() == Some(tasks_for(config.listening_address is Some)),
                Err(e) => r == Err::<TaskSet, Error>(e) && *final(self) == *old(self),
            },
            final(self).is_running(),
    {
        if self.runtime.is_some() {
            return Err(Error::AlreadyRunning);
        }
        let tasks = TaskSet {
            wallet_sync: true,
            chain_sync: true,
            listener: config.listening_address.is_some(),
            reconnector: true,
        };
        self.runtime = Some(tasks);
        Ok(tasks)
    }

    /// Removes the runtime and returns the loops whose flags are to be signalled; it does
    /// not wait for them to end. Fails with `NotRunning` where no runtime is installed.
    pub fn stop(&mut self) -> (r: Result<TaskSet, Error>)
        ensures
            match op_outcome(old(self).is_running(), LifecycleOp::Stop) {
                Ok(()) => r == Ok::<TaskSet, Error>(old(self).tasks()->Some_0),
                Err(e) => r == Err::<TaskSet, Error>(e),
            },
            !final(self).is_running(),
            final(self).tasks() is None,
    {
        match self.runtime {
            Some(tasks) => {
                self.runtime = None;
                Ok(tasks)
            },
            None => Err(Error::NotRunning),
        }
    }

    /// Whether the node runs.
    pub fn running(&self) -> (r: bool)
        ensures
            r == self.is_running(),
    {
        self.runtime.is_some()
    }

    /// Succeeds where the node runs, and fails with `NotRunning` where it does not: the
    /// check that every operation needing the runtime makes first.
    pub fn require_running(&self) -> (r: Result<(), Error>)
        ensures
            self.is_running() ==> r is Ok,
            !self.is_running() ==> r == Err::<(), Error>(Error::NotRunning),
    {
        if self.runtime.is_some() {
            Ok(())
        } else {
            Err(Error::NotRunning)
        }
    }
}

/// Along any sequence of starts and stops on a node that does not run: a start fails with
/// `AlreadyRunning` exactly when the node runs, a stop fails with `NotRunning` exactly when
/// it does not, and so calls that alternate, beginning with a start, all succeed.
pub proof fn lemma_start_stop_sequence(ops: Seq<LifecycleOp>)
    ensures
        forall|i: int|
            0 <= i < ops.len() ==> {
                let running = running_after(#[trigger] ops.take(i));
                &&& (ops[i] == LifecycleOp::Start && running) ==> op_outcome(running, ops[i])
                    == Err::<(), Error>(Error::AlreadyRunning)
                &&& (ops[i] == LifecycleOp::Stop && !running) ==> op_outcome(running, ops[i])
                    == Err::<(), Error>(Error::NotRunning)
            },
        (forall|i: int|
            0 <= i < ops.len() ==> (#[trigger] ops[i] == LifecycleOp::Start) == (i % 2 == 0))
            ==> forall|i: int|
            0 <= i < ops.len() ==> op_outcome(running_after(#[trigger] ops.take(i)), ops[i])
                is Ok,
{
    if forall|i: int|
        0 <= i < ops.len() ==> (#[trigger] ops[i] == LifecycleOp::Start) == (i % 2 == 0) {
        assert forall|i: int| 0 <= i < ops.len() implies op_outcome(
            running_after(#[trigger] ops.take(i)),
            ops[i],
        ) is Ok by {
            if i > 0 {
                assert(ops.take(i).last() == ops[i - 1]);
                assert((ops[i - 1] == LifecycleOp::Start) == ((i - 1) % 2 == 0));
            }
            assert((ops[i] == LifecycleOp::Start) == (i % 2 == 0));
        }
    }
}

/// After one more call the node runs exactly when that call was a start, as `start` and
/// `stop` leave it, so `running_after` follows the slot along any sequence of calls.
pub proof fn lemma_op_step(op: LifecycleOp, ops: Seq<LifecycleOp>)
    ensures
        running_after(ops.push(op)) == (op == LifecycleOp::Start),
{
    assert(ops.push(op).last() == op);
}

} // verus!
