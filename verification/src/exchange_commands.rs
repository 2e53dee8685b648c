//! The two phases of tool exchanges as runs and delegated tasks ask for them.

use std::sync::Arc;
use vstd::prelude::*;

use crate::conversation::RecordedMessage;
use crate::engine::StorageEngine;
use crate::error::{outcome_of, StorageResult};
use crate::recovery::CommittedBatch;
use crate::tool_exchange::{
    exchange_begun, exchange_completed, execution_started, CompletedExchange, ExecutionStart,
    NewExchange, PendingTable, PendingTarget, ReadyExchange,
};

verus! {

/// The calls that a run is about to carry out.
#[derive(Debug)]
pub struct PendingToolExchange {
    pub receipt_id: String,
    pub session_id: String,
    pub run_id: String,
    pub assistant: Arc<RecordedMessage>,
    pub step: Option<u32>,
    pub created_at_ms: i64,
}

/// The calls that a delegated task is about to carry out.
#[derive(Debug)]
pub struct PendingChildToolExchange {
    pub receipt_id: String,
    pub session_id: String,
    pub child_task_id: String,
    pub assistant: Arc<RecordedMessage>,
    pub step: Option<u32>,
    pub created_at_ms: i64,
}

/// The start of a call of a run.
#[derive(Debug)]
pub struct ToolExecutionStart {
    pub receipt_id: String,
    pub session_id: String,
    pub run_id: String,
    pub call_id: String,
    pub started_at_ms: i64,
}

/// The start of a call of a delegated task.
#[derive(Debug)]
pub struct ChildToolExecutionStart {
    pub receipt_id: String,
    pub session_id: String,
    pub child_task_id: String,
    pub call_id: String,
    pub started_at_ms: i64,
}

/// The results of a run's exchange.
#[derive(Debug)]
pub struct CompletedToolExchange {
    pub operation_id: String,
    pub receipt_id: String,
    pub session_id: String,
    pub run_id: String,
    pub ready: Arc<ReadyExchange>,
    pub step: Option<u32>,
    pub completed_at_ms: i64,
}

/// The results of a delegated task's exchange.
#[derive(Debug)]
pub struct CompletedChildToolExchange {
    pub operation_id: String,
    pub receipt_id: String,
    pub session_id: String,
    pub child_task_id: String,
    pub ready: Arc<ReadyExchange>,
    pub step: Option<u32>,
    pub completed_at_ms: i64,
}

impl PendingToolExchange {
    pub open spec fn exchange(self) -> NewExchange {
        NewExchange {
            receipt_id: self.receipt_id,
            target: PendingTarget::Run { session_id: self.session_id, run_id: self.run_id },
            assistant: self.assistant,
            step: self.step,
            created_at_ms: self.created_at_ms,
        }
    }
}

impl PendingChildToolExchange {
    pub open spec fn exchange(self) -> NewExchange {
        NewExchange {
            receipt_id: self.receipt_id,
            target: PendingTarget::ChildTask {
                session_id: self.session_id,
                child_task_id: self.child_task_id,
            },
            assistant: self.assistant,
            step: self.step,
            created_at_ms: self.created_at_ms,
        }
    }
}

impl ToolExecutionStart {
    pub open spec fn start(self) -> ExecutionStart {
        ExecutionStart {
            receipt_id: self.receipt_id,
            target: PendingTarget::Run { session_id: self.session_id, run_id: self.run_id },
            call_id: self.call_id,
            started_at_ms: self.started_at_ms,
        }
    }
}

impl ChildToolExecutionStart {
    pub open spec fn start(self) -> ExecutionStart {
        ExecutionStart {
            receipt_id: self.receipt_id,
            target: PendingTarget::ChildTask {
                session_id: self.session_id,
                child_task_id: self.child_task_id,
            },
            call_id: self.call_id,
            started_at_ms: self.started_at_ms,
        }
    }
}

impl CompletedToolExchange {
    pub open spec fn completion(self) -> CompletedExchange {
        CompletedExchange {
            operation_id: self.operation_id,
            receipt_id: self.receipt_id,
            target: PendingTarget::Run { session_id: self.session_id, run_id: self.run_id },
            ready: self.ready,
            step: self.step,
            completed_at_ms: self.completed_at_ms,
        }
    }
}

impl CompletedChildToolExchange {
    pub open spec fn completion(self) -> CompletedExchange {
        CompletedExchange {
            operation_id: self.operation_id,
            receipt_id: self.receipt_id,
            target: PendingTarget::ChildTask {
                session_id: self.session_id,
                child_task_id: self.child_task_id,
            },
            ready: self.ready,
            step: self.step,
            completed_at_ms: self.completed_at_ms,
        }
    }
}

impl StorageEngine {
    /// Records the calls of a run before any of them is carried out.
    pub fn begin_tool_exchange(&mut self, pending: PendingToolExchange) -> (result: StorageResult<
        (),
    >)
        ensures
            exchange_begun(*old(self), *final(self), pending.exchange(), outcome_of(result)),
    {
        self.begin_exchange(
            NewExchange {
                receipt_id: pending.receipt_id,
                target: PendingTarget::Run {
                    session_id: pending.session_id,
                    run_id: pending.run_id,
                },
                assistant: pending.assistant,
                step: pending.step,
                created_at_ms: pending.created_at_ms,
            },
        )
    }

    /// Records the calls of a delegated task before any of them is carried out.
    pub fn begin_child_tool_exchange(&mut self, pending: PendingChildToolExchange) -> (result:
        StorageResult<()>)
        ensures
            exchange_begun(*old(self), *final(self), pending.exchange(), outcome_of(result)),
    {
        self.begin_exchange(
            NewExchange {
                receipt_id: pending.receipt_id,
                target: PendingTarget::ChildTask {
                    session_id: pending.session_id,
                    child_task_id: pending.child_task_id,
                },
                assistant: pending.assistant,
                step: pending.step,
                created_at_ms: pending.created_at_ms,
            },
        )
    }

    /// Records that a call of a run is about to have an effect.
    pub fn mark_tool_execution_started(&mut self, start: ToolExecutionStart) -> (result:
        StorageResult<()>)
        ensures
            execution_started(
                *old(self),
                *final(self),
                start.start(),
                PendingTable::Run,
                outcome_of(result),
            ),
    {
        self.mark_execution_started(
            ExecutionStart {
                receipt_id: start.receipt_id,
                target: PendingTarget::Run { session_id: start.session_id, run_id: start.run_id },
                call_id: start.call_id,
                started_at_ms: start.started_at_ms,
            },
            PendingTable::Run,
        )
    }

    /// Records that a call of a delegated task is about to have an effect.
    pub fn mark_child_tool_execution_started(&mut self, start: ChildToolExecutionStart) -> (result:
        StorageResult<()>)
        ensures
            execution_started(
                *old(self),
                *final(self),
                start.start(),
                PendingTable::ChildTask,
                outcome_of(result),
            ),
    {
        self.mark_execution_started(
            ExecutionStart {
                receipt_id: start.receipt_id,
                target: PendingTarget::ChildTask {
                    session_id: start.session_id,
                    child_task_id: start.child_task_id,
                },
                call_id: start.call_id,
                started_at_ms: start.started_at_ms,
            },
            PendingTable::ChildTask,
        )
    }

    /// Completes an exchange of a run with its results.
    pub fn complete_tool_exchange(&mut self, completed: CompletedToolExchange) -> (result:
        StorageResult<CommittedBatch>)
        ensures
            exchange_completed(
                *old(self),
                *final(self),
                completed.completion(),
                PendingTable::Run,
                outcome_of(result),
            ),
    {
        self.complete_exchange(
            CompletedExchange {
                operation_id: completed.operation_id,
                receipt_id: completed.receipt_id,
                target: PendingTarget::Run {
                    session_id: completed.session_id,
                    run_id: completed.run_id,
                },
                ready: completed.ready,
                step: completed.step,
                completed_at_ms: completed.completed_at_ms,
            },
            PendingTable::Run,
        )
    }

    /// Completes an exchange of a delegated task with its results.
    pub fn complete_child_tool_exchange(&mut self, completed: CompletedChildToolExchange) -> (result:
        StorageResult<CommittedBatch>)
        ensures
            exchange_completed(
                *old(self),
                *final(self),
                completed.completion(),
                PendingTable::ChildTask,
                outcome_of(result),
            ),
    {
        self.complete_exchange(
            CompletedExchange {
                operation_id: completed.operation_id,
                receipt_id: completed.receipt_id,
                target: PendingTarget::ChildTask {
                    session_id: completed.session_id,
                    child_task_id: completed.child_task_id,
                },
                ready: completed.ready,
                step: completed.step,
                completed_at_ms: completed.completed_at_ms,
            },
            PendingTable::ChildTask,
        )
    }
}

} // verus!
