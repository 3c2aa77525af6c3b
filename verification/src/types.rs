//! Shared vocabulary: journal event kinds, task states and the task-graph records.

use vstd::prelude::*;
use crate::text::str_eq;
use vstd::string::*;
use crate::external::{sha256_digest, sha256_spec, hex_encode, hex_lower};

verus! {

/// Journal event kinds; the wire names stay stable across UI and daemon.
#[derive(Debug, Clone, Copy, PartialEq, Eq, Structural)]
pub enum JournalKind {
    RunCreated,
    GraphAccepted,
    TaskReady,
    WorktreeCreated,
    WorktreeBootstrapped,
    WorktreeRemoved,
    AgentSpawned,
    SessionCreated,
    SessionClosed,
    PromptStarted,
    SessionUpdate,
    PermissionRequested,
    PermissionResolved,
    GateStarted,
    GatePassed,
    GateFailed,
    ArtifactRecorded,
    MergeQueued,
    MergeCompleted,
    MergeRejected,
    TaskCancelled,
    ProcessCrashed,
    OrphanDetected,
    ProposalCreated,
    ProposalApproved,
    ProposalRejected,
    RulesInjected,
    MemoryInvalidated,
    ModelSwitchDenied,
    SessionForkedSummary,
}

impl JournalKind {
    /// The stable wire name of this value.
    pub open spec fn name(self) -> Seq<char> {
        match self {
            JournalKind::RunCreated => "run_created"@,
            JournalKind::GraphAccepted => "graph_accepted"@,
            JournalKind::TaskReady => "task_ready"@,
            JournalKind::WorktreeCreated => "worktree_created"@,
            JournalKind::WorktreeBootstrapped => "worktree_bootstrapped"@,
            JournalKind::WorktreeRemoved => "worktree_removed"@,
            JournalKind::AgentSpawned => "agent_spawned"@,
            JournalKind::SessionCreated => "session_created"@,
            JournalKind::SessionClosed => "session_closed"@,
            JournalKind::PromptStarted => "prompt_started"@,
            JournalKind::SessionUpdate => "session_update"@,
            JournalKind::PermissionRequested => "permission_requested"@,
            JournalKind::PermissionResolved => "permission_resolved"@,
            JournalKind::GateStarted => "gate_started"@,
            JournalKind::GatePassed => "gate_passed"@,
            JournalKind::GateFailed => "gate_failed"@,
            JournalKind::ArtifactRecorded => "artifact_recorded"@,
            JournalKind::MergeQueued => "merge_queued"@,
            JournalKind::MergeCompleted => "merge_completed"@,
            JournalKind::MergeRejected => "merge_rejected"@,
            JournalKind::TaskCancelled => "task_cancelled"@,
            JournalKind::ProcessCrashed => "process_crashed"@,
            JournalKind::OrphanDetected => "orphan_detected"@,
            JournalKind::ProposalCreated => "proposal_created"@,
            JournalKind::ProposalApproved => "proposal_approved"@,
            JournalKind::ProposalRejected => "proposal_rejected"@,
            JournalKind::RulesInjected => "rules_injected"@,
            JournalKind::MemoryInvalidated => "memory_invalidated"@,
            JournalKind::ModelSwitchDenied => "model_switch_denied"@,
            JournalKind::SessionForkedSummary => "session_forked_summary"@,
        }
    }

    /// The value whose wire name is `s`, if any.
    pub open spec fn from_name(s: Seq<char>) -> Option<Self> {
        if s == "run_created"@ {
            Some(JournalKind::RunCreated)
        } else if s == "graph_accepted"@ {
            Some(JournalKind::GraphAccepted)
        } else if s == "task_ready"@ {
            Some(JournalKind::TaskReady)
        } else if s == "worktree_created"@ {
            Some(JournalKind::WorktreeCreated)
        } else if s == "worktree_bootstrapped"@ {
            Some(JournalKind::WorktreeBootstrapped)
        } else if s == "worktree_removed"@ {
            Some(JournalKind::WorktreeRemoved)
        } else if s == "agent_spawned"@ {
            Some(JournalKind::AgentSpawned)
        } else if s == "session_created"@ {
            Some(JournalKind::SessionCreated)
        } else if s == "session_closed"@ {
            Some(JournalKind::SessionClosed)
        } else if s == "prompt_started"@ {
            Some(JournalKind::PromptStarted)
        } else if s == "session_update"@ {
            Some(JournalKind::SessionUpdate)
        } else if s == "permission_requested"@ {
            Some(JournalKind::PermissionRequested)
        } else if s == "permission_resolved"@ {
            Some(JournalKind::PermissionResolved)
        } else if s == "gate_started"@ {
            Some(JournalKind::GateStarted)
        } else if s == "gate_passed"@ {
            Some(JournalKind::GatePassed)
        } else if s == "gate_failed"@ {
            Some(JournalKind::GateFailed)
        } else if s == "artifact_recorded"@ {
            Some(JournalKind::ArtifactRecorded)
        } else if s == "merge_queued"@ {
            Some(JournalKind::MergeQueued)
        } else if s == "merge_completed"@ {
            Some(JournalKind::MergeCompleted)
        } else if s == "merge_rejected"@ {
            Some(JournalKind::MergeRejected)
        } else if s == "task_cancelled"@ {
            Some(JournalKind::TaskCancelled)
        } else if s == "process_crashed"@ {
            Some(JournalKind::ProcessCrashed)
        } else if s == "orphan_detected"@ {
            Some(JournalKind::OrphanDetected)
        } else if s == "proposal_created"@ {
            Some(JournalKind::ProposalCreated)
        } else if s == "proposal_approved"@ {
            Some(JournalKind::ProposalApproved)
        } else if s == "proposal_rejected"@ {
            Some(JournalKind::ProposalRejected)
        } else if s == "rules_injected"@ {
            Some(JournalKind::RulesInjected)
        } else if s == "memory_invalidated"@ {
            Some(JournalKind::MemoryInvalidated)
        } else if s == "model_switch_denied"@ {
            Some(JournalKind::ModelSwitchDenied)
        } else if s == "session_forked_summary"@ {
            Some(JournalKind::SessionForkedSummary)
        } else {
            None
        }
    }

    pub fn as_str(self) -> (s: &'static str)
        ensures
            s@ == self.name(),
    {
        match self {
            JournalKind::RunCreated => "run_created",
            JournalKind::GraphAccepted => "graph_accepted",
            JournalKind::TaskReady => "task_ready",
            JournalKind::WorktreeCreated => "worktree_created",
            JournalKind::WorktreeBootstrapped => "worktree_bootstrapped",
            JournalKind::WorktreeRemoved => "worktree_removed",
            JournalKind::AgentSpawned => "agent_spawned",
            JournalKind::SessionCreated => "session_created",
            JournalKind::SessionClosed => "session_closed",
            JournalKind::PromptStarted => "prompt_started",
            JournalKind::SessionUpdate => "session_update",
            JournalKind::PermissionRequested => "permission_requested",
            JournalKind::PermissionResolved => "permission_resolved",
            JournalKind::GateStarted => "gate_started",
            JournalKind::GatePassed => "gate_passed",
            JournalKind::GateFailed => "gate_failed",
            JournalKind::ArtifactRecorded => "artifact_recorded",
            JournalKind::MergeQueued => "merge_queued",
            JournalKind::MergeCompleted => "merge_completed",
            JournalKind::MergeRejected => "merge_rejected",
            JournalKind::TaskCancelled => "task_cancelled",
            JournalKind::ProcessCrashed => "process_crashed",
            JournalKind::OrphanDetected => "orphan_detected",
            JournalKind::ProposalCreated => "proposal_created",
            JournalKind::ProposalApproved => "proposal_approved",
            JournalKind::ProposalRejected => "proposal_rejected",
            JournalKind::RulesInjected => "rules_injected",
            JournalKind::MemoryInvalidated => "memory_invalidated",
            JournalKind::ModelSwitchDenied => "model_switch_denied",
            JournalKind::SessionForkedSummary => "session_forked_summary",
        }
    }

    pub fn parse(s: &str) -> (r: Option<Self>)
        ensures
            r == Self::from_name(s@),
    {
        if str_eq(s, "run_created") {
            return Some(JournalKind::RunCreated);
        }
        if str_eq(s, "graph_accepted") {
            return Some(JournalKind::GraphAccepted);
        }
        if str_eq(s, "task_ready") {
            return Some(JournalKind::TaskReady);
        }
        if str_eq(s, "worktree_created") {
            return Some(JournalKind::WorktreeCreated);
        }
        if str_eq(s, "worktree_bootstrapped") {
            return Some(JournalKind::WorktreeBootstrapped);
        }
        if str_eq(s, "worktree_removed") {
            return Some(JournalKind::WorktreeRemoved);
        }
        if str_eq(s, "agent_spawned") {
            return Some(JournalKind::AgentSpawned);
        }
        if str_eq(s, "session_created") {
            return Some(JournalKind::SessionCreated);
        }
        if str_eq(s, "session_closed") {
            return Some(JournalKind::SessionClosed);
        }
        if str_eq(s, "prompt_started") {
            return Some(JournalKind::PromptStarted);
        }
        if str_eq(s, "session_update") {
            return Some(JournalKind::SessionUpdate);
        }
        if str_eq(s, "permission_requested") {
            return Some(JournalKind::PermissionRequested);
        }
        if str_eq(s, "permission_resolved") {
            return Some(JournalKind::PermissionResolved);
        }
        if str_eq(s, "gate_started") {
            return Some(JournalKind::GateStarted);
        }
        if str_eq(s, "gate_passed") {
            return Some(JournalKind::GatePassed);
        }
        if str_eq(s, "gate_failed") {
            return Some(JournalKind::GateFailed);
        }
        if str_eq(s, "artifact_recorded") {
            return Some(JournalKind::ArtifactRecorded);
        }
        if str_eq(s, "merge_queued") {
            return Some(JournalKind::MergeQueued);
        }
        if str_eq(s, "merge_completed") {
            return Some(JournalKind::MergeCompleted);
        }
        if str_eq(s, "merge_rejected") {
            return Some(JournalKind::MergeRejected);
        }
        if str_eq(s, "task_cancelled") {
            return Some(JournalKind::TaskCancelled);
        }
        if str_eq(s, "process_crashed") {
            return Some(JournalKind::ProcessCrashed);
        }
        if str_eq(s, "orphan_detected") {
            return Some(JournalKind::OrphanDetected);
        }
        if str_eq(s, "proposal_created") {
            return Some(JournalKind::ProposalCreated);
        }
        if str_eq(s, "proposal_approved") {
            return Some(JournalKind::ProposalApproved);
        }
        if str_eq(s, "proposal_rejected") {
            return Some(JournalKind::ProposalRejected);
        }
        if str_eq(s, "rules_injected") {
            return Some(JournalKind::RulesInjected);
        }
        if str_eq(s, "memory_invalidated") {
            return Some(JournalKind::MemoryInvalidated);
        }
        if str_eq(s, "model_switch_denied") {
            return Some(JournalKind::ModelSwitchDenied);
        }
        if str_eq(s, "session_forked_summary") {
            return Some(JournalKind::SessionForkedSummary);
        }
        None
    }
}

/// Every wire name parses back to the value it names.
#[verifier::rlimit(50)]
pub proof fn lemma_journal_kind_round_trip(k: JournalKind)
    ensures
        JournalKind::from_name(k.name()) == Some(k),
{
    broadcast use vstd::string::group_string_axioms;

    match k {
        JournalKind::RunCreated => {
            reveal_strlit("run_created");
            assert("run_created"@.len() == 11);
        },
        JournalKind::GraphAccepted => {
            reveal_strlit("graph_accepted");
            assert("graph_accepted"@.len() == 14);
            reveal_strlit("run_created");
            assert("run_created"@.len() == 11);
        },
        JournalKind::TaskReady => {
            reveal_strlit("task_ready");
            assert("task_ready"@.len() == 10);
            reveal_strlit("run_created");
            assert("run_created"@.len() == 11);
            reveal_strlit("graph_accepted");
            assert("graph_accepted"@.len() == 14);
        },
        JournalKind::WorktreeCreated => {
            reveal_strlit("worktree_created");
            assert("worktree_created"@.len() == 16);
            reveal_strlit("run_created");
            assert("run_created"@.len() == 11);
            reveal_strlit("graph_accepted");
            assert("graph_accepted"@.len() == 14);
            reveal_strlit("task_ready");
            assert("task_ready"@.len() == 10);
        },
        JournalKind::WorktreeBootstrapped => {
            reveal_strlit("worktree_bootstrapped");
            assert("worktree_bootstrapped"@.len() == 21);
            reveal_strlit("run_created");
            assert("run_created"@.len() == 11);
            reveal_strlit("graph_accepted");
            assert("graph_accepted"@.len() == 14);
            reveal_strlit("task_ready");
            assert("task_ready"@.len() == 10);
            reveal_strlit("worktree_created");
            assert("worktree_created"@.len() == 16);
        },
        JournalKind::WorktreeRemoved => {
            reveal_strlit("worktree_removed");
            assert("worktree_removed"@.len() == 16);
            reveal_strlit("run_created");
            assert("run_created"@.len() == 11);
            reveal_strlit("graph_accepted");
            assert("graph_accepted"@.len() == 14);
            reveal_strlit("task_ready");
            assert("task_ready"@.len() == 10);
            reveal_strlit("worktree_created");
            assert("worktree_removed"@[9] == 'r' && "worktree_created"@[9] == 'c');
            reveal_strlit("worktree_bootstrapped");
            assert("worktree_bootstrapped"@.len() == 21);
        },
        JournalKind::AgentSpawned => {
            reveal_strlit("agent_spawned");
            assert("agent_spawned"@.len() == 13);
            reveal_strlit("run_created");
            assert("run_created"@.len() == 11);
            reveal_strlit("graph_accepted");
            assert("graph_accepted"@.len() == 14);
            reveal_strlit("task_ready");
            assert("task_ready"@.len() == 10);
            reveal_strlit("worktree_created");
            assert("worktree_created"@.len() == 16);
            reveal_strlit("worktree_bootstrapped");
            assert("worktree_bootstrapped"@.len() == 21);
            reveal_strlit("worktree_removed");
            assert("worktree_removed"@.len() == 16);
        },
        JournalKind::SessionCreated => {
            reveal_strlit("session_created");
            assert("session_created"@.len() == 15);
            reveal_strlit("run_created");
            assert("run_created"@.len() == 11);
            reveal_strlit("graph_accepted");
            assert("graph_accepted"@.len() == 14);
            reveal_strlit("task_ready");
            assert("task_ready"@.len() == 10);
            reveal_strlit("worktree_created");
            assert("worktree_created"@.len() == 16);
            reveal_strlit("worktree_bootstrapped");
            assert("worktree_bootstrapped"@.len() == 21);
            reveal_strlit("worktree_removed");
            assert("worktree_removed"@.len() == 16);
            reveal_strlit("agent_spawned");
            assert("agent_spawned"@.len() == 13);
        },
        JournalKind::SessionClosed => {
            reveal_strlit("session_closed");
            assert("session_closed"@.len() == 14);
            reveal_strlit("run_created");
            assert("run_created"@.len() == 11);
            reveal_strlit("graph_accepted");
            assert("session_closed"@[0] == 's' && "graph_accepted"@[0] == 'g');
            reveal_strlit("task_ready");
            assert("task_ready"@.len() == 10);
            reveal_strlit("worktree_created");
            assert("worktree_created"@.len() == 16);
            reveal_strlit("worktree_bootstrapped");
            assert("worktree_bootstrapped"@.len() == 21);
            reveal_strlit("worktree_removed");
            assert("worktree_removed"@.len() == 16);
            reveal_strlit("agent_spawned");
            assert("agent_spawned"@.len() == 13);
            reveal_strlit("session_created");
            assert("session_created"@.len() == 15);
        },
        JournalKind::PromptStarted => {
            reveal_strlit("prompt_started");
            assert("prompt_started"@.len() == 14);
            reveal_strlit("run_created");
            assert("run_created"@.len() == 11);
            reveal_strlit("graph_accepted");
            assert("prompt_started"@[0] == 'p' && "graph_accepted"@[0] == 'g');
            reveal_strlit("task_ready");
            assert("task_ready"@.len() == 10);
            reveal_strlit("worktree_created");
            assert("worktree_created"@.len() == 16);
            reveal_strlit("worktree_bootstrapped");
            assert("worktree_bootstrapped"@.len() == 21);
            reveal_strlit("worktree_removed");
            assert("worktree_removed"@.len() == 16);
            reveal_strlit("agent_spawned");
            assert("agent_spawned"@.len() == 13);
            reveal_strlit("session_created");
            assert("session_created"@.len() == 15);
            reveal_strlit("session_closed");
            assert("prompt_started"@[0] == 'p' && "session_closed"@[0] == 's');
        },
        JournalKind::SessionUpdate => {
            reveal_strlit("session_update");
            assert("session_update"@.len() == 14);
            reveal_strlit("run_created");
            assert("run_created"@.len() == 11);
            reveal_strlit("graph_accepted");
            assert("session_update"@[0] == 's' && "graph_accepted"@[0] == 'g');
            reveal_strlit("task_ready");
            assert("task_ready"@.len() == 10);
            reveal_strlit("worktree_created");
            assert("worktree_created"@.len() == 16);
            reveal_strlit("worktree_bootstrapped");
            assert("worktree_bootstrapped"@.len() == 21);
            reveal_strlit("worktree_removed");
            assert("worktree_removed"@.len() == 16);
            reveal_strlit("agent_spawned");
            assert("agent_spawned"@.len() == 13);
            reveal_strlit("session_created");
            assert("session_created"@.len() == 15);
            reveal_strlit("session_closed");
            assert("session_update"@[8] == 'u' && "session_closed"@[8] == 'c');
            reveal_strlit("prompt_started");
            assert("session_update"@[0] == 's' && "prompt_started"@[0] == 'p');
        },
        JournalKind::PermissionRequested => {
            reveal_strlit("permission_requested");
            assert("permission_requested"@.len() == 20);
            reveal_strlit("run_created");
            assert("run_created"@.len() == 11);
            reveal_strlit("graph_accepted");
            assert("graph_accepted"@.len() == 14);
            reveal_strlit("task_ready");
            assert("task_ready"@.len() == 10);
            reveal_strlit("worktree_created");
            assert("worktree_created"@.len() == 16);
            reveal_strlit("worktree_bootstrapped");
            assert("worktree_bootstrapped"@.len() == 21);
            reveal_strlit("worktree_removed");
            assert("worktree_removed"@.len() == 16);
            reveal_strlit("agent_spawned");
            assert("agent_spawned"@.len() == 13);
            reveal_strlit("session_created");
            assert("session_created"@.len() == 15);
            reveal_strlit("session_closed");
            assert("session_closed"@.len() == 14);
            reveal_strlit("prompt_started");
            assert("prompt_started"@.len() == 14);
            reveal_strlit("session_update");
            assert("session_update"@.len() == 14);
        },
        JournalKind::PermissionResolved => {
            reveal_strlit("permission_resolved");
            assert("permission_resolved"@.len() == 19);
            reveal_strlit("run_created");
            assert("run_created"@.len() == 11);
            reveal_strlit("graph_accepted");
            assert("graph_accepted"@.len() == 14);
            reveal_strlit("task_ready");
            assert("task_ready"@.len() == 10);
            reveal_strlit("worktree_created");
            assert("worktree_created"@.len() == 16);
            reveal_strlit("worktree_bootstrapped");
            assert("worktree_bootstrapped"@.len() == 21);
            reveal_strlit("worktree_removed");
            assert("worktree_removed"@.len() == 16);
            reveal_strlit("agent_spawned");
            assert("agent_spawned"@.len() == 13);
            reveal_strlit("session_created");
            assert("session_created"@.len() == 15);
            reveal_strlit("session_closed");
            assert("session_closed"@.len() == 14);
            reveal_strlit("prompt_started");
            assert("prompt_started"@.len() == 14);
            reveal_strlit("session_update");
            assert("session_update"@.len() == 14);
            reveal_strlit("permission_requested");
            assert("permission_requested"@.len() == 20);
        },
        JournalKind::GateStarted => {
            reveal_strlit("gate_started");
            assert("gate_started"@.len() == 12);
            reveal_strlit("run_created");
            assert("run_created"@.len() == 11);
            reveal_strlit("graph_accepted");
            assert("graph_accepted"@.len() == 14);
            reveal_strlit("task_ready");
            assert("task_ready"@.len() == 10);
            reveal_strlit("worktree_created");
            assert("worktree_created"@.len() == 16);
            reveal_strlit("worktree_bootstrapped");
            assert("worktree_bootstrapped"@.len() == 21);
            reveal_strlit("worktree_removed");
            assert("worktree_removed"@.len() == 16);
            reveal_strlit("agent_spawned");
            assert("agent_spawned"@.len() == 13);
            reveal_strlit("session_created");
            assert("session_created"@.len() == 15);
            reveal_strlit("session_closed");
            assert("session_closed"@.len() == 14);
            reveal_strlit("prompt_started");
            assert("prompt_started"@.len() == 14);
            reveal_strlit("session_update");
            assert("session_update"@.len() == 14);
            reveal_strlit("permission_requested");
            assert("permission_requested"@.len() == 20);
            reveal_strlit("permission_resolved");
            assert("permission_resolved"@.len() == 19);
        },
        JournalKind::GatePassed => {
            reveal_strlit("gate_passed");
            assert("gate_passed"@.len() == 11);
            reveal_strlit("run_created");
            assert("gate_passed"@[0] == 'g' && "run_created"@[0] == 'r');
            reveal_strlit("graph_accepted");
            assert("graph_accepted"@.len() == 14);
            reveal_strlit("task_ready");
            assert("task_ready"@.len() == 10);
            reveal_strlit("worktree_created");
            assert("worktree_created"@.len() == 16);
            reveal_strlit("worktree_bootstrapped");
            assert("worktree_bootstrapped"@.len() == 21);
            reveal_strlit("worktree_removed");
            assert("worktree_removed"@.len() == 16);
            reveal_strlit("agent_spawned");
            assert("agent_spawned"@.len() == 13);
            reveal_strlit("session_created");
            assert("session_created"@.len() == 15);
            reveal_strlit("session_closed");
            assert("session_closed"@.len() == 14);
            reveal_strlit("prompt_started");
            assert("prompt_started"@.len() == 14);
            reveal_strlit("session_update");
            assert("session_update"@.len() == 14);
            reveal_strlit("permission_requested");
            assert("permission_requested"@.len() == 20);
            reveal_strlit("permission_resolved");
            assert("permission_resolved"@.len() == 19);
            reveal_strlit("gate_started");
            assert("gate_started"@.len() == 12);
        },
        JournalKind::GateFailed => {
            reveal_strlit("gate_failed");
            assert("gate_failed"@.len() == 11);
            reveal_strlit("run_created");
            assert("gate_failed"@[0] == 'g' && "run_created"@[0] == 'r');
            reveal_strlit("graph_accepted");
            assert("graph_accepted"@.len() == 14);
            reveal_strlit("task_ready");
            assert("task_ready"@.len() == 10);
            reveal_strlit("worktree_created");
            assert("worktree_created"@.len() == 16);
            reveal_strlit("worktree_bootstrapped");
            assert("worktree_bootstrapped"@.len() == 21);
            reveal_strlit("worktree_removed");
            assert("worktree_removed"@.len() == 16);
            reveal_strlit("agent_spawned");
            assert("agent_spawned"@.len() == 13);
            reveal_strlit("session_created");
            assert("session_created"@.len() == 15);
            reveal_strlit("session_closed");
            assert("session_closed"@.len() == 14);
            reveal_strlit("prompt_started");
            assert("prompt_started"@.len() == 14);
            reveal_strlit("session_update");
            assert("session_update"@.len() == 14);
            reveal_strlit("permission_requested");
            assert("permission_requested"@.len() == 20);
            reveal_strlit("permission_resolved");
            assert("permission_resolved"@.len() == 19);
            reveal_strlit("gate_started");
            assert("gate_started"@.len() == 12);
            reveal_strlit("gate_passed");
            assert("gate_failed"@[5] == 'f' && "gate_passed"@[5] == 'p');
        },
        JournalKind::ArtifactRecorded => {
            reveal_strlit("artifact_recorded");
            assert("artifact_recorded"@.len() == 17);
            reveal_strlit("run_created");
            assert("run_created"@.len() == 11);
            reveal_strlit("graph_accepted");
            assert("graph_accepted"@.len() == 14);
            reveal_strlit("task_ready");
            assert("task_ready"@.len() == 10);
            reveal_strlit("worktree_created");
            assert("worktree_created"@.len() == 16);
            reveal_strlit("worktree_bootstrapped");
            assert("worktree_bootstrapped"@.len() == 21);
            reveal_strlit("worktree_removed");
            assert("worktree_removed"@.len() == 16);
            reveal_strlit("agent_spawned");
            assert("agent_spawned"@.len() == 13);
            reveal_strlit("session_created");
            assert("session_created"@.len() == 15);
            reveal_strlit("session_closed");
            assert("session_closed"@.len() == 14);
            reveal_strlit("prompt_started");
            assert("prompt_started"@.len() == 14);
            reveal_strlit("session_update");
            assert("session_update"@.len() == 14);
            reveal_strlit("permission_requested");
            assert("permission_requested"@.len() == 20);
            reveal_strlit("permission_resolved");
            assert("permission_resolved"@.len() == 19);
            reveal_strlit("gate_started");
            assert("gate_started"@.len() == 12);
            reveal_strlit("gate_passed");
            assert("gate_passed"@.len() == 11);
            reveal_strlit("gate_failed");
            assert("gate_failed"@.len() == 11);
        },
        JournalKind::MergeQueued => {
            reveal_strlit("merge_queued");
            assert("merge_queued"@.len() == 12);
            reveal_strlit("run_created");
            assert("run_created"@.len() == 11);
            reveal_strlit("graph_accepted");
            assert("graph_accepted"@.len() == 14);
            reveal_strlit("task_ready");
            assert("task_ready"@.len() == 10);
            reveal_strlit("worktree_created");
            assert("worktree_created"@.len() == 16);
            reveal_strlit("worktree_bootstrapped");
            assert("worktree_bootstrapped"@.len() == 21);
            reveal_strlit("worktree_removed");
            assert("worktree_removed"@.len() == 16);
            reveal_strlit("agent_spawned");
            assert("agent_spawned"@.len() == 13);
            reveal_strlit("session_created");
            assert("session_created"@.len() == 15);
            reveal_strlit("session_closed");
            assert("session_closed"@.len() == 14);
            reveal_strlit("prompt_started");
            assert("prompt_started"@.len() == 14);
            reveal_strlit("session_update");
            assert("session_update"@.len() == 14);
            reveal_strlit("permission_requested");
            assert("permission_requested"@.len() == 20);
            reveal_strlit("permission_resolved");
            assert("permission_resolved"@.len() == 19);
            reveal_strlit("gate_started");
            assert("merge_queued"@[0] == 'm' && "gate_started"@[0] == 'g');
            reveal_strlit("gate_passed");
            assert("gate_passed"@.len() == 11);
            reveal_strlit("gate_failed");
            assert("gate_failed"@.len() == 11);
            reveal_strlit("artifact_recorded");
            assert("artifact_recorded"@.len() == 17);
        },
        JournalKind::MergeCompleted => {
            reveal_strlit("merge_completed");
            assert("merge_completed"@.len() == 15);
            reveal_strlit("run_created");
            assert("run_created"@.len() == 11);
            reveal_strlit("graph_accepted");
            assert("graph_accepted"@.len() == 14);
            reveal_strlit("task_ready");
            assert("task_ready"@.len() == 10);
            reveal_strlit("worktree_created");
            assert("worktree_created"@.len() == 16);
            reveal_strlit("worktree_bootstrapped");
            assert("worktree_bootstrapped"@.len() == 21);
            reveal_strlit("worktree_removed");
            assert("worktree_removed"@.len() == 16);
            reveal_strlit("agent_spawned");
            assert("agent_spawned"@.len() == 13);
            reveal_strlit("session_created");
            assert("merge_completed"@[0] == 'm' && "session_created"@[0] == 's');
            reveal_strlit("session_closed");
            assert("session_closed"@.len() == 14);
            reveal_strlit("prompt_started");
            assert("prompt_started"@.len() == 14);
            reveal_strlit("session_update");
            assert("session_update"@.len() == 14);
            reveal_strlit("permission_requested");
            assert("permission_requested"@.len() == 20);
            reveal_strlit("permission_resolved");
            assert("permission_resolved"@.len() == 19);
            reveal_strlit("gate_started");
            assert("gate_started"@.len() == 12);
            reveal_strlit("gate_passed");
            assert("gate_passed"@.len() == 11);
            reveal_strlit("gate_failed");
            assert("gate_failed"@.len() == 11);
            reveal_strlit("artifact_recorded");
            assert("artifact_recorded"@.len() == 17);
            reveal_strlit("merge_queued");
            assert("merge_queued"@.len() == 12);
        },
        JournalKind::MergeRejected => {
            reveal_strlit("merge_rejected");
            assert("merge_rejected"@.len() == 14);
            reveal_strlit("run_created");
            assert("run_created"@.len() == 11);
            reveal_strlit("graph_accepted");
            assert("merge_rejected"@[0] == 'm' && "graph_accepted"@[0] == 'g');
            reveal_strlit("task_ready");
            assert("task_ready"@.len() == 10);
            reveal_strlit("worktree_created");
            assert("worktree_created"@.len() == 16);
            reveal_strlit("worktree_bootstrapped");
            assert("worktree_bootstrapped"@.len() == 21);
            reveal_strlit("worktree_removed");
            assert("worktree_removed"@.len() == 16);
            reveal_strlit("agent_spawned");
            assert("agent_spawned"@.len() == 13);
            reveal_strlit("session_created");
            assert("session_created"@.len() == 15);
            reveal_strlit("session_closed");
            assert("merge_rejected"@[0] == 'm' && "session_closed"@[0] == 's');
            reveal_strlit("prompt_started");
            assert("merge_rejected"@[0] == 'm' && "prompt_started"@[0] == 'p');
            reveal_strlit("session_update");
            assert("merge_rejected"@[0] == 'm' && "session_update"@[0] == 's');
            reveal_strlit("permission_requested");
            assert("permission_requested"@.len() == 20);
            reveal_strlit("permission_resolved");
            assert("permission_resolved"@.len() == 19);
            reveal_strlit("gate_started");
            assert("gate_started"@.len() == 12);
            reveal_strlit("gate_passed");
            assert("gate_passed"@.len() == 11);
            reveal_strlit("gate_failed");
            assert("gate_failed"@.len() == 11);
            reveal_strlit("artifact_recorded");
            assert("artifact_recorded"@.len() == 17);
            reveal_strlit("merge_queued");
            assert("merge_queued"@.len() == 12);
            reveal_strlit("merge_completed");
            assert("merge_completed"@.len() == 15);
        },
        JournalKind::TaskCancelled => {
            reveal_strlit("task_cancelled");
            assert("task_cancelled"@.len() == 14);
            reveal_strlit("run_created");
            assert("run_created"@.len() == 11);
            reveal_strlit("graph_accepted");
            assert("task_cancelled"@[0] == 't' && "graph_accepted"@[0] == 'g');
            reveal_strlit("task_ready");
            assert("task_ready"@.len() == 10);
            reveal_strlit("worktree_created");
            assert("worktree_created"@.len() == 16);
            reveal_strlit("worktree_bootstrapped");
            assert("worktree_bootstrapped"@.len() == 21);
            reveal_strlit("worktree_removed");
            assert("worktree_removed"@.len() == 16);
            reveal_strlit("agent_spawned");
            assert("agent_spawned"@.len() == 13);
            reveal_strlit("session_created");
            assert("session_created"@.len() == 15);
            reveal_strlit("session_closed");
            assert("task_cancelled"@[0] == 't' && "session_closed"@[0] == 's');
            reveal_strlit("prompt_started");
            assert("task_cancelled"@[0] == 't' && "prompt_started"@[0] == 'p');
            reveal_strlit("session_update");
            assert("task_cancelled"@[0] == 't' && "session_update"@[0] == 's');
            reveal_strlit("permission_requested");
            assert("permission_requested"@.len() == 20);
            reveal_strlit("permission_resolved");
            assert("permission_resolved"@.len() == 19);
            reveal_strlit("gate_started");
            assert("gate_started"@.len() == 12);
            reveal_strlit("gate_passed");
            assert("gate_passed"@.len() == 11);
            reveal_strlit("gate_failed");
            assert("gate_failed"@.len() == 11);
            reveal_strlit("artifact_recorded");
            assert("artifact_recorded"@.len() == 17);
            reveal_strlit("merge_queued");
            assert("merge_queued"@.len() == 12);
            reveal_strlit("merge_completed");
            assert("merge_completed"@.len() == 15);
            reveal_strlit("merge_rejected");
            assert("task_cancelled"@[0] == 't' && "merge_rejected"@[0] == 'm');
        },
        JournalKind::ProcessCrashed => {
            reveal_strlit("process_crashed");
            assert("process_crashed"@.len() == 15);
            reveal_strlit("run_created");
            assert("run_created"@.len() == 11);
            reveal_strlit("graph_accepted");
            assert("graph_accepted"@.len() == 14);
            reveal_strlit("task_ready");
            assert("task_ready"@.len() == 10);
            reveal_strlit("worktree_created");
            assert("worktree_created"@.len() == 16);
            reveal_strlit("worktree_bootstrapped");
            assert("worktree_bootstrapped"@.len() == 21);
            reveal_strlit("worktree_removed");
            assert("worktree_removed"@.len() == 16);
            reveal_strlit("agent_spawned");
            assert("agent_spawned"@.len() == 13);
            reveal_strlit("session_created");
            assert("process_crashed"@[0] == 'p' && "session_created"@[0] == 's');
            reveal_strlit("session_closed");
            assert("session_closed"@.len() == 14);
            reveal_strlit("prompt_started");
            assert("prompt_started"@.len() == 14);
            reveal_strlit("session_update");
            assert("session_update"@.len() == 14);
            reveal_strlit("permission_requested");
            assert("permission_requested"@.len() == 20);
            reveal_strlit("permission_resolved");
            assert("permission_resolved"@.len() == 19);
            reveal_strlit("gate_started");
            assert("gate_started"@.len() == 12);
            reveal_strlit("gate_passed");
            assert("gate_passed"@.len() == 11);
            reveal_strlit("gate_failed");
            assert("gate_failed"@.len() == 11);
            reveal_strlit("artifact_recorded");
            assert("artifact_recorded"@.len() == 17);
            reveal_strlit("merge_queued");
            assert("merge_queued"@.len() == 12);
            reveal_strlit("merge_completed");
            assert("process_crashed"@[0] == 'p' && "merge_completed"@[0] == 'm');
            reveal_strlit("merge_rejected");
            assert("merge_rejected"@.len() == 14);
            reveal_strlit("task_cancelled");
            assert("task_cancelled"@.len() == 14);
        },
        JournalKind::OrphanDetected => {
            reveal_strlit("orphan_detected");
            assert("orphan_detected"@.len() == 15);
            reveal_strlit("run_created");
            assert("run_created"@.len() == 11);
            reveal_strlit("graph_accepted");
            assert("graph_accepted"@.len() == 14);
            reveal_strlit("task_ready");
            assert("task_ready"@.len() == 10);
            reveal_strlit("worktree_created");
            assert("worktree_created"@.len() == 16);
            reveal_strlit("worktree_bootstrapped");
            assert("worktree_bootstrapped"@.len() == 21);
            reveal_strlit("worktree_removed");
            assert("worktree_removed"@.len() == 16);
            reveal_strlit("agent_spawned");
            assert("agent_spawned"@.len() == 13);
            reveal_strlit("session_created");
            assert("orphan_detected"@[0] == 'o' && "session_created"@[0] == 's');
            reveal_strlit("session_closed");
            assert("session_closed"@.len() == 14);
            reveal_strlit("prompt_started");
            assert("prompt_started"@.len() == 14);
            reveal_strlit("session_update");
            assert("session_update"@.len() == 14);
            reveal_strlit("permission_requested");
            assert("permission_requested"@.len() == 20);
            reveal_strlit("permission_resolved");
            assert("permission_resolved"@.len() == 19);
            reveal_strlit("gate_started");
            assert("gate_started"@.len() == 12);
            reveal_strlit("gate_passed");
            assert("gate_passed"@.len() == 11);
            reveal_strlit("gate_failed");
            assert("gate_failed"@.len() == 11);
            reveal_strlit("artifact_recorded");
            assert("artifact_recorded"@.len() == 17);
            reveal_strlit("merge_queued");
            assert("merge_queued"@.len() == 12);
            reveal_strlit("merge_completed");
            assert("orphan_detected"@[0] == 'o' && "merge_completed"@[0] == 'm');
            reveal_strlit("merge_rejected");
            assert("merge_rejected"@.len() == 14);
            reveal_strlit("task_cancelled");
            assert("task_cancelled"@.len() == 14);
            reveal_strlit("process_crashed");
            assert("orphan_detected"@[0] == 'o' && "process_crashed"@[0] == 'p');
        },
        JournalKind::ProposalCreated => {
            reveal_strlit("proposal_created");
            assert("proposal_created"@.len() == 16);
            reveal_strlit("run_created");
            assert("run_created"@.len() == 11);
            reveal_strlit("graph_accepted");
            assert("graph_accepted"@.len() == 14);
            reveal_strlit("task_ready");
            assert("task_ready"@.len() == 10);
            reveal_strlit("worktree_created");
            assert("proposal_created"@[0] == 'p' && "worktree_created"@[0] == 'w');
            reveal_strlit("worktree_bootstrapped");
            assert("worktree_bootstrapped"@.len() == 21);
            reveal_strlit("worktree_removed");
            assert("proposal_created"@[0] == 'p' && "worktree_removed"@[0] == 'w');
            reveal_strlit("agent_spawned");
            assert("agent_spawned"@.len() == 13);
            reveal_strlit("session_created");
            assert("session_created"@.len() == 15);
            reveal_strlit("session_closed");
            assert("session_closed"@.len() == 14);
            reveal_strlit("prompt_started");
            assert("prompt_started"@.len() == 14);
            reveal_strlit("session_update");
            assert("session_update"@.len() == 14);
            reveal_strlit("permission_requested");
            assert("permission_requested"@.len() == 20);
            reveal_strlit("permission_resolved");
            assert("permission_resolved"@.len() == 19);
            reveal_strlit("gate_started");
            assert("gate_started"@.len() == 12);
            reveal_strlit("gate_passed");
            assert("gate_passed"@.len() == 11);
            reveal_strlit("gate_failed");
            assert("gate_failed"@.len() == 11);
            reveal_strlit("artifact_recorded");
            assert("artifact_recorded"@.len() == 17);
            reveal_strlit("merge_queued");
            assert("merge_queued"@.len() == 12);
            reveal_strlit("merge_completed");
            assert("merge_completed"@.len() == 15);
            reveal_strlit("merge_rejected");
            assert("merge_rejected"@.len() == 14);
            reveal_strlit("task_cancelled");
            assert("task_cancelled"@.len() == 14);
            reveal_strlit("process_crashed");
            assert("process_crashed"@.len() == 15);
            reveal_strlit("orphan_detected");
            assert("orphan_detected"@.len() == 15);
        },
        JournalKind::ProposalApproved => {
            reveal_strlit("proposal_approved");
            assert("proposal_approved"@.len() == 17);
            reveal_strlit("run_created");
            assert("run_created"@.len() == 11);
            reveal_strlit("graph_accepted");
            assert("graph_accepted"@.len() == 14);
            reveal_strlit("task_ready");
            assert("task_ready"@.len() == 10);
            reveal_strlit("worktree_created");
            assert("worktree_created"@.len() == 16);
            reveal_strlit("worktree_bootstrapped");
            assert("worktree_bootstrapped"@.len() == 21);
            reveal_strlit("worktree_removed");
            assert("worktree_removed"@.len() == 16);
            reveal_strlit("agent_spawned");
            assert("agent_spawned"@.len() == 13);
            reveal_strlit("session_created");
            assert("session_created"@.len() == 15);
            reveal_strlit("session_closed");
            assert("session_closed"@.len() == 14);
            reveal_strlit("prompt_started");
            assert("prompt_started"@.len() == 14);
            reveal_strlit("session_update");
            assert("session_update"@.len() == 14);
            reveal_strlit("permission_requested");
            assert("permission_requested"@.len() == 20);
            reveal_strlit("permission_resolved");
            assert("permission_resolved"@.len() == 19);
            reveal_strlit("gate_started");
            assert("gate_started"@.len() == 12);
            reveal_strlit("gate_passed");
            assert("gate_passed"@.len() == 11);
            reveal_strlit("gate_failed");
            assert("gate_failed"@.len() == 11);
            reveal_strlit("artifact_recorded");
            assert("proposal_approved"@[0] == 'p' && "artifact_recorded"@[0] == 'a');
            reveal_strlit("merge_queued");
            assert("merge_queued"@.len() == 12);
            reveal_strlit("merge_completed");
            assert("merge_completed"@.len() == 15);
            reveal_strlit("merge_rejected");
            assert("merge_rejected"@.len() == 14);
            reveal_strlit("task_cancelled");
            assert("task_cancelled"@.len() == 14);
            reveal_strlit("process_crashed");
            assert("process_crashed"@.len() == 15);
            reveal_strlit("orphan_detected");
            assert("orphan_detected"@.len() == 15);
            reveal_strlit("proposal_created");
            assert("proposal_created"@.len() == 16);
        },
        JournalKind::ProposalRejected => {
            reveal_strlit("proposal_rejected");
            assert("proposal_rejected"@.len() == 17);
            reveal_strlit("run_created");
            assert("run_created"@.len() == 11);
            reveal_strlit("graph_accepted");
            assert("graph_accepted"@.len() == 14);
            reveal_strlit("task_ready");
            assert("task_ready"@.len() == 10);
            reveal_strlit("worktree_created");
            assert("worktree_created"@.len() == 16);
            reveal_strlit("worktree_bootstrapped");
            assert("worktree_bootstrapped"@.len() == 21);
            reveal_strlit("worktree_removed");
            assert("worktree_removed"@.len() == 16);
            reveal_strlit("agent_spawned");
            assert("agent_spawned"@.len() == 13);
            reveal_strlit("session_created");
            assert("session_created"@.len() == 15);
            reveal_strlit("session_closed");
            assert("session_closed"@.len() == 14);
            reveal_strlit("prompt_started");
            assert("prompt_started"@.len() == 14);
            reveal_strlit("session_update");
            assert("session_update"@.len() == 14);
            reveal_strlit("permission_requested");
            assert("permission_requested"@.len() == 20);
            reveal_strlit("permission_resolved");
            assert("permission_resolved"@.len() == 19);
            reveal_strlit("gate_started");
            assert("gate_started"@.len() == 12);
            reveal_strlit("gate_passed");
            assert("gate_passed"@.len() == 11);
            reveal_strlit("gate_failed");
            assert("gate_failed"@.len() == 11);
            reveal_strlit("artifact_recorded");
            assert("proposal_rejected"@[0] == 'p' && "artifact_recorded"@[0] == 'a');
            reveal_strlit("merge_queued");
            assert("merge_queued"@.len() == 12);
            reveal_strlit("merge_completed");
            assert("merge_completed"@.len() == 15);
            reveal_strlit("merge_rejected");
            assert("merge_rejected"@.len() == 14);
            reveal_strlit("task_cancelled");
            assert("task_cancelled"@.len() == 14);
            reveal_strlit("process_crashed");
            assert("process_crashed"@.len() == 15);
            reveal_strlit("orphan_detected");
            assert("orphan_detected"@.len() == 15);
            reveal_strlit("proposal_created");
            assert("proposal_created"@.len() == 16);
            reveal_strlit("proposal_approved");
            assert("proposal_rejected"@[9] == 'r' && "proposal_approved"@[9] == 'a');
        },
        JournalKind::RulesInjected => {
            reveal_strlit("rules_injected");
            assert("rules_injected"@.len() == 14);
            reveal_strlit("run_created");
            assert("run_created"@.len() == 11);
            reveal_strlit("graph_accepted");
            assert("rules_injected"@[0] == 'r' && "graph_accepted"@[0] == 'g');
            reveal_strlit("task_ready");
            assert("task_ready"@.len() == 10);
            reveal_strlit("worktree_created");
            assert("worktree_created"@.len() == 16);
            reveal_strlit("worktree_bootstrapped");
            assert("worktree_bootstrapped"@.len() == 21);
            reveal_strlit("worktree_removed");
            assert("worktree_removed"@.len() == 16);
            reveal_strlit("agent_spawned");
            assert("agent_spawned"@.len() == 13);
            reveal_strlit("session_created");
            assert("session_created"@.len() == 15);
            reveal_strlit("session_closed");
            assert("rules_injected"@[0] == 'r' && "session_closed"@[0] == 's');
            reveal_strlit("prompt_started");
            assert("rules_injected"@[0] == 'r' && "prompt_started"@[0] == 'p');
            reveal_strlit("session_update");
            assert("rules_injected"@[0] == 'r' && "session_update"@[0] == 's');
            reveal_strlit("permission_requested");
            assert("permission_requested"@.len() == 20);
            reveal_strlit("permission_resolved");
            assert("permission_resolved"@.len() == 19);
            reveal_strlit("gate_started");
            assert("gate_started"@.len() == 12);
            reveal_strlit("gate_passed");
            assert("gate_passed"@.len() == 11);
            reveal_strlit("gate_failed");
            assert("gate_failed"@.len() == 11);
            reveal_strlit("artifact_recorded");
            assert("artifact_recorded"@.len() == 17);
            reveal_strlit("merge_queued");
            assert("merge_queued"@.len() == 12);
            reveal_strlit("merge_completed");
            assert("merge_completed"@.len() == 15);
            reveal_strlit("merge_rejected");
            assert("rules_injected"@[0] == 'r' && "merge_rejected"@[0] == 'm');
            reveal_strlit("task_cancelled");
            assert("rules_injected"@[0] == 'r' && "task_cancelled"@[0] == 't');
            reveal_strlit("process_crashed");
            assert("process_crashed"@.len() == 15);
            reveal_strlit("orphan_detected");
            assert("orphan_detected"@.len() == 15);
            reveal_strlit("proposal_created");
            assert("proposal_created"@.len() == 16);
            reveal_strlit("proposal_approved");
            assert("proposal_approved"@.len() == 17);
            reveal_strlit("proposal_rejected");
            assert("proposal_rejected"@.len() == 17);
        },
        JournalKind::MemoryInvalidated => {
            reveal_strlit("memory_invalidated");
            assert("memory_invalidated"@.len() == 18);
            reveal_strlit("run_created");
            assert("run_created"@.len() == 11);
            reveal_strlit("graph_accepted");
            assert("graph_accepted"@.len() == 14);
            reveal_strlit("task_ready");
            assert("task_ready"@.len() == 10);
            reveal_strlit("worktree_created");
            assert("worktree_created"@.len() == 16);
            reveal_strlit("worktree_bootstrapped");
            assert("worktree_bootstrapped"@.len() == 21);
            reveal_strlit("worktree_removed");
            assert("worktree_removed"@.len() == 16);
            reveal_strlit("agent_spawned");
            assert("agent_spawned"@.len() == 13);
            reveal_strlit("session_created");
            assert("session_created"@.len() == 15);
            reveal_strlit("session_closed");
            assert("session_closed"@.len() == 14);
            reveal_strlit("prompt_started");
            assert("prompt_started"@.len() == 14);
            reveal_strlit("session_update");
            assert("session_update"@.len() == 14);
            reveal_strlit("permission_requested");
            assert("permission_requested"@.len() == 20);
            reveal_strlit("permission_resolved");
            assert("permission_resolved"@.len() == 19);
            reveal_strlit("gate_started");
            assert("gate_started"@.len() == 12);
            reveal_strlit("gate_passed");
            assert("gate_passed"@.len() == 11);
            reveal_strlit("gate_failed");
            assert("gate_failed"@.len() == 11);
            reveal_strlit("artifact_recorded");
            assert("artifact_recorded"@.len() == 17);
            reveal_strlit("merge_queued");
            assert("merge_queued"@.len() == 12);
            reveal_strlit("merge_completed");
            assert("merge_completed"@.len() == 15);
            reveal_strlit("merge_rejected");
            assert("merge_rejected"@.len() == 14);
            reveal_strlit("task_cancelled");
            assert("task_cancelled"@.len() == 14);
            reveal_strlit("process_crashed");
            assert("process_crashed"@.len() == 15);
            reveal_strlit("orphan_detected");
            assert("orphan_detected"@.len() == 15);
            reveal_strlit("proposal_created");
            assert("proposal_created"@.len() == 16);
            reveal_strlit("proposal_approved");
            assert("proposal_approved"@.len() == 17);
            reveal_strlit("proposal_rejected");
            assert("proposal_rejected"@.len() == 17);
            reveal_strlit("rules_injected");
            assert("rules_injected"@.len() == 14);
        },
        JournalKind::ModelSwitchDenied => {
            reveal_strlit("model_switch_denied");
            assert("model_switch_denied"@.len() == 19);
            reveal_strlit("run_created");
            assert("run_created"@.len() == 11);
            reveal_strlit("graph_accepted");
            assert("graph_accepted"@.len() == 14);
            reveal_strlit("task_ready");
            assert("task_ready"@.len() == 10);
            reveal_strlit("worktree_created");
            assert("worktree_created"@.len() == 16);
            reveal_strlit("worktree_bootstrapped");
            assert("worktree_bootstrapped"@.len() == 21);
            reveal_strlit("worktree_removed");
            assert("worktree_removed"@.len() == 16);
            reveal_strlit("agent_spawned");
            assert("agent_spawned"@.len() == 13);
            reveal_strlit("session_created");
            assert("session_created"@.len() == 15);
            reveal_strlit("session_closed");
            assert("session_closed"@.len() == 14);
            reveal_strlit("prompt_started");
            assert("prompt_started"@.len() == 14);
            reveal_strlit("session_update");
            assert("session_update"@.len() == 14);
            reveal_strlit("permission_requested");
            assert("permission_requested"@.len() == 20);
            reveal_strlit("permission_resolved");
            assert("model_switch_denied"@[0] == 'm' && "permission_resolved"@[0] == 'p');
            reveal_strlit("gate_started");
            assert("gate_started"@.len() == 12);
            reveal_strlit("gate_passed");
            assert("gate_passed"@.len() == 11);
            reveal_strlit("gate_failed");
            assert("gate_failed"@.len() == 11);
            reveal_strlit("artifact_recorded");
            assert("artifact_recorded"@.len() == 17);
            reveal_strlit("merge_queued");
            assert("merge_queued"@.len() == 12);
            reveal_strlit("merge_completed");
            assert("merge_completed"@.len() == 15);
            reveal_strlit("merge_rejected");
            assert("merge_rejected"@.len() == 14);
            reveal_strlit("task_cancelled");
            assert("task_cancelled"@.len() == 14);
            reveal_strlit("process_crashed");
            assert("process_crashed"@.len() == 15);
            reveal_strlit("orphan_detected");
            assert("orphan_detected"@.len() == 15);
            reveal_strlit("proposal_created");
            assert("proposal_created"@.len() == 16);
            reveal_strlit("proposal_approved");
            assert("proposal_approved"@.len() == 17);
            reveal_strlit("proposal_rejected");
            assert("proposal_rejected"@.len() == 17);
            reveal_strlit("rules_injected");
            assert("rules_injected"@.len() == 14);
            reveal_strlit("memory_invalidated");
            assert("memory_invalidated"@.len() == 18);
        },
        JournalKind::SessionForkedSummary => {
            reveal_strlit("session_forked_summary");
            assert("session_forked_summary"@.len() == 22);
            reveal_strlit("run_created");
            assert("run_created"@.len() == 11);
            reveal_strlit("graph_accepted");
            assert("graph_accepted"@.len() == 14);
            reveal_strlit("task_ready");
            assert("task_ready"@.len() == 10);
            reveal_strlit("worktree_created");
            assert("worktree_created"@.len() == 16);
            reveal_strlit("worktree_bootstrapped");
            assert("worktree_bootstrapped"@.len() == 21);
            reveal_strlit("worktree_removed");
            assert("worktree_removed"@.len() == 16);
            reveal_strlit("agent_spawned");
            assert("agent_spawned"@.len() == 13);
            reveal_strlit("session_created");
            assert("session_created"@.len() == 15);
            reveal_strlit("session_closed");
            assert("session_closed"@.len() == 14);
            reveal_strlit("prompt_started");
            assert("prompt_started"@.len() == 14);
            reveal_strlit("session_update");
            assert("session_update"@.len() == 14);
            reveal_strlit("permission_requested");
            assert("permission_requested"@.len() == 20);
            reveal_strlit("permission_resolved");
            assert("permission_resolved"@.len() == 19);
            reveal_strlit("gate_started");
            assert("gate_started"@.len() == 12);
            reveal_strlit("gate_passed");
            assert("gate_passed"@.len() == 11);
            reveal_strlit("gate_failed");
            assert("gate_failed"@.len() == 11);
            reveal_strlit("artifact_recorded");
            assert("artifact_recorded"@.len() == 17);
            reveal_strlit("merge_queued");
            assert("merge_queued"@.len() == 12);
            reveal_strlit("merge_completed");
            assert("merge_completed"@.len() == 15);
            reveal_strlit("merge_rejected");
            assert("merge_rejected"@.len() == 14);
            reveal_strlit("task_cancelled");
            assert("task_cancelled"@.len() == 14);
            reveal_strlit("process_crashed");
            assert("process_crashed"@.len() == 15);
            reveal_strlit("orphan_detected");
            assert("orphan_detected"@.len() == 15);
            reveal_strlit("proposal_created");
            assert("proposal_created"@.len() == 16);
            reveal_strlit("proposal_approved");
            assert("proposal_approved"@.len() == 17);
            reveal_strlit("proposal_rejected");
            assert("proposal_rejected"@.len() == 17);
            reveal_strlit("rules_injected");
            assert("rules_injected"@.len() == 14);
            reveal_strlit("memory_invalidated");
            assert("memory_invalidated"@.len() == 18);
            reveal_strlit("model_switch_denied");
            assert("model_switch_denied"@.len() == 19);
        },
    }
}

/// Parsing only succeeds on a wire name, and then names the parsed value.
pub proof fn lemma_journal_kind_parse_inverts(s: Seq<char>)
    ensures
        JournalKind::from_name(s) matches Some(k) ==> k.name() == s,
{
}

/// Lifecycle state of one task of a run.
#[derive(Debug, Clone, Copy, PartialEq, Eq, Structural)]
pub enum TaskStatus {
    Pending,
    Ready,
    Running,
    Gate,
    Merging,
    Done,
    Failed,
    Cancelled,
    Blocked,
}

impl TaskStatus {
    /// The stable wire name of this value.
    pub open spec fn name(self) -> Seq<char> {
        match self {
            TaskStatus::Pending => "pending"@,
            TaskStatus::Ready => "ready"@,
            TaskStatus::Running => "running"@,
            TaskStatus::Gate => "gate"@,
            TaskStatus::Merging => "merging"@,
            TaskStatus::Done => "done"@,
            TaskStatus::Failed => "failed"@,
            TaskStatus::Cancelled => "cancelled"@,
            TaskStatus::Blocked => "blocked"@,
        }
    }

    /// The value whose wire name is `s`, if any.
    pub open spec fn from_name(s: Seq<char>) -> Option<Self> {
        if s == "pending"@ {
            Some(TaskStatus::Pending)
        } else if s == "ready"@ {
            Some(TaskStatus::Ready)
        } else if s == "running"@ {
            Some(TaskStatus::Running)
        } else if s == "gate"@ {
            Some(TaskStatus::Gate)
        } else if s == "merging"@ {
            Some(TaskStatus::Merging)
        } else if s == "done"@ {
            Some(TaskStatus::Done)
        } else if s == "failed"@ {
            Some(TaskStatus::Failed)
        } else if s == "cancelled"@ {
            Some(TaskStatus::Cancelled)
        } else if s == "blocked"@ {
            Some(TaskStatus::Blocked)
        } else {
            None
        }
    }

    pub fn as_str(self) -> (s: &'static str)
        ensures
            s@ == self.name(),
    {
        match self {
            TaskStatus::Pending => "pending",
            TaskStatus::Ready => "ready",
            TaskStatus::Running => "running",
            TaskStatus::Gate => "gate",
            TaskStatus::Merging => "merging",
            TaskStatus::Done => "done",
            TaskStatus::Failed => "failed",
            TaskStatus::Cancelled => "cancelled",
            TaskStatus::Blocked => "blocked",
        }
    }

    pub fn parse(s: &str) -> (r: Option<Self>)
        ensures
            r == Self::from_name(s@),
    {
        if str_eq(s, "pending") {
            return Some(TaskStatus::Pending);
        }
        if str_eq(s, "ready") {
            return Some(TaskStatus::Ready);
        }
        if str_eq(s, "running") {
            return Some(TaskStatus::Running);
        }
        if str_eq(s, "gate") {
            return Some(TaskStatus::Gate);
        }
        if str_eq(s, "merging") {
            return Some(TaskStatus::Merging);
        }
        if str_eq(s, "done") {
            return Some(TaskStatus::Done);
        }
        if str_eq(s, "failed") {
            return Some(TaskStatus::Failed);
        }
        if str_eq(s, "cancelled") {
            return Some(TaskStatus::Cancelled);
        }
        if str_eq(s, "blocked") {
            return Some(TaskStatus::Blocked);
        }
        None
    }
}

/// Every wire name parses back to the value it names.
pub proof fn lemma_task_status_round_trip(k: TaskStatus)
    ensures
        TaskStatus::from_name(k.name()) == Some(k),
{
    broadcast use vstd::string::group_string_axioms;

    match k {
        TaskStatus::Pending => {
            reveal_strlit("pending");
            assert("pending"@.len() == 7);
        },
        TaskStatus::Ready => {
            reveal_strlit("ready");
            assert("ready"@.len() == 5);
            reveal_strlit("pending");
            assert("pending"@.len() == 7);
        },
        TaskStatus::Running => {
            reveal_strlit("running");
            assert("running"@.len() == 7);
            reveal_strlit("pending");
            assert("running"@[0] == 'r' && "pending"@[0] == 'p');
            reveal_strlit("ready");
            assert("ready"@.len() == 5);
        },
        TaskStatus::Gate => {
            reveal_strlit("gate");
            assert("gate"@.len() == 4);
            reveal_strlit("pending");
            assert("pending"@.len() == 7);
            reveal_strlit("ready");
            assert("ready"@.len() == 5);
            reveal_strlit("running");
            assert("running"@.len() == 7);
        },
        TaskStatus::Merging => {
            reveal_strlit("merging");
            assert("merging"@.len() == 7);
            reveal_strlit("pending");
            assert("merging"@[0] == 'm' && "pending"@[0] == 'p');
            reveal_strlit("ready");
            assert("ready"@.len() == 5);
            reveal_strlit("running");
            assert("merging"@[0] == 'm' && "running"@[0] == 'r');
            reveal_strlit("gate");
            assert("gate"@.len() == 4);
        },
        TaskStatus::Done => {
            reveal_strlit("done");
            assert("done"@.len() == 4);
            reveal_strlit("pending");
            assert("pending"@.len() == 7);
            reveal_strlit("ready");
            assert("ready"@.len() == 5);
            reveal_strlit("running");
            assert("running"@.len() == 7);
            reveal_strlit("gate");
            assert("done"@[0] == 'd' && "gate"@[0] == 'g');
            reveal_strlit("merging");
            assert("merging"@.len() == 7);
        },
        TaskStatus::Failed => {
            reveal_strlit("failed");
            assert("failed"@.len() == 6);
            reveal_strlit("pending");
            assert("pending"@.len() == 7);
            reveal_strlit("ready");
            assert("ready"@.len() == 5);
            reveal_strlit("running");
            assert("running"@.len() == 7);
            reveal_strlit("gate");
            assert("gate"@.len() == 4);
            reveal_strlit("merging");
            assert("merging"@.len() == 7);
            reveal_strlit("done");
            assert("done"@.len() == 4);
        },
        TaskStatus::Cancelled => {
            reveal_strlit("cancelled");
            assert("cancelled"@.len() == 9);
            reveal_strlit("pending");
            assert("pending"@.len() == 7);
            reveal_strlit("ready");
            assert("ready"@.len() == 5);
            reveal_strlit("running");
            assert("running"@.len() == 7);
            reveal_strlit("gate");
            assert("gate"@.len() == 4);
            reveal_strlit("merging");
            assert("merging"@.len() == 7);
            reveal_strlit("done");
            assert("done"@.len() == 4);
            reveal_strlit("failed");
            assert("failed"@.len() == 6);
        },
        TaskStatus::Blocked => {
            reveal_strlit("blocked");
            assert("blocked"@.len() == 7);
            reveal_strlit("pending");
            assert("blocked"@[0] == 'b' && "pending"@[0] == 'p');
            reveal_strlit("ready");
            assert("ready"@.len() == 5);
            reveal_strlit("running");
            assert("blocked"@[0] == 'b' && "running"@[0] == 'r');
            reveal_strlit("gate");
            assert("gate"@.len() == 4);
            reveal_strlit("merging");
            assert("blocked"@[0] == 'b' && "merging"@[0] == 'm');
            reveal_strlit("done");
            assert("done"@.len() == 4);
            reveal_strlit("failed");
            assert("failed"@.len() == 6);
            reveal_strlit("cancelled");
            assert("cancelled"@.len() == 9);
        },
    }
}

/// Parsing only succeeds on a wire name, and then names the parsed value.
pub proof fn lemma_task_status_parse_inverts(s: Seq<char>)
    ensures
        TaskStatus::from_name(s) matches Some(k) ==> k.name() == s,
{
}

/// An artifact a task produces or a dependency edge requires.
#[derive(Debug)]
pub struct ArtifactRef {
    pub id: String,
    pub path: String,
    pub description: Option<String>,
}

/// A dependency edge: `to` may only start once `from` is done, and needs
/// the declared `artifacts` of `from` copied into its worktree.
#[derive(Debug)]
pub struct TaskDepEdge {
    pub from: String,
    pub to: String,
    pub artifacts: Vec<ArtifactRef>,
}

/// One task of a task graph.
#[derive(Debug)]
pub struct TaskSpec {
    pub id: String,
    pub title: String,
    pub prompt: String,
    pub gate_command: Option<String>,
    pub produces: Vec<ArtifactRef>,
    /// When true the task runs in the repository itself instead of an isolated worktree.
    pub allow_inplace: bool,
}

/// A named set of tasks and dependency edges.
#[derive(Debug)]
pub struct TaskGraph {
    pub name: String,
    pub tasks: Vec<TaskSpec>,
    pub deps: Vec<TaskDepEdge>,
}

/// The identity of an agent process that may be shared between sessions.
#[derive(Debug)]
pub struct ProcessPoolKey {
    pub agent: String,
    pub executable: String,
    pub version: String,
    pub cwd: String,
    pub auth_fingerprint: String,
}

/// The text hashed for a pool key: its fields joined with `|`.
pub open spec fn pool_key_text(agent: Seq<char>, executable: Seq<char>, version: Seq<char>, cwd: Seq<char>, auth: Seq<char>) -> Seq<char> {
    agent + "|"@ + executable + "|"@ + version + "|"@ + cwd + "|"@ + auth
}

impl ProcessPoolKey {
    pub open spec fn key_text(&self) -> Seq<char> {
        pool_key_text(self.agent@, self.executable@, self.version@, self.cwd@, self.auth_fingerprint@)
    }

    /// Lowercase hex SHA-256 of the UTF-8 of the `|`-joined fields.
    pub fn fingerprint(&self) -> (r: String)
        ensures
            r@ == hex_lower(sha256_spec(vstd::utf8::encode_utf8(self.key_text()))),
    {
        let mut text = self.agent.clone();
        text.append("|");
        text.append(self.executable.as_str());
        text.append("|");
        text.append(self.version.as_str());
        text.append("|");
        text.append(self.cwd.as_str());
        text.append("|");
        text.append(self.auth_fingerprint.as_str());
        let digest = sha256_digest(text.as_str().as_bytes());
        hex_encode(digest.as_slice())
    }
}

/// Keys that differ only in their working directory hash different texts:
/// the `|` separators keep the fields apart.
pub proof fn lemma_cwd_changes_key_text(
    agent: Seq<char>,
    executable: Seq<char>,
    version: Seq<char>,
    cwd1: Seq<char>,
    cwd2: Seq<char>,
    auth: Seq<char>,
)
    requires
        cwd1 != cwd2,
    ensures
        pool_key_text(agent, executable, version, cwd1, auth) != pool_key_text(agent, executable, version, cwd2, auth),
{
    let pre = agent + "|"@ + executable + "|"@ + version + "|"@;
    let t1 = pool_key_text(agent, executable, version, cwd1, auth);
    let t2 = pool_key_text(agent, executable, version, cwd2, auth);
    assert(t1 =~= pre + cwd1 + ("|"@ + auth));
    assert(t2 =~= pre + cwd2 + ("|"@ + auth));
    if t1 == t2 {
        if cwd1.len() == cwd2.len() {
            assert forall|i: int| 0 <= i < cwd1.len() implies cwd1[i] == cwd2[i] by {
                assert(t1[pre.len() + i] == cwd1[i]);
                assert(t2[pre.len() + i] == cwd2[i]);
            }
            assert(cwd1 =~= cwd2);
        } else {
            assert(t1.len() != t2.len());
        }
    }
}

/// One value an agent advertises for a configuration option.
#[derive(Debug)]
pub struct ConfigOptionValue {
    pub value: String,
    pub name: String,
    pub description: Option<String>,
}

/// A configuration option as an agent advertises it.
#[derive(Debug)]
pub struct ConfigOptionAdvertisement {
    pub id: String,
    pub name: String,
    pub category: Option<String>,
    pub option_type: String,
    pub current_value: Option<crate::json::Json>,
    pub options: Vec<ConfigOptionValue>,
}

} // verus!
