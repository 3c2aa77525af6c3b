//! The error type shared by the whole library.

use vstd::prelude::*;
use vstd::string::*;
use crate::external::{decimal_int, i64_to_string};

verus! {

/// Everything that can go wrong. Errors raised by storage, I/O or parsing
/// outside the library arrive as their message text.
#[derive(Debug)]
pub enum CoreError {
    Sqlite(String),
    Io(String),
    Json(String),
    Yaml(String),
    PathEscape { path: String, root: String },
    /// Producer or consumer missing a declared artifact.
    MissingArtifact { task_id: String, artifact_id: String, from_task: String, path: String },
    GateFailed { task_id: String, command: String, exit_code: i32 },
    WorktreeConflict { branch: String, existing: String },
    OrphanWorktree { path: String },
    InvalidGraph(String),
    NotFound(String),
    ModelSwitchDenied(String),
    Other(String),
}

pub type Result<T> = core::result::Result<T, CoreError>;

/// `a` followed by `b`.
pub fn join2(a: &str, b: &str) -> (s: String)
    ensures
        s@ == a@ + b@,
{
    let mut s = a.to_owned();
    s.append(b);
    s
}

impl CoreError {
    /// The human-readable text of the error.
    pub open spec fn spec_message(&self) -> Seq<char> {
        match self {
            CoreError::Sqlite(m) => "sqlite: "@ + m@,
            CoreError::Io(m) => "io: "@ + m@,
            CoreError::Json(m) => "json: "@ + m@,
            CoreError::Yaml(m) => "yaml: "@ + m@,
            CoreError::PathEscape { path, root } => "path escape: "@ + path@ + " is outside root "@ + root@,
            CoreError::MissingArtifact { task_id, artifact_id, from_task, path } =>
                "missing artifact: task `"@ + task_id@ + "` artifact `"@ + artifact_id@ + "` path `"@
                    + path@ + "` (from `"@ + from_task@ + "`)"@,
            CoreError::GateFailed { task_id, command, exit_code } =>
                "gate failed: task `"@ + task_id@ + "` command `"@ + command@ + "` exited "@
                    + decimal_int(*exit_code as int),
            CoreError::WorktreeConflict { branch, existing } =>
                "worktree conflict: branch `"@ + branch@ + "` already checked out at `"@ + existing@ + "`"@,
            CoreError::OrphanWorktree { path } => "orphan worktree detected: "@ + path@,
            CoreError::InvalidGraph(m) => "invalid graph: "@ + m@,
            CoreError::NotFound(m) => "not found: "@ + m@,
            CoreError::ModelSwitchDenied(m) => "model switch denied: "@ + m@,
            CoreError::Other(m) => m@,
        }
    }

    /// The human-readable text of the error.
    pub fn message(&self) -> (s: String)
        ensures
            s@ == self.spec_message(),
    {
        match self {
            CoreError::Sqlite(m) => join2("sqlite: ", m.as_str()),
            CoreError::Io(m) => join2("io: ", m.as_str()),
            CoreError::Json(m) => join2("json: ", m.as_str()),
            CoreError::Yaml(m) => join2("yaml: ", m.as_str()),
            CoreError::PathEscape { path, root } => {
                let mut s = join2("path escape: ", path.as_str());
                s.append(" is outside root ");
                s.append(root.as_str());
                s
            },
            CoreError::MissingArtifact { task_id, artifact_id, from_task, path } => {
                let mut s = join2("missing artifact: task `", task_id.as_str());
                s.append("` artifact `");
                s.append(artifact_id.as_str());
                s.append("` path `");
                s.append(path.as_str());
                s.append("` (from `");
                s.append(from_task.as_str());
                s.append("`)");
                s
            },
            CoreError::GateFailed { task_id, command, exit_code } => {
                let mut s = join2("gate failed: task `", task_id.as_str());
                s.append("` command `");
                s.append(command.as_str());
                s.append("` exited ");
                let code = i64_to_string(*exit_code as i64);
                s.append(code.as_str());
                s
            },
            CoreError::WorktreeConflict { branch, existing } => {
                let mut s = join2("worktree conflict: branch `", branch.as_str());
                s.append("` already checked out at `");
                s.append(existing.as_str());
                s.append("`");
                s
            },
            CoreError::OrphanWorktree { path } => join2("orphan worktree detected: ", path.as_str()),
            CoreError::InvalidGraph(m) => join2("invalid graph: ", m.as_str()),
            CoreError::NotFound(m) => join2("not found: ", m.as_str()),
            CoreError::ModelSwitchDenied(m) => join2("model switch denied: ", m.as_str()),
            CoreError::Other(m) => m.as_str().to_owned(),
        }
    }
}

} // verus!
