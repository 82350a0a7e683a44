//! Submission requests and responses, and the state shared by request handlers.

use crate::broker::Broker;
use crate::envelope::{create_task, Payload};
use serde_json::Value;
use std::sync::Arc;
use vstd::prelude::*;

verus! {

/// Where a submitted task stands.
#[derive(Debug, Clone, Copy, PartialEq, Eq, Structural)]
pub enum SubmissionStatus {
    Received,
    Processing,
    Completed,
    Failed,
}

/// The wire name of each status.
pub open spec fn status_name(s: SubmissionStatus) -> Seq<char> {
    match s {
        SubmissionStatus::Received => "received"@,
        SubmissionStatus::Processing => "processing"@,
        SubmissionStatus::Completed => "completed"@,
        SubmissionStatus::Failed => "failed"@,
    }
}

impl SubmissionStatus {
    /// The status's wire name.
    pub fn as_str(&self) -> (r: &'static str)
        ensures
            r@ == status_name(*self),
    {
        match self {
            SubmissionStatus::Received => "received",
            SubmissionStatus::Processing => "processing",
            SubmissionStatus::Completed => "completed",
            SubmissionStatus::Failed => "failed",
        }
    }

    /// The status whose wire name is `name`, if any.
    pub fn from_name(name: &str) -> (r: Option<SubmissionStatus>)
        ensures
            r matches Some(s) ==> status_name(s) == name@,
            r is None ==> forall|s: SubmissionStatus| status_name(s) != name@,
    {
        let n = name.to_owned();
        if n == String::from_str("received") {
            Some(SubmissionStatus::Received)
        } else if n == String::from_str("processing") {
            Some(SubmissionStatus::Processing)
        } else if n == String::from_str("completed") {
            Some(SubmissionStatus::Completed)
        } else if n == String::from_str("failed") {
            Some(SubmissionStatus::Failed)
        } else {
            proof {
                assert forall|s: SubmissionStatus| status_name(s) != name@ by {
                    match s {
                        SubmissionStatus::Received => {},
                        SubmissionStatus::Processing => {},
                        SubmissionStatus::Completed => {},
                        SubmissionStatus::Failed => {},
                    }
                }
            }
            None
        }
    }
}

/// A request to run `task_name` with positional `args` and keyword `kwargs`.
pub struct TaskSubmitRequest {
    pub task_name: String,
    pub args: Vec<Value>,
    pub kwargs: serde_json::Map<String, Value>,
}

pub struct TaskSubmitResponse {
    pub status: SubmissionStatus,
}

/// State shared by all request handlers.
pub struct AppData {
    pub broker: Arc<Broker>,
}

/// Turns a submission into the envelope to push and the response to send
/// once it is pushed; the envelope's id is the task id reported back.
pub fn accept_submission(request: TaskSubmitRequest) -> (r: (Payload, TaskSubmitResponse))
    ensures
        r.0.is_built_from(request.task_name@, request.args@, request.kwargs),
        r.1.status == SubmissionStatus::Received,
{
    let TaskSubmitRequest { task_name, args, kwargs } = request;
    let payload = create_task(task_name.as_str(), args, kwargs);
    (payload, TaskSubmitResponse { status: SubmissionStatus::Received })
}

} // verus!
