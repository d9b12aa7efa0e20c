//! Request/response correlation and the action goal lifecycle, built on an
//! unordered, possibly duplicating publish/subscribe transport.

pub mod action;
pub mod goal;
pub mod service;

pub use action::{ActionClient, ActionServer, CancelResponse, FeedbackMessage, GoalId, GoalStatusMessage, GoalTable};
pub use goal::{check_transition, ActionError, GoalStatus};
pub use service::{Client, Gid, Request, RequestId, Response, Server, ServiceError};
