//! The request and response bodies the client and the server exchange.

use vstd::prelude::*;
use crate::db::opt_view;

verus! {

/// Body of a session-creation request.
pub struct CreateSessionRequest {
    pub name: String,
    pub display_name: Option<String>,
}

/// A session as the server reports it.
pub struct SessionResponse {
    pub id: i32,
    pub name: String,
    pub display_name: Option<String>,
    pub role: Option<String>,
    pub model: Option<String>,
}

/// The spec-level value of a `SessionResponse`.
pub struct SessionResponseView {
    pub id: int,
    pub name: Seq<char>,
    pub display_name: Option<Seq<char>>,
    pub role: Option<Seq<char>>,
    pub model: Option<Seq<char>>,
}

impl View for SessionResponse {
    type V = SessionResponseView;

    open spec fn view(&self) -> SessionResponseView {
        SessionResponseView {
            id: self.id as int,
            name: self.name@,
            display_name: opt_view(self.display_name),
            role: opt_view(self.role),
            model: opt_view(self.model),
        }
    }
}

/// Body of a request that names a session.
pub struct SaveSessionRequest {
    pub display_name: String,
}

/// Body of a request that sets or clears a session's role.
pub struct SetRoleRequest {
    pub role: Option<String>,
}

/// Body of a chat request.
pub struct ChatRequest {
    pub message: String,
}

/// Body of a chat reply.
pub struct ChatResponse {
    pub response: String,
}

/// Body of a request that sets a session's model.
pub struct SetModelRequest {
    pub model: String,
}

/// A model the API offers.
pub struct ClaudeModel {
    pub id: String,
    pub display_name: String,
    pub created_at: String,
}

/// The model list as the API reports it.
pub struct ModelsResponse {
    pub data: Vec<ClaudeModel>,
}

} // verus!
