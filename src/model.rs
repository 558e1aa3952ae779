use vstd::prelude::*;

verus! {

/// Timestamps are microseconds since the Unix epoch, UTC.
pub type Timestamp = i64;

/// Liveness answer of the service.
#[derive(Debug, Clone, PartialEq, Eq)]
pub struct HealthResponse {
    pub status: String,
    pub message: String,
}

/// A registered identity, as shown to callers (no password hash).
#[derive(Debug, Clone, PartialEq, Eq)]
pub struct User {
    pub id: i32,
    pub email: String,
    pub first_name: String,
    pub last_name: String,
    pub role: String,
    pub email_verified: bool,
    pub created_at: Timestamp,
}

/// A unit of support work.
#[derive(Debug, Clone, PartialEq, Eq)]
pub struct Ticket {
    pub id: i32,
    pub title: String,
    pub description: String,
    pub status: String,
    pub priority: String,
    pub customer_id: i32,
    pub assigned_agent_id: Option<i32>,
    pub created_at: Timestamp,
    pub updated_at: Option<Timestamp>,
    pub resolved_at: Option<Timestamp>,
}

/// An append-only annotation on a ticket.
#[derive(Debug, Clone, PartialEq, Eq)]
pub struct Comment {
    pub id: i32,
    pub ticket_id: i32,
    pub user_id: i32,
    pub content: String,
    pub created_at: Timestamp,
}

/// A record of an event relevant to a user.
#[derive(Debug, Clone, PartialEq, Eq)]
pub struct Notification {
    pub id: i32,
    pub user_id: i32,
    pub notification_type: String,
    pub title: String,
    pub message: String,
    pub read: bool,
    pub created_at: Timestamp,
    pub ticket_id: Option<i32>,
}

#[derive(Debug, Clone, PartialEq, Eq)]
pub struct RegisterRequest {
    pub email: String,
    pub password: String,
    pub first_name: String,
    pub last_name: String,
    pub role: String,
}

#[derive(Debug, Clone, PartialEq, Eq)]
pub struct LoginRequest {
    pub email: String,
    pub password: String,
}

#[derive(Debug, Clone, PartialEq, Eq)]
pub struct LoginResponse {
    pub token: String,
    pub user: User,
}

#[derive(Debug, Clone, PartialEq, Eq)]
pub struct CreateTicketRequest {
    pub title: String,
    pub description: String,
    pub priority: String,
    pub customer_id: i32,
}

/// A partial update: `None` keeps the current value.
#[derive(Debug, Clone, PartialEq, Eq)]
pub struct UpdateTicketRequest {
    pub title: Option<String>,
    pub description: Option<String>,
    pub status: Option<String>,
    pub priority: Option<String>,
    pub assigned_agent_id: Option<i32>,
}

#[derive(Debug, Clone, PartialEq, Eq)]
pub struct CreateCommentRequest {
    pub content: String,
    pub user_id: i32,
}

/// The assertions carried by a session token; `exp` is in seconds since the epoch.
#[derive(Debug, Clone, PartialEq, Eq)]
pub struct JwtClaims {
    pub sub: i32,
    pub email: String,
    pub role: String,
    pub exp: i64,
}

/// The answer of the health probe.
pub fn health_check() -> (r: HealthResponse)
    ensures
        r.status@ == "ok"@,
        r.message@ == "Support Ticketing System is running"@,
{
    HealthResponse {
        status: "ok".to_owned(),
        message: "Support Ticketing System is running".to_owned(),
    }
}

impl UpdateTicketRequest {
    /// True when no field is supplied.
    pub open spec fn spec_is_empty(&self) -> bool {
        &&& self.title is None
        &&& self.description is None
        &&& self.status is None
        &&& self.priority is None
        &&& self.assigned_agent_id is None
    }

    pub fn is_empty(&self) -> (r: bool)
        ensures
            r == self.spec_is_empty(),
    {
        self.title.is_none() && self.description.is_none() && self.status.is_none()
            && self.priority.is_none() && self.assigned_agent_id.is_none()
    }
}

} // verus!
