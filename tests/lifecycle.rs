use ticketdesk::credential::{hash_password, verify_password};
use ticketdesk::error::{ApiError, TokenError};
use ticketdesk::model::{
    health_check, CreateCommentRequest, CreateTicketRequest, LoginRequest, RegisterRequest,
    UpdateTicketRequest,
};
use ticketdesk::notify::{push_decimal, ticket_email, welcome_email};
use ticketdesk::store::{apply_update, Store};
use ticketdesk::token::{
    check_claims, claims_at, claims_at_micros, issue_claims, seconds_of, TOKEN_LIFETIME_SECS,
};

fn register_req(email: &str, password: &str, first: &str, role: &str) -> RegisterRequest {
    RegisterRequest {
        email: email.to_string(),
        password: password.to_string(),
        first_name: first.to_string(),
        last_name: "Doe".to_string(),
        role: role.to_string(),
    }
}

fn no_fields() -> UpdateTicketRequest {
    UpdateTicketRequest {
        title: None,
        description: None,
        status: None,
        priority: None,
        assigned_agent_id: None,
    }
}

fn ticket_req(customer_id: i32, priority: &str) -> CreateTicketRequest {
    CreateTicketRequest {
        title: "Printer jam".to_string(),
        description: "The printer on floor 2 jams".to_string(),
        priority: priority.to_string(),
        customer_id,
    }
}

/// A store with one customer (id 1) and one ticket (id 1).
fn store_with_ticket() -> Store {
    let mut s = Store::new();
    let u = s.register(register_req("bob@x.com", "pw", "Bob", "customer"), 100).unwrap();
    s.create_ticket(ticket_req(u.id, "low"), 200).unwrap();
    s
}

#[test]
fn hash_then_verify_accepts_same_password() {
    let rec = hash_password("correct horse").unwrap();
    assert_ne!(rec, "correct horse");
    assert!(rec.starts_with("$argon2"));
    assert_eq!(verify_password("correct horse", &rec), Ok(true));
    assert_eq!(verify_password("battery staple", &rec), Ok(false));
}

#[test]
fn hashing_twice_uses_fresh_salts() {
    let a = hash_password("same").unwrap();
    let b = hash_password("same").unwrap();
    assert_ne!(a, b);
}

#[test]
fn corrupt_record_is_a_format_error() {
    assert_eq!(verify_password("pw", "not a hash"), Err(ApiError::CredentialFormat));
}

#[test]
fn claims_round_trip_within_lifetime() {
    let c = claims_at(5, "a@x.com".to_string(), "agent".to_string(), 1_000).unwrap();
    assert_eq!(c.exp, 1_000 + 86_400);
    assert_eq!(TOKEN_LIFETIME_SECS, 86_400);
    let back = check_claims(Some(c.clone()), 1_000 + 86_399).unwrap();
    assert_eq!(back, c);
    assert_eq!(back.sub, 5);
    assert_eq!(back.email, "a@x.com");
    assert_eq!(back.role, "agent");
}

#[test]
fn claims_expire_after_lifetime() {
    let c = claims_at(5, "a@x.com".to_string(), "agent".to_string(), 1_000).unwrap();
    assert_eq!(check_claims(Some(c), 1_000 + 86_401), Err(TokenError::Expired));
}

#[test]
fn undecodable_token_is_invalid() {
    assert_eq!(check_claims(None, 0), Err(TokenError::Invalid));
}

#[test]
fn claims_refused_when_expiry_overflows() {
    assert!(claims_at(1, "e".to_string(), "r".to_string(), i64::MAX - 10).is_none());
}

#[test]
fn issued_claims_carry_identity() {
    let c = issue_claims(9, "z@x.com".to_string(), "admin".to_string());
    assert_eq!(c.sub, 9);
    assert_eq!(c.email, "z@x.com");
    assert_eq!(c.role, "admin");
    assert!(c.exp > 1_600_000_000);
}

#[test]
fn second_registration_conflicts() {
    let mut s = Store::new();
    let first = s.register(register_req("alice@x.com", "pw1", "Alice", "customer"), 10).unwrap();
    let before = s.clone();
    let second = s.register(register_req("alice@x.com", "pw2", "Eve", "admin"), 20);
    assert_eq!(second, Err(ApiError::Conflict));
    assert_eq!(s, before);
    assert_eq!(s.users.len(), 1);
    assert_eq!(s.users[0].user, first);
    assert_eq!(s.login(&LoginRequest { email: "alice@x.com".to_string(), password: "pw1".to_string() }), Ok(first));
}

#[test]
fn empty_update_is_bad_request() {
    let mut s = store_with_ticket();
    let before = s.clone();
    assert_eq!(s.update_ticket(1, no_fields(), 300), Err(ApiError::BadRequest));
    assert_eq!(s, before);
    assert_eq!(s.update_ticket(99, no_fields(), 300), Err(ApiError::BadRequest));
}

#[test]
fn status_update_changes_only_status_and_stamp() {
    let mut s = store_with_ticket();
    let before = s.get_ticket(1).unwrap();
    let mut req = no_fields();
    req.status = Some("closed".to_string());
    let after = s.update_ticket(1, req, 300).unwrap();
    assert_eq!(after.status, "closed");
    assert_eq!(after.updated_at, Some(300));
    assert_eq!(after.title, before.title);
    assert_eq!(after.description, before.description);
    assert_eq!(after.priority, before.priority);
    assert_eq!(after.assigned_agent_id, before.assigned_agent_id);
    assert_eq!(after.customer_id, before.customer_id);
    assert_eq!(after.created_at, before.created_at);
    assert_eq!(after.resolved_at, before.resolved_at);
    assert_eq!(s.get_ticket(1), Ok(after));
}

#[test]
fn update_of_missing_ticket_is_not_found() {
    let mut s = store_with_ticket();
    let mut req = no_fields();
    req.title = Some("x".to_string());
    assert_eq!(s.update_ticket(42, req, 300), Err(ApiError::NotFound));
}

#[test]
fn delete_missing_then_existing() {
    let mut s = store_with_ticket();
    assert_eq!(s.delete_ticket(77), Err(ApiError::NotFound));
    assert_eq!(s.delete_ticket(1), Ok(()));
    assert_eq!(s.get_ticket(1), Err(ApiError::NotFound));
    assert_eq!(s.delete_ticket(1), Err(ApiError::NotFound));
}

#[test]
fn register_login_ticket_comment_flow() {
    let mut s = Store::new();
    let a = s.register(register_req("alice@x.com", "s3cret", "Alice", "customer"), 1).unwrap();
    assert_eq!(a.email, "alice@x.com");
    assert_eq!(a.role, "customer");
    assert!(!a.email_verified);
    let logged = s
        .login(&LoginRequest { email: "alice@x.com".to_string(), password: "s3cret".to_string() })
        .unwrap();
    assert_eq!(logged, a);
    let t = s.create_ticket(ticket_req(a.id, "high"), 2).unwrap();
    assert_eq!(t.status, "open");
    assert_eq!(t.priority, "high");
    assert_eq!(t.customer_id, a.id);
    assert_eq!(t.assigned_agent_id, None);
    assert_eq!(t.resolved_at, None);
    assert_eq!(t.updated_at, None);
    let c = s
        .add_comment(t.id, CreateCommentRequest { content: "Any news?".to_string(), user_id: a.id }, 3)
        .unwrap();
    let cs = s.ticket_comments(t.id);
    assert_eq!(cs.len(), 1);
    assert_eq!(cs[0], c);
    assert_eq!(cs[0].user_id, a.id);
    assert_eq!(cs[0].content, "Any news?");
}

#[test]
fn assign_agent_keeps_other_fields() {
    let mut s = store_with_ticket();
    let before = s.get_ticket(1).unwrap();
    let mut req = no_fields();
    req.assigned_agent_id = Some(7);
    s.update_ticket(1, req, 500).unwrap();
    let after = s.get_ticket(1).unwrap();
    assert_eq!(after.assigned_agent_id, Some(7));
    assert_eq!(after.updated_at, Some(500));
    let mut expected = before.clone();
    expected.assigned_agent_id = Some(7);
    expected.updated_at = Some(500);
    assert_eq!(after, expected);
}

#[test]
fn login_failures() {
    let mut s = Store::new();
    s.register(register_req("a@x.com", "right", "A", "agent"), 1).unwrap();
    let wrong = LoginRequest { email: "a@x.com".to_string(), password: "wrong".to_string() };
    assert_eq!(s.login(&wrong), Err(ApiError::Unauthorized));
    let unknown = LoginRequest { email: "b@x.com".to_string(), password: "right".to_string() };
    assert_eq!(s.login(&unknown), Err(ApiError::Unauthorized));
    s.users[0].password_hash = "garbage".to_string();
    let right = LoginRequest { email: "a@x.com".to_string(), password: "right".to_string() };
    assert_eq!(s.login(&right), Err(ApiError::CredentialFormat));
}

#[test]
fn ticket_needs_existing_customer() {
    let mut s = Store::new();
    assert_eq!(s.create_ticket(ticket_req(3, "low"), 1), Err(ApiError::Persistence));
    assert_eq!(s.tickets.len(), 0);
}

#[test]
fn comment_needs_existing_ticket_and_author() {
    let mut s = store_with_ticket();
    let req = CreateCommentRequest { content: "hi".to_string(), user_id: 1 };
    assert_eq!(s.add_comment(9, req.clone(), 5), Err(ApiError::Persistence));
    let stranger = CreateCommentRequest { content: "hi".to_string(), user_id: 9 };
    assert_eq!(s.add_comment(1, stranger, 5), Err(ApiError::Persistence));
    assert!(s.add_comment(1, req, 5).is_ok());
}

#[test]
fn comments_listed_per_ticket_oldest_first() {
    let mut s = store_with_ticket();
    s.create_ticket(ticket_req(1, "urgent"), 250).unwrap();
    let c1 = s.add_comment(1, CreateCommentRequest { content: "one".to_string(), user_id: 1 }, 300).unwrap();
    s.add_comment(2, CreateCommentRequest { content: "other".to_string(), user_id: 1 }, 301).unwrap();
    let c3 = s.add_comment(1, CreateCommentRequest { content: "two".to_string(), user_id: 1 }, 302).unwrap();
    assert_eq!(s.ticket_comments(1), vec![c1, c3]);
    assert_eq!(s.ticket_comments(5), vec![]);
}

#[test]
fn lists_are_newest_first() {
    let mut s = store_with_ticket();
    let t2 = s.create_ticket(ticket_req(1, "medium"), 300).unwrap();
    let tickets = s.list_tickets();
    assert_eq!(tickets.len(), 2);
    assert_eq!(tickets[0], t2);
    assert_eq!(tickets[1].id, 1);
    let u2 = s.register(register_req("c@x.com", "pw", "C", "admin"), 400).unwrap();
    let users = s.list_users();
    assert_eq!(users[0], u2);
    assert_eq!(users[1].email, "bob@x.com");
}

#[test]
fn notifications_mark_read() {
    let mut s = store_with_ticket();
    let n = s
        .add_notification(1, "ticket_created".to_string(), "New".to_string(), "msg".to_string(), Some(1), 10)
        .unwrap();
    assert!(!n.read);
    assert_eq!(n.id, 1);
    let read = s.mark_notification_read(1).unwrap();
    assert!(read.read);
    assert_eq!(read.title, "New");
    assert_eq!(s.list_notifications(), vec![read]);
    assert_eq!(s.mark_notification_read(2), Err(ApiError::NotFound));
    assert_eq!(
        s.add_notification(8, "t".to_string(), "x".to_string(), "y".to_string(), None, 11),
        Err(ApiError::Persistence)
    );
    assert_eq!(
        s.add_notification(1, "t".to_string(), "x".to_string(), "y".to_string(), Some(4), 11),
        Err(ApiError::Persistence)
    );
}

#[test]
fn apply_update_coalesces() {
    let s = store_with_ticket();
    let t = s.get_ticket(1).unwrap();
    let req = UpdateTicketRequest {
        title: Some("New title".to_string()),
        description: None,
        status: Some("in_progress".to_string()),
        priority: Some("urgent".to_string()),
        assigned_agent_id: None,
    };
    let u = apply_update(&t, req, 900);
    assert_eq!(u.title, "New title");
    assert_eq!(u.description, t.description);
    assert_eq!(u.status, "in_progress");
    assert_eq!(u.priority, "urgent");
    assert_eq!(u.updated_at, Some(900));
}

#[test]
fn notice_messages_have_exact_text() {
    let w = welcome_email("alice@x.com", "Alice");
    assert_eq!(w.to, "alice@x.com");
    assert_eq!(w.subject, "Welcome to Support Ticketing System!");
    assert_eq!(
        w.body,
        "Dear Alice,\n\nWelcome to our Support Ticketing System! Your account has been created successfully.\n\nBest regards,\nSupport Team"
    );
    let t = ticket_email("bob@x.com", "Printer jam", 42);
    assert_eq!(t.subject, "New Ticket Created - #42");
    assert_eq!(
        t.body,
        "A new ticket has been created:\n\nTitle: Printer jam\nTicket ID: 42\n\nWe will review your request and get back to you soon.\n\nBest regards,\nSupport Team"
    );
}

#[test]
fn decimal_text() {
    let mut s = String::new();
    push_decimal(&mut s, 0);
    push_decimal(&mut s, -2147483648);
    push_decimal(&mut s, 1907);
    assert_eq!(s, "0-21474836481907");
}

#[test]
fn ticket_notice_goes_to_customer() {
    let mut s = store_with_ticket();
    let t = s.get_ticket(1).unwrap();
    let m = s.ticket_notice(&t).unwrap();
    assert_eq!(m.to, "bob@x.com");
    assert_eq!(m.subject, "New Ticket Created - #1");
    let mut orphan = t.clone();
    orphan.customer_id = 55;
    assert_eq!(s.ticket_notice(&orphan), None);
    s.delete_ticket(1).unwrap();
}

#[test]
fn status_codes_and_health() {
    assert_eq!(ApiError::NotFound.status_code(), 404);
    assert_eq!(ApiError::Conflict.status_code(), 409);
    assert_eq!(ApiError::Unauthorized.status_code(), 401);
    assert_eq!(ApiError::BadRequest.status_code(), 400);
    assert_eq!(ApiError::Persistence.status_code(), 500);
    assert_eq!(ApiError::CredentialFormat.status_code(), 500);
    assert_eq!(ApiError::Internal.status_code(), 500);
    assert_eq!(TokenError::Expired.status_code(), 401);
    let h = health_check();
    assert_eq!(h.status, "ok");
    assert_eq!(h.message, "Support Ticketing System is running");
}

#[test]
fn unknown_labels_are_persistence_errors() {
    let mut s = store_with_ticket();
    let before = s.clone();
    assert_eq!(
        s.register(register_req("root@x.com", "pw", "Root", "superuser"), 300),
        Err(ApiError::Persistence)
    );
    assert_eq!(s.create_ticket(ticket_req(1, "critical"), 300), Err(ApiError::Persistence));
    let mut req = no_fields();
    req.status = Some("bogus".to_string());
    assert_eq!(s.update_ticket(1, req, 300), Err(ApiError::Persistence));
    let mut req = no_fields();
    req.priority = Some("whenever".to_string());
    assert_eq!(s.update_ticket(1, req, 300), Err(ApiError::Persistence));
    assert_eq!(s, before);
}

#[test]
fn custom_labels_are_honoured() {
    let mut s = Store::with_labels(
        vec!["member".to_string()],
        vec!["new".to_string()],
        vec!["p1".to_string()],
    );
    assert_eq!(s.register(register_req("a@x.com", "pw", "A", "customer"), 1), Err(ApiError::Persistence));
    let u = s.register(register_req("a@x.com", "pw", "A", "member"), 1).unwrap();
    assert!(s.create_ticket(ticket_req(u.id, "p1"), 2).is_ok());
    assert_eq!(s.create_ticket(ticket_req(u.id, "low"), 3), Err(ApiError::Persistence));
}

#[test]
fn creation_times_never_go_back() {
    let mut s = store_with_ticket();
    let t2 = s.create_ticket(ticket_req(1, "high"), 150).unwrap();
    assert_eq!(t2.created_at, 200);
    let t3 = s.create_ticket(ticket_req(1, "high"), 250).unwrap();
    assert_eq!(t3.created_at, 250);
    let times: Vec<i64> = s.list_tickets().iter().map(|t| t.created_at).collect();
    assert_eq!(times, vec![250, 200, 200]);
    let c1 = s.add_comment(1, CreateCommentRequest { content: "a".to_string(), user_id: 1 }, 90).unwrap();
    let c2 = s.add_comment(1, CreateCommentRequest { content: "b".to_string(), user_id: 1 }, 80).unwrap();
    assert_eq!(c1.created_at, 90);
    assert_eq!(c2.created_at, 90);
    let u2 = s.register(register_req("late@x.com", "pw", "L", "agent"), 5).unwrap();
    assert_eq!(u2.created_at, 100);
}

#[test]
fn default_store_starts_counters_at_one() {
    let s = Store::new();
    assert_eq!(s.next_user_id, 1);
    assert_eq!(s.next_ticket_id, 1);
    assert_eq!(s.roles, vec!["customer", "agent", "admin"]);
    assert_eq!(s.statuses, vec!["open", "in_progress", "resolved", "closed"]);
    assert_eq!(s.priorities, vec!["low", "medium", "high", "urgent"]);
}

#[test]
fn claims_expire_at_the_expiry_second() {
    let c = claims_at(5, "a@x.com".to_string(), "agent".to_string(), 1_000).unwrap();
    assert_eq!(check_claims(Some(c.clone()), 1_000 + 86_399), Ok(c.clone()));
    assert_eq!(check_claims(Some(c), 1_000 + 86_400), Err(TokenError::Expired));
}

#[test]
fn seconds_round_down() {
    assert_eq!(seconds_of(0), 0);
    assert_eq!(seconds_of(1_999_999), 1);
    assert_eq!(seconds_of(-1), -1);
    assert_eq!(seconds_of(-1_000_000), -1);
    assert_eq!(seconds_of(-1_000_001), -2);
    assert_eq!(seconds_of(i64::MAX), 9_223_372_036_854);
}

#[test]
fn claims_from_clock_reading() {
    let c = claims_at_micros(4, "q@x.com".to_string(), "agent".to_string(), 1_700_000_000_500_000);
    assert_eq!(c.sub, 4);
    assert_eq!(c.email, "q@x.com");
    assert_eq!(c.role, "agent");
    assert_eq!(c.exp, 1_700_000_000 + 86_400);
    let late = claims_at_micros(1, "e".to_string(), "r".to_string(), i64::MAX);
    assert_eq!(late.exp, 9_223_372_036_854 + 86_400);
}

#[test]
fn login_at_builds_session_claims() {
    let mut s = Store::new();
    let a = s.register(register_req("alice@x.com", "pw", "Alice", "customer"), 1).unwrap();
    let req = LoginRequest { email: "alice@x.com".to_string(), password: "pw".to_string() };
    let (u, c) = s.login_at(&req, 5_000).unwrap();
    assert_eq!(u, a);
    assert_eq!(c.sub, a.id);
    assert_eq!(c.email, "alice@x.com");
    assert_eq!(c.role, "customer");
    assert_eq!(c.exp, 5_000 + 86_400);
    assert_eq!(s.login_at(&req, i64::MAX), Err(ApiError::Internal));
    let bad = LoginRequest { email: "alice@x.com".to_string(), password: "nope".to_string() };
    assert_eq!(s.login_at(&bad, 5_000), Err(ApiError::Unauthorized));
}
