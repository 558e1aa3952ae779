use vstd::prelude::*;
use crate::credential::{hash_password, verify_outcome, verify_password};
use crate::error::ApiError;
use crate::token::{claims_at, TOKEN_LIFETIME_SECS};
use crate::notify::{ticket_body, ticket_email, ticket_subject, OutgoingEmail};
use crate::model::{
    Comment, CreateCommentRequest, CreateTicketRequest, JwtClaims, LoginRequest, Notification,
    RegisterRequest, Ticket, Timestamp, UpdateTicketRequest, User,
};

verus! {

/// A user row: the public record and its stored password hash.
#[derive(Debug, Clone, PartialEq, Eq)]
pub struct UserRecord {
    pub user: User,
    pub password_hash: String,
}

/// The row store behind the service: one table per entity, rows in order of insertion,
/// ids assigned by the store in increasing order, creation times never decreasing along
/// a table. The label sets are the values that the enumerated text columns accept.
#[derive(Debug, Clone, PartialEq, Eq)]
pub struct Store {
    pub users: Vec<UserRecord>,
    pub tickets: Vec<Ticket>,
    pub comments: Vec<Comment>,
    pub notifications: Vec<Notification>,
    pub next_user_id: i32,
    pub next_ticket_id: i32,
    pub next_comment_id: i32,
    pub next_notification_id: i32,
    pub roles: Vec<String>,
    pub statuses: Vec<String>,
    pub priorities: Vec<String>,
}

/// The text is one of the labels.
pub open spec fn has_label(labels: Seq<String>, s: Seq<char>) -> bool {
    exists|i: int| 0 <= i < labels.len() && labels[i]@ == s
}

/// The creation time a new row gets: `now`, or the table's latest time where the clock
/// reads earlier than that.
pub open spec fn stamp_after(latest: Option<Timestamp>, now: Timestamp) -> Timestamp {
    match latest {
        Some(t) => if now < t {
            t
        } else {
            now
        },
        None => now,
    }
}

pub open spec fn latest_user(s: Seq<UserRecord>) -> Option<Timestamp> {
    if s.len() == 0 {
        None
    } else {
        Some(s.last().user.created_at)
    }
}

pub open spec fn latest_ticket(s: Seq<Ticket>) -> Option<Timestamp> {
    if s.len() == 0 {
        None
    } else {
        Some(s.last().created_at)
    }
}

pub open spec fn latest_comment(s: Seq<Comment>) -> Option<Timestamp> {
    if s.len() == 0 {
        None
    } else {
        Some(s.last().created_at)
    }
}

pub open spec fn latest_notification(s: Seq<Notification>) -> Option<Timestamp> {
    if s.len() == 0 {
        None
    } else {
        Some(s.last().created_at)
    }
}

/// Creation times never decrease along a sequence of times.
pub open spec fn times_ordered(ts: Seq<Timestamp>) -> bool {
    forall|i: int, j: int| 0 <= i < j < ts.len() ==> ts[i] <= ts[j]
}

pub open spec fn user_times(s: Seq<UserRecord>) -> Seq<Timestamp> {
    s.map_values(|r: UserRecord| r.user.created_at)
}

pub open spec fn ticket_times(s: Seq<Ticket>) -> Seq<Timestamp> {
    s.map_values(|t: Ticket| t.created_at)
}

pub open spec fn comment_times(s: Seq<Comment>) -> Seq<Timestamp> {
    s.map_values(|c: Comment| c.created_at)
}

pub open spec fn notification_times(s: Seq<Notification>) -> Seq<Timestamp> {
    s.map_values(|n: Notification| n.created_at)
}

/// The default labels of the `role`, `status` and `priority` columns.
pub open spec fn default_roles() -> Seq<Seq<char>> {
    seq!["customer"@, "agent"@, "admin"@]
}

pub open spec fn default_statuses() -> Seq<Seq<char>> {
    seq!["open"@, "in_progress"@, "resolved"@, "closed"@]
}

pub open spec fn default_priorities() -> Seq<Seq<char>> {
    seq!["low"@, "medium"@, "high"@, "urgent"@]
}

pub open spec fn label_texts(labels: Seq<String>) -> Seq<Seq<char>> {
    labels.map_values(|l: String| l@)
}

fn find_label(labels: &Vec<String>, s: &String) -> (r: bool)
    ensures
        r == has_label(labels@, s@),
{
    let mut i: usize = 0;
    while i < labels.len()
        invariant
            i <= labels@.len(),
            forall|k: int| 0 <= k < i ==> labels@[k]@ != s@,
        decreases labels@.len() - i,
    {
        if labels[i] == *s {
            return true;
        }
        i = i + 1;
    }
    false
}


/// Ids strictly increase along a table, are positive and lie below the next id to assign.
pub open spec fn ids_ordered(ids: Seq<i32>, next: i32) -> bool {
    &&& forall|i: int, j: int| 0 <= i < j < ids.len() ==> ids[i] < ids[j]
    &&& forall|i: int| 0 <= i < ids.len() ==> 1 <= #[trigger] ids[i] && ids[i] < next
    &&& next >= 1
}

pub open spec fn user_ids(s: Seq<UserRecord>) -> Seq<i32> {
    s.map_values(|r: UserRecord| r.user.id)
}

pub open spec fn ticket_ids(s: Seq<Ticket>) -> Seq<i32> {
    s.map_values(|t: Ticket| t.id)
}

pub open spec fn comment_ids(s: Seq<Comment>) -> Seq<i32> {
    s.map_values(|c: Comment| c.id)
}

pub open spec fn notification_ids(s: Seq<Notification>) -> Seq<i32> {
    s.map_values(|n: Notification| n.id)
}

/// Some user row holds this email.
pub open spec fn email_taken(users: Seq<UserRecord>, email: Seq<char>) -> bool {
    exists|i: int| 0 <= i < users.len() && users[i].user.email@ == email
}

pub open spec fn has_user(users: Seq<UserRecord>, id: i32) -> bool {
    exists|i: int| 0 <= i < users.len() && users[i].user.id == id
}

pub open spec fn has_ticket(tickets: Seq<Ticket>, id: i32) -> bool {
    exists|i: int| 0 <= i < tickets.len() && tickets[i].id == id
}

pub open spec fn has_notification(ns: Seq<Notification>, id: i32) -> bool {
    exists|i: int| 0 <= i < ns.len() && ns[i].id == id
}

/// The position of the ticket with this id (meaningful where `has_ticket`).
pub open spec fn ticket_pos(tickets: Seq<Ticket>, id: i32) -> int {
    choose|i: int| 0 <= i < tickets.len() && tickets[i].id == id
}

pub open spec fn notification_pos(ns: Seq<Notification>, id: i32) -> int {
    choose|i: int| 0 <= i < ns.len() && ns[i].id == id
}

pub open spec fn user_pos_by_email(users: Seq<UserRecord>, email: Seq<char>) -> int {
    choose|i: int| 0 <= i < users.len() && users[i].user.email@ == email
}

/// What reading one ticket yields.
pub open spec fn spec_get_ticket(tickets: Seq<Ticket>, id: i32) -> Result<Ticket, ApiError> {
    if has_ticket(tickets, id) {
        Ok(tickets[ticket_pos(tickets, id)])
    } else {
        Err(ApiError::NotFound)
    }
}

/// `s` reversed: the last inserted row first (in a well-formed store, the rows by
/// creation time, most recent first).
pub open spec fn newest_first<A>(s: Seq<A>) -> Seq<A> {
    Seq::new(s.len(), |i: int| s[s.len() - 1 - i])
}

/// The comments of one ticket, oldest first.
pub open spec fn comments_of(comments: Seq<Comment>, ticket_id: i32) -> Seq<Comment> {
    comments.filter(|c: Comment| c.ticket_id == ticket_id)
}

/// What a login with these credentials yields.
pub open spec fn spec_login(users: Seq<UserRecord>, email: Seq<char>, password: Seq<char>) -> Result<
    User,
    ApiError,
> {
    if email_taken(users, email) {
        let rec = users[user_pos_by_email(users, email)];
        match verify_outcome(password, rec.password_hash@) {
            Ok(true) => Ok(rec.user),
            Ok(false) => Err(ApiError::Unauthorized),
            Err(e) => Err(e),
        }
    } else {
        Err(ApiError::Unauthorized)
    }
}

/// Coalesce semantics: each supplied field replaces the current one, the others stay;
/// `updated_at` is stamped with `now` in any case.
pub open spec fn spec_apply_update(t: Ticket, req: UpdateTicketRequest, now: Timestamp) -> Ticket {
    Ticket {
        title: match req.title {
            Some(v) => v,
            None => t.title,
        },
        description: match req.description {
            Some(v) => v,
            None => t.description,
        },
        status: match req.status {
            Some(v) => v,
            None => t.status,
        },
        priority: match req.priority {
            Some(v) => v,
            None => t.priority,
        },
        assigned_agent_id: match req.assigned_agent_id {
            Some(v) => Some(v),
            None => t.assigned_agent_id,
        },
        updated_at: Some(now),
        ..t
    }
}

fn copy_string(s: &String) -> (r: String)
    ensures
        r == *s,
{
    s.clone()
}

fn copy_user(u: &User) -> (r: User)
    ensures
        r == *u,
{
    User {
        id: u.id,
        email: copy_string(&u.email),
        first_name: copy_string(&u.first_name),
        last_name: copy_string(&u.last_name),
        role: copy_string(&u.role),
        email_verified: u.email_verified,
        created_at: u.created_at,
    }
}

fn copy_ticket(t: &Ticket) -> (r: Ticket)
    ensures
        r == *t,
{
    Ticket {
        id: t.id,
        title: copy_string(&t.title),
        description: copy_string(&t.description),
        status: copy_string(&t.status),
        priority: copy_string(&t.priority),
        customer_id: t.customer_id,
        assigned_agent_id: t.assigned_agent_id,
        created_at: t.created_at,
        updated_at: t.updated_at,
        resolved_at: t.resolved_at,
    }
}

fn copy_comment(c: &Comment) -> (r: Comment)
    ensures
        r == *c,
{
    Comment {
        id: c.id,
        ticket_id: c.ticket_id,
        user_id: c.user_id,
        content: copy_string(&c.content),
        created_at: c.created_at,
    }
}

fn copy_notification(n: &Notification) -> (r: Notification)
    ensures
        r == *n,
{
    Notification {
        id: n.id,
        user_id: n.user_id,
        notification_type: copy_string(&n.notification_type),
        title: copy_string(&n.title),
        message: copy_string(&n.message),
        read: n.read,
        created_at: n.created_at,
        ticket_id: n.ticket_id,
    }
}

/// Applies a partial update to one ticket row.
pub fn apply_update(t: &Ticket, req: UpdateTicketRequest, now: Timestamp) -> (r: Ticket)
    ensures
        r == spec_apply_update(*t, req, now),
{
    let t = copy_ticket(t);
    Ticket {
        title: match req.title {
            Some(v) => v,
            None => t.title,
        },
        description: match req.description {
            Some(v) => v,
            None => t.description,
        },
        status: match req.status {
            Some(v) => v,
            None => t.status,
        },
        priority: match req.priority {
            Some(v) => v,
            None => t.priority,
        },
        assigned_agent_id: match req.assigned_agent_id {
            Some(v) => Some(v),
            None => t.assigned_agent_id,
        },
        updated_at: Some(now),
        ..t
    }
}

/// Every table but `tickets`, and every id counter, is unchanged.
pub open spec fn same_except_tickets(a: Store, b: Store) -> bool {
    &&& b.users == a.users
    &&& b.comments == a.comments
    &&& b.notifications == a.notifications
    &&& b.next_user_id == a.next_user_id
    &&& b.next_ticket_id == a.next_ticket_id
    &&& b.next_comment_id == a.next_comment_id
    &&& b.next_notification_id == a.next_notification_id
    &&& same_labels(a, b)
}

/// The label sets are unchanged.
pub open spec fn same_labels(a: Store, b: Store) -> bool {
    &&& b.roles == a.roles
    &&& b.statuses == a.statuses
    &&& b.priorities == a.priorities
}

/// The supplied status and priority, if any, are labels the store accepts.
pub open spec fn update_labels_ok(s: Store, req: UpdateTicketRequest) -> bool {
    &&& req.status matches Some(v) ==> has_label(s.statuses@, v@)
    &&& req.priority matches Some(v) ==> has_label(s.priorities@, v@)
}

/// The outcome of registering `req` at time `now` on `old`, leaving `new`.
pub open spec fn register_post(
    old: Store,
    new: Store,
    req: RegisterRequest,
    now: Timestamp,
    r: Result<User, ApiError>,
) -> bool {
    &&& email_taken(old.users@, req.email@) <==> r == Err::<User, ApiError>(ApiError::Conflict)
    &&& !email_taken(old.users@, req.email@) && (!has_label(old.roles@, req.role@)
        || old.next_user_id == i32::MAX) ==> r == Err::<User, ApiError>(ApiError::Persistence)
    &&& !email_taken(old.users@, req.email@) && has_label(old.roles@, req.role@)
        && old.next_user_id < i32::MAX ==> (r is Ok || r == Err::<User, ApiError>(
        ApiError::Internal))
    &&& !email_taken(old.users@, req.email@) && has_label(old.roles@, req.role@)
        && old.next_user_id < i32::MAX && req.password@.len() <= 0x3FFFFFFF ==> r is Ok
    &&& match r {
        Err(_) => new == old,
        Ok(u) => {
            &&& u == User {
                id: old.next_user_id,
                email: req.email,
                first_name: req.first_name,
                last_name: req.last_name,
                role: req.role,
                email_verified: false,
                created_at: stamp_after(latest_user(old.users@), now),
            }
            &&& new.users@.len() == old.users@.len() + 1
            &&& new.users@.drop_last() == old.users@
            &&& new.users@.last().user == u
            &&& verify_outcome(req.password@, new.users@.last().password_hash@) == Ok::<
                bool,
                ApiError,
            >(true)
            &&& new.tickets == old.tickets
            &&& new.comments == old.comments
            &&& new.notifications == old.notifications
            &&& new.next_user_id == old.next_user_id + 1
            &&& new.next_ticket_id == old.next_ticket_id
            &&& new.next_comment_id == old.next_comment_id
            &&& new.next_notification_id == old.next_notification_id
            &&& same_labels(old, new)
        },
    }
}

/// The outcome of creating a ticket from `req` at time `now`.
pub open spec fn create_ticket_post(
    old: Store,
    new: Store,
    req: CreateTicketRequest,
    now: Timestamp,
    r: Result<Ticket, ApiError>,
) -> bool {
    &&& (has_user(old.users@, req.customer_id) && has_label(old.priorities@, req.priority@)
        && old.next_ticket_id < i32::MAX) <==> r is Ok
    &&& match r {
        Err(e) => e == ApiError::Persistence && new == old,
        Ok(t) => {
            &&& t.id == old.next_ticket_id
            &&& t.title == req.title
            &&& t.description == req.description
            &&& t.status@ == "open"@
            &&& t.priority == req.priority
            &&& t.customer_id == req.customer_id
            &&& t.assigned_agent_id is None
            &&& t.created_at == stamp_after(latest_ticket(old.tickets@), now)
            &&& t.updated_at is None
            &&& t.resolved_at is None
            &&& new.tickets@ == old.tickets@.push(t)
            &&& new.users == old.users
            &&& new.comments == old.comments
            &&& new.notifications == old.notifications
            &&& new.next_user_id == old.next_user_id
            &&& new.next_ticket_id == old.next_ticket_id + 1
            &&& new.next_comment_id == old.next_comment_id
            &&& new.next_notification_id == old.next_notification_id
            &&& same_labels(old, new)
        },
    }
}

/// The outcome of a partial update of ticket `id` at time `now`.
pub open spec fn update_post(
    old: Store,
    new: Store,
    id: i32,
    req: UpdateTicketRequest,
    now: Timestamp,
    r: Result<Ticket, ApiError>,
) -> bool {
    if req.spec_is_empty() {
        r == Err::<Ticket, ApiError>(ApiError::BadRequest) && new == old
    } else if !has_ticket(old.tickets@, id) {
        r == Err::<Ticket, ApiError>(ApiError::NotFound) && new == old
    } else if !update_labels_ok(old, req) {
        r == Err::<Ticket, ApiError>(ApiError::Persistence) && new == old
    } else {
        let p = ticket_pos(old.tickets@, id);
        let t = spec_apply_update(old.tickets@[p], req, now);
        &&& r == Ok::<Ticket, ApiError>(t)
        &&& new.tickets@ == old.tickets@.update(p, t)
        &&& same_except_tickets(old, new)
    }
}

/// The outcome of deleting ticket `id`.
pub open spec fn delete_post(old: Store, new: Store, id: i32, r: Result<(), ApiError>) -> bool {
    if !has_ticket(old.tickets@, id) {
        r == Err::<(), ApiError>(ApiError::NotFound) && new == old
    } else {
        &&& r is Ok
        &&& new.tickets@ == old.tickets@.remove(ticket_pos(old.tickets@, id))
        &&& same_except_tickets(old, new)
    }
}

/// The outcome of appending a comment to ticket `ticket_id` at time `now`.
pub open spec fn add_comment_post(
    old: Store,
    new: Store,
    ticket_id: i32,
    req: CreateCommentRequest,
    now: Timestamp,
    r: Result<Comment, ApiError>,
) -> bool {
    &&& (has_ticket(old.tickets@, ticket_id) && has_user(old.users@, req.user_id)
        && old.next_comment_id < i32::MAX) <==> r is Ok
    &&& match r {
        Err(e) => e == ApiError::Persistence && new == old,
        Ok(c) => {
            &&& c == Comment {
                id: old.next_comment_id,
                ticket_id,
                user_id: req.user_id,
                content: req.content,
                created_at: stamp_after(latest_comment(old.comments@), now),
            }
            &&& new.comments@ == old.comments@.push(c)
            &&& new.users == old.users
            &&& new.tickets == old.tickets
            &&& new.notifications == old.notifications
            &&& new.next_user_id == old.next_user_id
            &&& new.next_ticket_id == old.next_ticket_id
            &&& new.next_comment_id == old.next_comment_id + 1
            &&& new.next_notification_id == old.next_notification_id
            &&& same_labels(old, new)
        },
    }
}

/// Whether a notification may reference these rows.
pub open spec fn notification_refs_ok(s: Store, user_id: i32, ticket_id: Option<i32>) -> bool {
    &&& has_user(s.users@, user_id)
    &&& ticket_id matches Some(t) ==> has_ticket(s.tickets@, t)
}

/// The outcome of marking notification `id` as read.
pub open spec fn mark_read_post(
    old: Store,
    new: Store,
    id: i32,
    r: Result<Notification, ApiError>,
) -> bool {
    if !has_notification(old.notifications@, id) {
        r == Err::<Notification, ApiError>(ApiError::NotFound) && new == old
    } else {
        let p = notification_pos(old.notifications@, id);
        let n = Notification { read: true, ..old.notifications@[p] };
        &&& r == Ok::<Notification, ApiError>(n)
        &&& new.notifications@ == old.notifications@.update(p, n)
        &&& new.users == old.users
        &&& new.tickets == old.tickets
        &&& new.comments == old.comments
        &&& new.next_user_id == old.next_user_id
        &&& new.next_ticket_id == old.next_ticket_id
        &&& new.next_comment_id == old.next_comment_id
        &&& new.next_notification_id == old.next_notification_id
        &&& same_labels(old, new)
    }
}

proof fn lemma_times_push(ts: Seq<Timestamp>, t: Timestamp)
    requires
        times_ordered(ts),
        ts.len() > 0 ==> ts.last() <= t,
    ensures
        times_ordered(ts.push(t)),
{
    assert forall|i: int, j: int| 0 <= i < j < ts.push(t).len() implies ts.push(t)[i]
        <= ts.push(t)[j] by {
        assert(ts.push(t)[i] == ts[i]);
        if j < ts.len() {
            assert(ts.push(t)[j] == ts[j]);
        } else {
            assert(ts[i] <= ts[ts.len() - 1]);
        }
    }
}

proof fn lemma_times_remove(ts: Seq<Timestamp>, p: int)
    requires
        times_ordered(ts),
        0 <= p < ts.len(),
    ensures
        times_ordered(ts.remove(p)),
{
    let r = ts.remove(p);
    assert forall|i: int, j: int| 0 <= i < j < r.len() implies r[i] <= r[j] by {
        let a = if i < p { i } else { i + 1 };
        let b = if j < p { j } else { j + 1 };
        assert(r[i] == ts[a]);
        assert(r[j] == ts[b]);
    }
}

fn stamp(latest: Option<Timestamp>, now: Timestamp) -> (r: Timestamp)
    ensures
        r == stamp_after(latest, now),
{
    match latest {
        Some(t) => if now < t {
            t
        } else {
            now
        },
        None => now,
    }
}

proof fn lemma_ids_push(ids: Seq<i32>, next: i32)
    requires
        ids_ordered(ids, next),
        next < i32::MAX,
    ensures
        ids_ordered(ids.push(next), (next + 1) as i32),
{
    assert forall|i: int| 0 <= i < ids.push(next).len() implies 1 <= #[trigger] ids.push(next)[i]
        && ids.push(next)[i] < next + 1 by {
        if i < ids.len() {
            assert(ids.push(next)[i] == ids[i]);
        }
    }
    assert forall|i: int, j: int| 0 <= i < j < ids.push(next).len() implies ids.push(next)[i]
        < ids.push(next)[j] by {
        if j < ids.len() {
            assert(ids.push(next)[j] == ids[j]);
        }
        assert(ids.push(next)[i] == ids[i]);
    }
}

proof fn lemma_ids_remove(ids: Seq<i32>, next: i32, p: int)
    requires
        ids_ordered(ids, next),
        0 <= p < ids.len(),
    ensures
        ids_ordered(ids.remove(p), next),
{
    let r = ids.remove(p);
    assert forall|i: int| 0 <= i < r.len() implies 1 <= #[trigger] r[i] && r[i] < next by {
        if i < p {
            assert(r[i] == ids[i]);
        } else {
            assert(r[i] == ids[i + 1]);
        }
    }
    assert forall|i: int, j: int| 0 <= i < j < r.len() implies r[i] < r[j] by {
        let a = if i < p { i } else { i + 1 };
        let b = if j < p { j } else { j + 1 };
        assert(r[i] == ids[a]);
        assert(r[j] == ids[b]);
    }
}

/// Ids in an ordered table identify one row each.
proof fn lemma_ids_unique(ids: Seq<i32>, next: i32, i: int, j: int)
    requires
        ids_ordered(ids, next),
        0 <= i < ids.len(),
        0 <= j < ids.len(),
        ids[i] == ids[j],
    ensures
        i == j,
{
    if i < j {
        assert(ids[i] < ids[j]);
    } else if j < i {
        assert(ids[j] < ids[i]);
    }
}

proof fn lemma_ticket_pos(s: Store, id: i32, i: int)
    requires
        s.wf(),
        0 <= i < s.tickets@.len(),
        s.tickets@[i].id == id,
    ensures
        has_ticket(s.tickets@, id),
        ticket_pos(s.tickets@, id) == i,
{
    let p = ticket_pos(s.tickets@, id);
    assert(has_ticket(s.tickets@, id));
    assert(ticket_ids(s.tickets@)[p] == s.tickets@[p].id);
    assert(ticket_ids(s.tickets@)[i] == s.tickets@[i].id);
    lemma_ids_unique(ticket_ids(s.tickets@), s.next_ticket_id, p, i);
}

proof fn lemma_notification_pos(s: Store, id: i32, i: int)
    requires
        s.wf(),
        0 <= i < s.notifications@.len(),
        s.notifications@[i].id == id,
    ensures
        has_notification(s.notifications@, id),
        notification_pos(s.notifications@, id) == i,
{
    let p = notification_pos(s.notifications@, id);
    assert(has_notification(s.notifications@, id));
    assert(notification_ids(s.notifications@)[p] == s.notifications@[p].id);
    assert(notification_ids(s.notifications@)[i] == s.notifications@[i].id);
    lemma_ids_unique(notification_ids(s.notifications@), s.next_notification_id, p, i);
}

/// Registering an email a second time is refused with `Conflict` and leaves the store,
/// and so the row written by the first registration, as it was.
pub proof fn lemma_register_twice(
    s0: Store,
    s1: Store,
    s2: Store,
    req: RegisterRequest,
    now1: Timestamp,
    now2: Timestamp,
    r1: Result<User, ApiError>,
    r2: Result<User, ApiError>,
)
    requires
        s0.wf(),
        register_post(s0, s1, req, now1, r1),
        r1 is Ok,
        register_post(s1, s2, req, now2, r2),
    ensures
        r2 == Err::<User, ApiError>(ApiError::Conflict),
        s2 == s1,
        s2.users@.last().user == r1->Ok_0,
{
    let last = s1.users@.len() - 1;
    assert(s1.users@[last].user.email@ == req.email@);
    assert(email_taken(s1.users@, req.email@));
}

/// An update that supplies no field is refused with `BadRequest` and changes nothing.
pub proof fn lemma_empty_update_rejected(
    s0: Store,
    s1: Store,
    id: i32,
    req: UpdateTicketRequest,
    now: Timestamp,
    r: Result<Ticket, ApiError>,
)
    requires
        req.spec_is_empty(),
        update_post(s0, s1, id, req, now, r),
    ensures
        r == Err::<Ticket, ApiError>(ApiError::BadRequest),
        s1 == s0,
{
}

/// An update that supplies only a status (one the store accepts) changes the status and
/// `updated_at` of that ticket and no other field; reading the ticket afterwards shows
/// the result.
pub proof fn lemma_status_only_update(
    s0: Store,
    s1: Store,
    id: i32,
    status: String,
    now: Timestamp,
    r: Result<Ticket, ApiError>,
)
    requires
        s0.wf(),
        has_ticket(s0.tickets@, id),
        has_label(s0.statuses@, status@),
        update_post(
            s0,
            s1,
            id,
            UpdateTicketRequest {
                title: None,
                description: None,
                status: Some(status),
                priority: None,
                assigned_agent_id: None,
            },
            now,
            r,
        ),
    ensures
        r is Ok,
        ({
            let before = s0.tickets@[ticket_pos(s0.tickets@, id)];
            let after = r->Ok_0;
            &&& after.status == status
            &&& after.updated_at == Some(now)
            &&& after.id == before.id
            &&& after.title == before.title
            &&& after.description == before.description
            &&& after.priority == before.priority
            &&& after.assigned_agent_id == before.assigned_agent_id
            &&& after.customer_id == before.customer_id
            &&& after.created_at == before.created_at
            &&& after.resolved_at == before.resolved_at
        }),
        spec_get_ticket(s1.tickets@, id) == r,
{
    lemma_update_then_get(s0, s1, id, UpdateTicketRequest {
        title: None,
        description: None,
        status: Some(status),
        priority: None,
        assigned_agent_id: None,
    }, now, r);
}

/// An update that supplies only an agent assigns that agent and keeps every other
/// field but `updated_at`; reading the ticket afterwards shows the result.
pub proof fn lemma_assign_agent(
    s0: Store,
    s1: Store,
    id: i32,
    agent: i32,
    now: Timestamp,
    r: Result<Ticket, ApiError>,
)
    requires
        s0.wf(),
        has_ticket(s0.tickets@, id),
        update_post(
            s0,
            s1,
            id,
            UpdateTicketRequest {
                title: None,
                description: None,
                status: None,
                priority: None,
                assigned_agent_id: Some(agent),
            },
            now,
            r,
        ),
    ensures
        r is Ok,
        ({
            let before = s0.tickets@[ticket_pos(s0.tickets@, id)];
            r->Ok_0 == Ticket { assigned_agent_id: Some(agent), updated_at: Some(now), ..before }
        }),
        spec_get_ticket(s1.tickets@, id) == r,
{
    lemma_update_then_get(s0, s1, id, UpdateTicketRequest {
        title: None,
        description: None,
        status: None,
        priority: None,
        assigned_agent_id: Some(agent),
    }, now, r);
}

/// After a successful update, reading the ticket returns what the update returned.
pub proof fn lemma_update_then_get(
    s0: Store,
    s1: Store,
    id: i32,
    req: UpdateTicketRequest,
    now: Timestamp,
    r: Result<Ticket, ApiError>,
)
    requires
        s0.wf(),
        !req.spec_is_empty(),
        has_ticket(s0.tickets@, id),
        update_labels_ok(s0, req),
        update_post(s0, s1, id, req, now, r),
    ensures
        spec_get_ticket(s1.tickets@, id) == r,
{
    let p = ticket_pos(s0.tickets@, id);
    assert(s1.tickets@[p].id == id);
    assert(ticket_ids(s1.tickets@) =~= ticket_ids(s0.tickets@));
    assert(has_ticket(s1.tickets@, id));
    let q = ticket_pos(s1.tickets@, id);
    assert(ticket_ids(s1.tickets@)[q] == s1.tickets@[q].id);
    assert(ticket_ids(s1.tickets@)[p] == s1.tickets@[p].id);
    lemma_ids_unique(ticket_ids(s0.tickets@), s0.next_ticket_id, p, q);
}

/// Deleting a missing ticket is `NotFound`; deleting an existing one succeeds, and
/// reading it afterwards is `NotFound`.
pub proof fn lemma_delete_then_get(s0: Store, s1: Store, id: i32, r: Result<(), ApiError>)
    requires
        s0.wf(),
        delete_post(s0, s1, id, r),
    ensures
        !has_ticket(s0.tickets@, id) ==> r == Err::<(), ApiError>(ApiError::NotFound),
        has_ticket(s0.tickets@, id) ==> r is Ok,
        spec_get_ticket(s1.tickets@, id) == Err::<Ticket, ApiError>(ApiError::NotFound),
{
    if has_ticket(s0.tickets@, id) {
        let p = ticket_pos(s0.tickets@, id);
        assert forall|k: int| 0 <= k < s1.tickets@.len() implies s1.tickets@[k].id != id by {
            let a = if k < p { k } else { k + 1 };
            assert(s1.tickets@[k] == s0.tickets@[a]);
            assert(ticket_ids(s0.tickets@)[a] == s0.tickets@[a].id);
            assert(ticket_ids(s0.tickets@)[p] == s0.tickets@[p].id);
            if s0.tickets@[a].id == id {
                lemma_ids_unique(ticket_ids(s0.tickets@), s0.next_ticket_id, a, p);
            }
        }
    }
}

proof fn lemma_no_comments(cs: Seq<Comment>, id: i32)
    requires
        forall|k: int| 0 <= k < cs.len() ==> cs[k].ticket_id != id,
    ensures
        comments_of(cs, id) =~= Seq::<Comment>::empty(),
    decreases cs.len(),
{
    reveal_with_fuel(Seq::filter, 1);
    if cs.len() > 0 {
        let d = cs.drop_last();
        assert forall|k: int| 0 <= k < d.len() implies d[k].ticket_id != id by {
            assert(d[k] == cs[k]);
        }
        lemma_no_comments(d, id);
    }
}

/// A ticket just created has no comments, and after one comment is added to it, its
/// comment list is exactly that comment, authored by the given user.
pub proof fn lemma_ticket_then_comment(
    s0: Store,
    s1: Store,
    s2: Store,
    treq: CreateTicketRequest,
    creq: CreateCommentRequest,
    now1: Timestamp,
    now2: Timestamp,
    r1: Result<Ticket, ApiError>,
    r2: Result<Comment, ApiError>,
)
    requires
        s0.wf(),
        create_ticket_post(s0, s1, treq, now1, r1),
        r1 is Ok,
        add_comment_post(s1, s2, r1->Ok_0.id, creq, now2, r2),
    ensures
        comments_of(s1.comments@, r1->Ok_0.id) == Seq::<Comment>::empty(),
        (has_user(s1.users@, creq.user_id) && s1.next_comment_id < i32::MAX) ==> r2 is Ok,
        r2 matches Ok(c) ==> comments_of(s2.comments@, r1->Ok_0.id) == seq![c]
            && c.user_id == creq.user_id && c.ticket_id == r1->Ok_0.id && c.content == creq.content,
{
    let t = r1->Ok_0;
    let cs = s1.comments@;
    let f = comments_of(cs, t.id);
    assert forall|k: int| 0 <= k < cs.len() implies cs[k].ticket_id != t.id by {
        assert(cs[k].ticket_id < s0.next_ticket_id);
    }
    lemma_no_comments(cs, t.id);
    assert(f =~= Seq::<Comment>::empty());
    assert(s1.tickets@[s1.tickets@.len() - 1] == t);
    assert(has_ticket(s1.tickets@, t.id));
    if r2 is Ok {
        let c = r2->Ok_0;
        assert(s2.comments@.drop_last() =~= cs);
        reveal_with_fuel(Seq::filter, 1);
        assert(comments_of(s2.comments@, t.id) =~= seq![c]);
    }
}

impl Store {
    /// The store's invariant: ids ordered and unique per table, emails unique.
    pub open spec fn wf(&self) -> bool {
        &&& ids_ordered(user_ids(self.users@), self.next_user_id)
        &&& ids_ordered(ticket_ids(self.tickets@), self.next_ticket_id)
        &&& ids_ordered(comment_ids(self.comments@), self.next_comment_id)
        &&& ids_ordered(notification_ids(self.notifications@), self.next_notification_id)
        &&& forall|i: int, j: int|
            0 <= i < self.users@.len() && 0 <= j < self.users@.len() && i != j
                ==> self.users@[i].user.email@ != self.users@[j].user.email@
        &&& times_ordered(user_times(self.users@))
        &&& times_ordered(ticket_times(self.tickets@))
        &&& times_ordered(comment_times(self.comments@))
        &&& times_ordered(notification_times(self.notifications@))
        &&& forall|i: int|
            0 <= i < self.comments@.len() ==> #[trigger] self.comments@[i].ticket_id
                < self.next_ticket_id && self.comments@[i].user_id < self.next_user_id
    }

    /// An empty store whose enumerated columns accept the given labels.
    pub fn with_labels(roles: Vec<String>, statuses: Vec<String>, priorities: Vec<String>) -> (r:
        Store)
        ensures
            r.wf(),
            r.users@.len() == 0,
            r.tickets@.len() == 0,
            r.comments@.len() == 0,
            r.notifications@.len() == 0,
            r.next_user_id == 1,
            r.next_ticket_id == 1,
            r.next_comment_id == 1,
            r.next_notification_id == 1,
            r.roles == roles,
            r.statuses == statuses,
            r.priorities == priorities,
    {
        Store {
            users: Vec::new(),
            tickets: Vec::new(),
            comments: Vec::new(),
            notifications: Vec::new(),
            next_user_id: 1,
            next_ticket_id: 1,
            next_comment_id: 1,
            next_notification_id: 1,
            roles,
            statuses,
            priorities,
        }
    }

    /// An empty store with the default labels: roles `customer`, `agent`, `admin`;
    /// statuses `open`, `in_progress`, `resolved`, `closed`; priorities `low`,
    /// `medium`, `high`, `urgent`.
    pub fn new() -> (r: Store)
        ensures
            r.wf(),
            r.users@.len() == 0,
            r.tickets@.len() == 0,
            r.comments@.len() == 0,
            r.notifications@.len() == 0,
            r.next_user_id == 1,
            r.next_ticket_id == 1,
            r.next_comment_id == 1,
            r.next_notification_id == 1,
            r.roles@.len() == 3,
            r.statuses@.len() == 4,
            r.priorities@.len() == 4,
            label_texts(r.roles@) == default_roles(),
            label_texts(r.statuses@) == default_statuses(),
            label_texts(r.priorities@) == default_priorities(),
    {
        let roles = vec!["customer".to_owned(), "agent".to_owned(), "admin".to_owned()];
        let statuses = vec![
            "open".to_owned(),
            "in_progress".to_owned(),
            "resolved".to_owned(),
            "closed".to_owned(),
        ];
        let priorities = vec![
            "low".to_owned(),
            "medium".to_owned(),
            "high".to_owned(),
            "urgent".to_owned(),
        ];
        assert(label_texts(roles@) =~= default_roles());
        assert(label_texts(statuses@) =~= default_statuses());
        assert(label_texts(priorities@) =~= default_priorities());
        Store::with_labels(roles, statuses, priorities)
    }

    fn latest_user_stamp(&self, now: Timestamp) -> (r: Timestamp)
        ensures
            r == stamp_after(latest_user(self.users@), now),
    {
        let n = self.users.len();
        stamp(if n == 0 { None } else { Some(self.users[n - 1].user.created_at) }, now)
    }

    fn latest_ticket_stamp(&self, now: Timestamp) -> (r: Timestamp)
        ensures
            r == stamp_after(latest_ticket(self.tickets@), now),
    {
        let n = self.tickets.len();
        stamp(if n == 0 { None } else { Some(self.tickets[n - 1].created_at) }, now)
    }

    fn latest_comment_stamp(&self, now: Timestamp) -> (r: Timestamp)
        ensures
            r == stamp_after(latest_comment(self.comments@), now),
    {
        let n = self.comments.len();
        stamp(if n == 0 { None } else { Some(self.comments[n - 1].created_at) }, now)
    }

    fn latest_notification_stamp(&self, now: Timestamp) -> (r: Timestamp)
        ensures
            r == stamp_after(latest_notification(self.notifications@), now),
    {
        let n = self.notifications.len();
        stamp(if n == 0 { None } else { Some(self.notifications[n - 1].created_at) }, now)
    }

    fn find_ticket(&self, id: i32) -> (r: Option<usize>)
        ensures
            r matches Some(i) ==> i < self.tickets@.len() && self.tickets@[i as int].id == id,
            r is None ==> !has_ticket(self.tickets@, id),
    {
        let mut i: usize = 0;
        while i < self.tickets.len()
            invariant
                i <= self.tickets@.len(),
                forall|k: int| 0 <= k < i ==> self.tickets@[k].id != id,
            decreases self.tickets@.len() - i,
        {
            if self.tickets[i].id == id {
                return Some(i);
            }
            i = i + 1;
        }
        None
    }

    fn find_notification(&self, id: i32) -> (r: Option<usize>)
        ensures
            r matches Some(i) ==> i < self.notifications@.len()
                && self.notifications@[i as int].id == id,
            r is None ==> !has_notification(self.notifications@, id),
    {
        let mut i: usize = 0;
        while i < self.notifications.len()
            invariant
                i <= self.notifications@.len(),
                forall|k: int| 0 <= k < i ==> self.notifications@[k].id != id,
            decreases self.notifications@.len() - i,
        {
            if self.notifications[i].id == id {
                return Some(i);
            }
            i = i + 1;
        }
        None
    }

    fn find_user_by_id(&self, id: i32) -> (r: Option<usize>)
        ensures
            r matches Some(i) ==> i < self.users@.len() && self.users@[i as int].user.id == id,
            r is None ==> !has_user(self.users@, id),
    {
        let mut i: usize = 0;
        while i < self.users.len()
            invariant
                i <= self.users@.len(),
                forall|k: int| 0 <= k < i ==> self.users@[k].user.id != id,
            decreases self.users@.len() - i,
        {
            if self.users[i].user.id == id {
                return Some(i);
            }
            i = i + 1;
        }
        None
    }

    fn find_user_by_email(&self, email: &String) -> (r: Option<usize>)
        ensures
            r matches Some(i) ==> i < self.users@.len() && self.users@[i as int].user.email@
                == email@,
            r is None ==> !email_taken(self.users@, email@),
    {
        let mut i: usize = 0;
        while i < self.users.len()
            invariant
                i <= self.users@.len(),
                forall|k: int| 0 <= k < i ==> self.users@[k].user.email@ != email@,
            decreases self.users@.len() - i,
        {
            if self.users[i].user.email == *email {
                return Some(i);
            }
            i = i + 1;
        }
        None
    }

    /// One ticket by id.
    pub fn get_ticket(&self, id: i32) -> (r: Result<Ticket, ApiError>)
        requires
            self.wf(),
        ensures
            r == spec_get_ticket(self.tickets@, id),
    {
        match self.find_ticket(id) {
            Some(i) => {
                proof {
                    let p = ticket_pos(self.tickets@, id);
                    assert(has_ticket(self.tickets@, id));
                    assert(ticket_ids(self.tickets@)[p] == self.tickets@[p].id);
                    assert(ticket_ids(self.tickets@)[i as int] == self.tickets@[i as int].id);
                }
                Ok(copy_ticket(&self.tickets[i]))
            },
            None => Err(ApiError::NotFound),
        }
    }

    /// All tickets, the most recently created first.
    pub fn list_tickets(&self) -> (r: Vec<Ticket>)
        requires
            self.wf(),
        ensures
            r@ == newest_first(self.tickets@),
            forall|a: int, b: int| 0 <= a < b < r@.len() ==> r@[a].created_at >= r@[b].created_at,
    {
        let mut r: Vec<Ticket> = Vec::new();
        let n = self.tickets.len();
        let mut k: usize = n;
        while k > 0
            invariant
                n == self.tickets@.len(),
                k <= n,
                r@.len() == n - k,
                forall|j: int| 0 <= j < r@.len() ==> r@[j] == self.tickets@[n - 1 - j],
            decreases k,
        {
            k = k - 1;
            r.push(copy_ticket(&self.tickets[k]));
        }
        assert(r@ =~= newest_first(self.tickets@));
        assert forall|a: int, b: int| 0 <= a < b < r@.len() implies r@[a].created_at >= r@[b].created_at by {
            assert(ticket_times(self.tickets@)[n - 1 - a] == self.tickets@[n - 1 - a].created_at);
            assert(ticket_times(self.tickets@)[n - 1 - b] == self.tickets@[n - 1 - b].created_at);
        }
        r
    }

    /// All users, the most recently created first.
    pub fn list_users(&self) -> (r: Vec<User>)
        requires
            self.wf(),
        ensures
            r@ == newest_first(self.users@).map_values(|u: UserRecord| u.user),
            forall|a: int, b: int| 0 <= a < b < r@.len() ==> r@[a].created_at >= r@[b].created_at,
    {
        let mut r: Vec<User> = Vec::new();
        let n = self.users.len();
        let mut k: usize = n;
        while k > 0
            invariant
                n == self.users@.len(),
                k <= n,
                r@.len() == n - k,
                forall|j: int| 0 <= j < r@.len() ==> r@[j] == self.users@[n - 1 - j].user,
            decreases k,
        {
            k = k - 1;
            r.push(copy_user(&self.users[k].user));
        }
        assert(r@ =~= newest_first(self.users@).map_values(|u: UserRecord| u.user));
        assert forall|a: int, b: int| 0 <= a < b < r@.len() implies r@[a].created_at >= r@[b].created_at by {
            assert(user_times(self.users@)[n - 1 - a] == self.users@[n - 1 - a].user.created_at);
            assert(user_times(self.users@)[n - 1 - b] == self.users@[n - 1 - b].user.created_at);
        }
        r
    }

    /// All notifications, the most recently created first.
    pub fn list_notifications(&self) -> (r: Vec<Notification>)
        requires
            self.wf(),
        ensures
            r@ == newest_first(self.notifications@),
            forall|a: int, b: int| 0 <= a < b < r@.len() ==> r@[a].created_at >= r@[b].created_at,
    {
        let mut r: Vec<Notification> = Vec::new();
        let n = self.notifications.len();
        let mut k: usize = n;
        while k > 0
            invariant
                n == self.notifications@.len(),
                k <= n,
                r@.len() == n - k,
                forall|j: int| 0 <= j < r@.len() ==> r@[j] == self.notifications@[n - 1 - j],
            decreases k,
        {
            k = k - 1;
            r.push(copy_notification(&self.notifications[k]));
        }
        assert(r@ =~= newest_first(self.notifications@));
        assert forall|a: int, b: int| 0 <= a < b < r@.len() implies r@[a].created_at >= r@[b].created_at by {
            assert(notification_times(self.notifications@)[n - 1 - a] == self.notifications@[n - 1 - a].created_at);
            assert(notification_times(self.notifications@)[n - 1 - b] == self.notifications@[n - 1 - b].created_at);
        }
        r
    }

    /// The comments of one ticket, in the order they were added.
    pub fn ticket_comments(&self, ticket_id: i32) -> (r: Vec<Comment>)
        requires
            self.wf(),
        ensures
            r@ == comments_of(self.comments@, ticket_id),
            forall|a: int, b: int| 0 <= a < b < r@.len() ==> r@[a].created_at <= r@[b].created_at,
    {
        let mut r: Vec<Comment> = Vec::new();
        let mut i: usize = 0;
        while i < self.comments.len()
            invariant
                i <= self.comments@.len(),
                r@ == comments_of(self.comments@.subrange(0, i as int), ticket_id),
                times_ordered(comment_times(self.comments@)),
                forall|a: int, b: int| 0 <= a < b < r@.len() ==> r@[a].created_at <= r@[b].created_at,
                forall|a: int, k: int|
                    #![trigger r@[a], self.comments@[k]]
                    0 <= a < r@.len() && i <= k < self.comments@.len() ==> r@[a].created_at
                        <= self.comments@[k].created_at,
            decreases self.comments@.len() - i,
        {
            proof {
                assert(self.comments@.subrange(0, i + 1).drop_last() =~= self.comments@.subrange(
                    0,
                    i as int,
                ));
                assert(self.comments@.subrange(0, i + 1).last() == self.comments@[i as int]);
                reveal_with_fuel(Seq::filter, 1);
            }
            proof {
                assert forall|k: int| i < k < self.comments@.len() implies self.comments@[i as int].created_at
                    <= #[trigger] self.comments@[k].created_at by {
                    assert(comment_times(self.comments@)[i as int] == self.comments@[i as int].created_at);
                    assert(comment_times(self.comments@)[k] == self.comments@[k].created_at);
                }
            }
            if self.comments[i].ticket_id == ticket_id {
                r.push(copy_comment(&self.comments[i]));
            }
            i = i + 1;
        }
        assert(self.comments@.subrange(0, self.comments@.len() as int) =~= self.comments@);
        r
    }

    /// The email of a user, where the user exists.
    pub fn user_email(&self, user_id: i32) -> (r: Option<String>)
        requires
            self.wf(),
        ensures
            has_user(self.users@, user_id) <==> r is Some,
            r matches Some(e) ==> exists|i: int|
                0 <= i < self.users@.len() && self.users@[i].user.id == user_id
                    && self.users@[i].user.email == e,
    {
        match self.find_user_by_id(user_id) {
            Some(i) => Some(copy_string(&self.users[i].user.email)),
            None => None,
        }
    }

    /// Checks credentials; a wrong password and an unknown email both come back
    /// `Unauthorized`.
    pub fn login(&self, req: &LoginRequest) -> (r: Result<User, ApiError>)
        requires
            self.wf(),
        ensures
            r == spec_login(self.users@, req.email@, req.password@),
    {
        match self.find_user_by_email(&req.email) {
            None => Err(ApiError::Unauthorized),
            Some(i) => {
                proof {
                    let p = user_pos_by_email(self.users@, req.email@);
                    assert(email_taken(self.users@, req.email@));
                    assert(p == i);
                }
                match verify_password(req.password.as_str(), self.users[i].password_hash.as_str()) {
                    Ok(true) => Ok(copy_user(&self.users[i].user)),
                    Ok(false) => Err(ApiError::Unauthorized),
                    Err(e) => Err(e),
                }
            },
        }
    }

    /// Registers a user: refused with `Conflict` where the email is taken; the
    /// password is stored only as a salted hash.
    pub fn register(&mut self, req: RegisterRequest, now: Timestamp) -> (r: Result<User, ApiError>)
        requires
            old(self).wf(),
        ensures
            final(self).wf(),
            register_post(*old(self), *final(self), req, now, r),
    {
        if self.find_user_by_email(&req.email).is_some() {
            return Err(ApiError::Conflict);
        }
        if !find_label(&self.roles, &req.role) || self.next_user_id == i32::MAX {
            return Err(ApiError::Persistence);
        }
        let password_hash = match hash_password(req.password.as_str()) {
            Ok(h) => h,
            Err(e) => {
                return Err(e);
            },
        };
        let user = User {
            id: self.next_user_id,
            email: req.email,
            first_name: req.first_name,
            last_name: req.last_name,
            role: req.role,
            email_verified: false,
            created_at: self.latest_user_stamp(now),
        };
        let ghost old_users = self.users@;
        proof {
            if old_users.len() > 0 {
                assert(user_times(old_users).last() == old_users.last().user.created_at);
            }
            lemma_times_push(user_times(old_users), user.created_at);
            assert(user_times(old_users.push(UserRecord { user, password_hash })) =~= user_times(
                old_users,
            ).push(user.created_at));
            lemma_ids_push(user_ids(old_users), self.next_user_id);
            assert(user_ids(old_users.push(UserRecord { user, password_hash })) =~= user_ids(
                old_users,
            ).push(self.next_user_id));
        }
        self.users.push(UserRecord { user: copy_user(&user), password_hash });
        self.next_user_id = self.next_user_id + 1;
        proof {
            assert(self.users@.drop_last() =~= old_users);
            assert forall|i: int, j: int|
                0 <= i < self.users@.len() && 0 <= j < self.users@.len() && i != j
                    implies self.users@[i].user.email@ != self.users@[j].user.email@ by {
                if i < old_users.len() && j < old_users.len() {
                    assert(self.users@[i] == old_users[i]);
                    assert(self.users@[j] == old_users[j]);
                } else if i < old_users.len() {
                    assert(self.users@[i] == old_users[i]);
                } else {
                    assert(self.users@[j] == old_users[j]);
                }
            }
        }
        Ok(user)
    }

    /// Creates a ticket with status `open`, no agent and no update or resolution time.
    /// The customer must exist.
    pub fn create_ticket(&mut self, req: CreateTicketRequest, now: Timestamp) -> (r: Result<
        Ticket,
        ApiError,
    >)
        requires
            old(self).wf(),
        ensures
            final(self).wf(),
            create_ticket_post(*old(self), *final(self), req, now, r),
    {
        if self.find_user_by_id(req.customer_id).is_none() || !find_label(
            &self.priorities,
            &req.priority,
        ) || self.next_ticket_id == i32::MAX {
            return Err(ApiError::Persistence);
        }
        let ticket = Ticket {
            id: self.next_ticket_id,
            title: req.title,
            description: req.description,
            status: "open".to_owned(),
            priority: req.priority,
            customer_id: req.customer_id,
            assigned_agent_id: None,
            created_at: self.latest_ticket_stamp(now),
            updated_at: None,
            resolved_at: None,
        };
        proof {
            reveal_strlit("open");
            if self.tickets@.len() > 0 {
                assert(ticket_times(self.tickets@).last() == self.tickets@.last().created_at);
            }
            lemma_times_push(ticket_times(self.tickets@), ticket.created_at);
            assert(ticket_times(self.tickets@.push(ticket)) =~= ticket_times(self.tickets@).push(
                ticket.created_at,
            ));
            lemma_ids_push(ticket_ids(self.tickets@), self.next_ticket_id);
            assert(ticket_ids(self.tickets@.push(ticket)) =~= ticket_ids(self.tickets@).push(
                self.next_ticket_id,
            ));
        }
        self.tickets.push(copy_ticket(&ticket));
        self.next_ticket_id = self.next_ticket_id + 1;
        Ok(ticket)
    }

    /// Applies a partial update to ticket `id`; an update that supplies no field is
    /// refused before the store is touched.
    pub fn update_ticket(&mut self, id: i32, req: UpdateTicketRequest, now: Timestamp) -> (r:
        Result<Ticket, ApiError>)
        requires
            old(self).wf(),
        ensures
            final(self).wf(),
            update_post(*old(self), *final(self), id, req, now, r),
    {
        if req.is_empty() {
            return Err(ApiError::BadRequest);
        }
        match self.find_ticket(id) {
            None => Err(ApiError::NotFound),
            Some(i) => {
                proof {
                    lemma_ticket_pos(*self, id, i as int);
                }
                let status_ok = match &req.status {
                    Some(v) => find_label(&self.statuses, v),
                    None => true,
                };
                let priority_ok = match &req.priority {
                    Some(v) => find_label(&self.priorities, v),
                    None => true,
                };
                if !status_ok || !priority_ok {
                    return Err(ApiError::Persistence);
                }
                let t = apply_update(&self.tickets[i], req, now);
                let ghost old_tickets = self.tickets@;
                self.tickets.set(i, copy_ticket(&t));
                proof {
                    assert(ticket_ids(self.tickets@) =~= ticket_ids(old_tickets));
                    assert(ticket_times(self.tickets@) =~= ticket_times(old_tickets));
                }
                Ok(t)
            },
        }
    }

    /// Removes ticket `id`; its comments are left to the store's own rules.
    pub fn delete_ticket(&mut self, id: i32) -> (r: Result<(), ApiError>)
        requires
            old(self).wf(),
        ensures
            final(self).wf(),
            delete_post(*old(self), *final(self), id, r),
    {
        match self.find_ticket(id) {
            None => Err(ApiError::NotFound),
            Some(i) => {
                proof {
                    lemma_ticket_pos(*self, id, i as int);
                    lemma_ids_remove(ticket_ids(self.tickets@), self.next_ticket_id, i as int);
                    assert(ticket_ids(self.tickets@.remove(i as int)) =~= ticket_ids(
                        self.tickets@,
                    ).remove(i as int));
                    lemma_times_remove(ticket_times(self.tickets@), i as int);
                    assert(ticket_times(self.tickets@.remove(i as int)) =~= ticket_times(
                        self.tickets@,
                    ).remove(i as int));
                }
                self.tickets.remove(i);
                Ok(())
            },
        }
    }

    /// Appends a comment to ticket `ticket_id`; the ticket and the author must exist.
    pub fn add_comment(&mut self, ticket_id: i32, req: CreateCommentRequest, now: Timestamp) -> (r:
        Result<Comment, ApiError>)
        requires
            old(self).wf(),
        ensures
            final(self).wf(),
            add_comment_post(*old(self), *final(self), ticket_id, req, now, r),
    {
        let ti = self.find_ticket(ticket_id);
        let ui = self.find_user_by_id(req.user_id);
        if ti.is_none() || ui.is_none() || self.next_comment_id == i32::MAX {
            return Err(ApiError::Persistence);
        }
        proof {
            let a = ti.unwrap() as int;
            let b = ui.unwrap() as int;
            assert(ticket_ids(self.tickets@)[a] == self.tickets@[a].id);
            assert(user_ids(self.users@)[b] == self.users@[b].user.id);
        }
        let c = Comment {
            id: self.next_comment_id,
            ticket_id,
            user_id: req.user_id,
            content: req.content,
            created_at: self.latest_comment_stamp(now),
        };
        proof {
            if self.comments@.len() > 0 {
                assert(comment_times(self.comments@).last() == self.comments@.last().created_at);
            }
            lemma_times_push(comment_times(self.comments@), c.created_at);
            assert(comment_times(self.comments@.push(c)) =~= comment_times(self.comments@).push(
                c.created_at,
            ));
            lemma_ids_push(comment_ids(self.comments@), self.next_comment_id);
            assert(comment_ids(self.comments@.push(c)) =~= comment_ids(self.comments@).push(
                self.next_comment_id,
            ));
        }
        let ghost old_comments = self.comments@;
        self.comments.push(copy_comment(&c));
        self.next_comment_id = self.next_comment_id + 1;
        proof {
            assert forall|i: int| 0 <= i < self.comments@.len() implies #[trigger] self.comments@[i].ticket_id
                < self.next_ticket_id && self.comments@[i].user_id < self.next_user_id by {
                if i < old_comments.len() {
                    assert(self.comments@[i] == old_comments[i]);
                }
            }
        }
        Ok(c)
    }

    /// Records a notification for a user, unread; the user and the ticket, if any,
    /// must exist.
    pub fn add_notification(
        &mut self,
        user_id: i32,
        notification_type: String,
        title: String,
        message: String,
        ticket_id: Option<i32>,
        now: Timestamp,
    ) -> (r: Result<Notification, ApiError>)
        requires
            old(self).wf(),
        ensures
            final(self).wf(),
            (notification_refs_ok(*old(self), user_id, ticket_id) && old(self).next_notification_id
                < i32::MAX) <==> r is Ok,
            r is Err ==> r == Err::<Notification, ApiError>(ApiError::Persistence) && *final(self)
                == *old(self),
            r matches Ok(n) ==> {
                &&& n == Notification {
                    id: old(self).next_notification_id,
                    user_id,
                    notification_type,
                    title,
                    message,
                    read: false,
                    created_at: stamp_after(latest_notification(old(self).notifications@), now),
                    ticket_id,
                }
                &&& final(self).notifications@ == old(self).notifications@.push(n)
                &&& final(self).users == old(self).users
                &&& final(self).tickets == old(self).tickets
                &&& final(self).comments == old(self).comments
                &&& final(self).next_notification_id == old(self).next_notification_id + 1
                &&& same_labels(*old(self), *final(self))
            },
    {
        let refs_ok = match ticket_id {
            Some(t) => self.find_ticket(t).is_some(),
            None => true,
        };
        if !refs_ok || self.find_user_by_id(user_id).is_none() || self.next_notification_id
            == i32::MAX {
            return Err(ApiError::Persistence);
        }
        let n = Notification {
            id: self.next_notification_id,
            user_id,
            notification_type,
            title,
            message,
            read: false,
            created_at: self.latest_notification_stamp(now),
            ticket_id,
        };
        proof {
            if self.notifications@.len() > 0 {
                assert(notification_times(self.notifications@).last()
                    == self.notifications@.last().created_at);
            }
            lemma_times_push(notification_times(self.notifications@), n.created_at);
            assert(notification_times(self.notifications@.push(n)) =~= notification_times(
                self.notifications@,
            ).push(n.created_at));
            lemma_ids_push(notification_ids(self.notifications@), self.next_notification_id);
            assert(notification_ids(self.notifications@.push(n)) =~= notification_ids(
                self.notifications@,
            ).push(self.next_notification_id));
        }
        self.notifications.push(copy_notification(&n));
        self.next_notification_id = self.next_notification_id + 1;
        Ok(n)
    }

    /// Flips the read flag of notification `id`.
    pub fn mark_notification_read(&mut self, id: i32) -> (r: Result<Notification, ApiError>)
        requires
            old(self).wf(),
        ensures
            final(self).wf(),
            mark_read_post(*old(self), *final(self), id, r),
    {
        match self.find_notification(id) {
            None => Err(ApiError::NotFound),
            Some(i) => {
                proof {
                    lemma_notification_pos(*self, id, i as int);
                }
                let mut n = copy_notification(&self.notifications[i]);
                n.read = true;
                let ghost old_ns = self.notifications@;
                self.notifications.set(i, copy_notification(&n));
                proof {
                    assert(notification_ids(self.notifications@) =~= notification_ids(old_ns));
                    assert(notification_times(self.notifications@) =~= notification_times(old_ns));
                }
                Ok(n)
            },
        }
    }

    /// Checks credentials and, on success, builds the claims of the user's session token
    /// for a token issued at `now`, in seconds.
    pub fn login_at(&self, req: &LoginRequest, now: i64) -> (r: Result<(User, JwtClaims), ApiError>)
        requires
            self.wf(),
        ensures
            match spec_login(self.users@, req.email@, req.password@) {
                Err(e) => r == Err::<(User, JwtClaims), ApiError>(e),
                Ok(u) => if now + TOKEN_LIFETIME_SECS <= i64::MAX {
                    r matches Ok((v, c)) && v == u && c.sub == u.id && c.email@ == u.email@
                        && c.role@ == u.role@ && c.exp == now + TOKEN_LIFETIME_SECS
                } else {
                    r == Err::<(User, JwtClaims), ApiError>(ApiError::Internal)
                },
            },
    {
        let user = match self.login(req) {
            Ok(u) => u,
            Err(e) => {
                return Err(e);
            },
        };
        match claims_at(user.id, copy_string(&user.email), copy_string(&user.role), now) {
            Some(c) => Ok((user, c)),
            None => Err(ApiError::Internal),
        }
    }

    /// The message announcing ticket `t` to its customer; `None` where the customer
    /// cannot be found, in which case nothing is sent.
    pub fn ticket_notice(&self, t: &Ticket) -> (r: Option<OutgoingEmail>)
        requires
            self.wf(),
        ensures
            has_user(self.users@, t.customer_id) <==> r is Some,
            r matches Some(m) ==> {
                &&& m.subject@ == ticket_subject(t.id)
                &&& m.body@ == ticket_body(t.title@, t.id)
                &&& exists|i: int|
                    0 <= i < self.users@.len() && self.users@[i].user.id == t.customer_id
                        && self.users@[i].user.email@ == m.to@
            },
    {
        match self.user_email(t.customer_id) {
            Some(email) => Some(ticket_email(email.as_str(), t.title.as_str(), t.id)),
            None => None,
        }
    }
}

} // verus!
