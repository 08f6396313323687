use vstd::prelude::*;
use crate::form::{
    decode_fields, email_key, form_pairs, key_count, name_key, subscription_from_form, value_of,
    SubscriptionRequest,
};

verus! {

pub const STATUS_OK: u16 = 200;

pub const STATUS_BAD_REQUEST: u16 = 400;

pub const STATUS_INTERNAL_SERVER_ERROR: u16 = 500;

/// What a handler answers: a status and a body.
pub struct Response {
    pub status: u16,
    pub body: Vec<u8>,
}

/// A stored subscription as text: `(email, name)`.
pub type RowView = (Seq<char>, Seq<char>);

/// What the subscription handler does next, once the body is read.
pub enum SubscribeAction {
    /// Insert this subscriber through the database gateway.
    Insert(SubscriptionRequest),
    /// Answer at once, without touching the database.
    Respond(Response),
}

/// How the gateway's insert went.
#[derive(Clone, Copy, Debug, PartialEq, Eq, Structural)]
pub enum InsertOutcome {
    Inserted,
    Failed,
}

/// The abstract form of a `SubscribeAction`: the row to insert, or the status to answer.
pub enum ActionView {
    Insert(RowView),
    Respond(u16),
}

pub open spec fn action_view(a: SubscribeAction) -> ActionView {
    match a {
        SubscribeAction::Insert(req) => ActionView::Insert((req.email@, req.name@)),
        SubscribeAction::Respond(resp) => ActionView::Respond(resp.status),
    }
}

pub open spec fn form_content_type() -> Seq<char> {
    "application/x-www-form-urlencoded"@
}

/// The handler's decision on a request: a form body that decodes is inserted; a body of
/// another content type, or one that does not decode, is refused.
pub open spec fn planned_action(content_type: Seq<char>, body: Seq<u8>) -> ActionView {
    if content_type != form_content_type() {
        ActionView::Respond(STATUS_BAD_REQUEST)
    } else {
        match decode_fields(form_pairs(body)) {
            Ok((name, email)) => ActionView::Insert((email, name)),
            Err(_) => ActionView::Respond(STATUS_BAD_REQUEST),
        }
    }
}

/// The status answered once the insert has been tried.
pub open spec fn status_after(outcome: InsertOutcome) -> u16 {
    match outcome {
        InsertOutcome::Inserted => STATUS_OK,
        InsertOutcome::Failed => STATUS_INTERNAL_SERVER_ERROR,
    }
}

/// The gateway's insert is atomic per row: the table gains the row, or stays as it was.
pub open spec fn rows_after(rows: Seq<RowView>, action: ActionView, outcome: InsertOutcome) -> Seq<
    RowView,
> {
    match action {
        ActionView::Insert(row) => if outcome == InsertOutcome::Inserted {
            rows.push(row)
        } else {
            rows
        },
        ActionView::Respond(_) => rows,
    }
}

/// The status a request ends with.
pub open spec fn final_status(action: ActionView, outcome: InsertOutcome) -> u16 {
    match action {
        ActionView::Insert(_) => status_after(outcome),
        ActionView::Respond(status) => status,
    }
}

/// `GET /health_check`: success with an empty body, always.
pub fn health_check() -> (r: Response)
    ensures
        r.status == STATUS_OK,
        r.body@.len() == 0,
{
    Response { status: STATUS_OK, body: Vec::new() }
}

/// First step of `POST /subscriptions`: check the content type (its media type alone, without
/// parameters), decode the form body, and decide.
pub fn start_subscription(content_type: &str, body: &[u8]) -> (r: SubscribeAction)
    ensures
        action_view(r) == planned_action(content_type@, body@),
        r matches SubscribeAction::Respond(resp) ==> resp.body@.len() == 0,
{
    proof {
        reveal_strlit("application/x-www-form-urlencoded");
    }
    let expected = String::from_str("application/x-www-form-urlencoded");
    let given = String::from_str(content_type);
    if !(given == expected) {
        return SubscribeAction::Respond(Response { status: STATUS_BAD_REQUEST, body: Vec::new() });
    }
    match subscription_from_form(body) {
        Ok(req) => SubscribeAction::Insert(req),
        Err(_) => SubscribeAction::Respond(Response { status: STATUS_BAD_REQUEST, body: Vec::new() }),
    }
}

/// Last step of `POST /subscriptions`: translate the gateway's result.
pub fn finish_subscription(outcome: InsertOutcome) -> (r: Response)
    ensures
        r.status == status_after(outcome),
        r.body@.len() == 0,
{
    match outcome {
        InsertOutcome::Inserted => Response { status: STATUS_OK, body: Vec::new() },
        InsertOutcome::Failed => Response { status: STATUS_INTERNAL_SERVER_ERROR, body: Vec::new() },
    }
}

/// A form in which `name` and `email` each stand exactly once, with non-empty values.
pub open spec fn complete_form(body: Seq<u8>) -> bool {
    &&& key_count(form_pairs(body), name_key()) == 1
    &&& key_count(form_pairs(body), email_key()) == 1
    &&& value_of(form_pairs(body), name_key()).len() > 0
    &&& value_of(form_pairs(body), email_key()).len() > 0
}

/// The row that a complete form asks for: its decoded `email` and `name`.
pub open spec fn requested_row(body: Seq<u8>) -> RowView {
    (value_of(form_pairs(body), email_key()), value_of(form_pairs(body), name_key()))
}

/// A valid subscription form, sent as a form, is answered with success, and the table gains
/// exactly one row, which holds the decoded `email` and `name` unchanged.
pub proof fn lemma_complete_form_is_stored(rows: Seq<RowView>, body: Seq<u8>)
    requires
        complete_form(body),
    ensures
        ({
            let action = planned_action(form_content_type(), body);
            let after = rows_after(rows, action, InsertOutcome::Inserted);
            &&& action == ActionView::Insert(requested_row(body))
            &&& final_status(action, InsertOutcome::Inserted) == STATUS_OK
            &&& after == rows.push(requested_row(body))
            &&& after.len() == rows.len() + 1
        }),
{
}

/// A body without `name` or without `email` is answered with 400, and no row is inserted,
/// whatever the database would have done.
pub proof fn lemma_incomplete_form_is_refused(
    rows: Seq<RowView>,
    content_type: Seq<char>,
    body: Seq<u8>,
    outcome: InsertOutcome,
)
    requires
        key_count(form_pairs(body), name_key()) == 0
            || key_count(form_pairs(body), email_key()) == 0,
    ensures
        planned_action(content_type, body) == ActionView::Respond(STATUS_BAD_REQUEST),
        final_status(planned_action(content_type, body), outcome) == STATUS_BAD_REQUEST,
        rows_after(rows, planned_action(content_type, body), outcome) == rows,
{
}

/// Two valid subscriptions handled in either order are both answered with success, and
/// both rows are stored whichever insert comes first.
pub proof fn lemma_concurrent_subscriptions_both_stored(
    rows: Seq<RowView>,
    first: Seq<u8>,
    second: Seq<u8>,
)
    requires
        complete_form(first),
        complete_form(second),
        value_of(form_pairs(first), email_key()) != value_of(form_pairs(second), email_key()),
    ensures
        ({
            let a = planned_action(form_content_type(), first);
            let b = planned_action(form_content_type(), second);
            let row_a = requested_row(first);
            let row_b = requested_row(second);
            let ab = rows_after(
                rows_after(rows, a, InsertOutcome::Inserted),
                b,
                InsertOutcome::Inserted,
            );
            let ba = rows_after(
                rows_after(rows, b, InsertOutcome::Inserted),
                a,
                InsertOutcome::Inserted,
            );
            &&& final_status(a, InsertOutcome::Inserted) == STATUS_OK
            &&& final_status(b, InsertOutcome::Inserted) == STATUS_OK
            &&& ab.len() == rows.len() + 2 && ba.len() == rows.len() + 2
            &&& ab.contains(row_a) && ab.contains(row_b)
            &&& ba.contains(row_a) && ba.contains(row_b)
            &&& row_a != row_b
        }),
{
    let row_a = requested_row(first);
    let row_b = requested_row(second);
    let ab = rows.push(row_a).push(row_b);
    let ba = rows.push(row_b).push(row_a);
    assert(ab[rows.len() as int] == row_a);
    assert(ab[rows.len() + 1int] == row_b);
    assert(ba[rows.len() as int] == row_b);
    assert(ba[rows.len() + 1int] == row_a);
}

} // verus!
