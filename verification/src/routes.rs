//! The two routes' decisions: what status each request earns and what it
//! does to the table.
//!
//! The HTTP server itself stands outside the library; it hands a handler
//! the raw request body and performs whatever the handler decided. Every
//! decision -- validation, the row to insert, the status to answer -- is
//! made here.

use vstd::prelude::*;

use crate::form::email_key;
use crate::form::form_outcome;
use crate::form::form_pairs;
use crate::form::key_values;
use crate::form::name_key;
use crate::form::pairs_from;
use crate::form::parse_form;
use crate::form::split_on;
use crate::form::utf8_lossy;
use crate::form::AMPERSAND;
use crate::subscription::contains_id;
use crate::subscription::new_subscription;
use crate::subscription::Subscription;
use crate::subscription::SubscriptionRecord;
use crate::subscription::SubscriptionStore;
use crate::subscription::v4_formatted;

verus! {

/// Created: a row was inserted.
pub const STATUS_CREATED: u16 = 201;

/// Bad request: the body did not decode into the two required fields.
pub const STATUS_BAD_REQUEST: u16 = 400;

/// Internal server error: the insert failed.
pub const STATUS_SERVER_ERROR: u16 = 500;

/// OK: the liveness check.
pub const STATUS_OK: u16 = 200;

/// What a handler answers: a status and a body. Every response of this
/// service has an empty body.
pub struct Response {
    pub status: u16,
    pub body: Vec<u8>,
}

/// The liveness check: 200 with an empty body, on any request, touching
/// nothing. It takes no connection and no state, so no database outage can
/// reach it.
pub fn health_response() -> (r: Response)
    ensures
        r.status == STATUS_OK,
        r.body@.len() == 0,
{
    Response { status: STATUS_OK, body: Vec::new() }
}

/// The refusal owed to a body that does not decode into the two required
/// fields: 400 with an empty body, before any database work.
pub fn rejection_response() -> (r: Response)
    ensures
        r.status == STATUS_BAD_REQUEST,
        r.body@.len() == 0,
{
    Response { status: STATUS_BAD_REQUEST, body: Vec::new() }
}

/// The status owed once a valid submission's insert has run: 201 when the
/// row went in, 500 when the database refused or could not be reached.
pub fn completion_response(insert_succeeded: bool) -> (r: Response)
    ensures
        r.body@.len() == 0,
        insert_succeeded ==> r.status == STATUS_CREATED,
        !insert_succeeded ==> r.status == STATUS_SERVER_ERROR,
{
    if insert_succeeded {
        Response { status: STATUS_CREATED, body: Vec::new() }
    } else {
        Response { status: STATUS_SERVER_ERROR, body: Vec::new() }
    }
}

/// What one subscription request does, as a function of the table, the
/// body, and the identifier and timestamp the row would carry: a body that
/// does not decode is refused with 400 and the table kept; a decoded body
/// whose identifier is already taken fails with 500 and the table kept;
/// otherwise the row is appended and 201 answered.
pub open spec fn subscription_step(
    rows: Seq<SubscriptionRecord>,
    body: Seq<u8>,
    id: u128,
    at_micros: i64,
) -> (u16, Seq<SubscriptionRecord>) {
    match form_outcome(body) {
        Err(_) => (STATUS_BAD_REQUEST, rows),
        Ok(fields) => if contains_id(rows, id) {
            (STATUS_SERVER_ERROR, rows)
        } else {
            (
                STATUS_CREATED,
                rows.push(
                    SubscriptionRecord {
                        id,
                        name: utf8_lossy(fields.0),
                        email: utf8_lossy(fields.1),
                        subscribed_at_micros: at_micros,
                    },
                ),
            )
        },
    }
}

/// One subscription request, with the identifier and timestamp handed in:
/// exactly [`subscription_step`] of the old table. Verified for every
/// identifier and every timestamp; [`handle_subscription`] supplies the
/// generated ones.
pub fn apply_subscription(
    store: &mut SubscriptionStore,
    body: &[u8],
    id: u128,
    at_micros: i64,
) -> (r: Response)
    ensures
        r.body@.len() == 0,
        (r.status, final(store)@) == subscription_step(old(store)@, body@, id, at_micros),
        r.status == STATUS_CREATED ==> {
            &&& form_outcome(body@) matches Ok(fields)
            &&& (vstd::utf8::valid_utf8(fields.0) ==> final(store)@.last().name
                == vstd::utf8::decode_utf8(fields.0))
            &&& (vstd::utf8::valid_utf8(fields.1) ==> final(store)@.last().email
                == vstd::utf8::decode_utf8(fields.1))
        },
{
    match parse_form(body) {
        Err(_) => rejection_response(),
        Ok(form) => {
            let sub = Subscription {
                id,
                name: form.name,
                email: form.email,
                subscribed_at_micros: at_micros,
            };
            let inserted = store.insert(sub);
            completion_response(inserted)
        },
    }
}

/// One subscription request as the service runs it: a fresh identifier and
/// the current time, then [`apply_subscription`]. The identifier is
/// random, so a decoded body may still fail with 500 -- but only by
/// colliding with a present row, which itself carries a version-4-formatted
/// identifier. On a table without one, the empty table above all, a
/// decoded body is owed 201; in either failure the table is untouched, and
/// 400 falls exactly on the bodies that do not decode.
pub fn handle_subscription(store: &mut SubscriptionStore, body: &[u8]) -> (r: Response)
    ensures
        r.body@.len() == 0,
        r.status == STATUS_BAD_REQUEST || r.status == STATUS_CREATED || r.status
            == STATUS_SERVER_ERROR,
        (r.status == STATUS_BAD_REQUEST) <==> (form_outcome(body@) is Err),
        r.status != STATUS_CREATED ==> final(store)@ == old(store)@,
        r.status == STATUS_SERVER_ERROR ==> exists|i: int|
            0 <= i < old(store)@.len() && v4_formatted(#[trigger] old(store)@[i].id),
        r.status == STATUS_CREATED ==> {
            &&& form_outcome(body@) matches Ok(fields)
            &&& final(store)@.len() == old(store)@.len() + 1
            &&& final(store)@ == old(store)@.push(final(store)@.last())
            &&& final(store)@.last().name == utf8_lossy(fields.0)
            &&& final(store)@.last().email == utf8_lossy(fields.1)
            &&& (vstd::utf8::valid_utf8(fields.0) ==> final(store)@.last().name
                == vstd::utf8::decode_utf8(fields.0))
            &&& (vstd::utf8::valid_utf8(fields.1) ==> final(store)@.last().email
                == vstd::utf8::decode_utf8(fields.1))
            &&& v4_formatted(final(store)@.last().id)
            &&& !contains_id(old(store)@, final(store)@.last().id)
        },
{
    match parse_form(body) {
        Err(_) => rejection_response(),
        Ok(form) => {
            let sub = new_subscription(form);
            let inserted = store.insert(sub);
            completion_response(inserted)
        },
    }
}

/// A well-formed submission whose identifier is free creates exactly one
/// new row, visible at the end of the table with the submitted name and
/// email: the request answers 201 and every old row stays where it was.
pub proof fn law_valid_submission_creates_row(
    rows: Seq<SubscriptionRecord>,
    body: Seq<u8>,
    id: u128,
    at_micros: i64,
)
    requires
        form_outcome(body) is Ok,
        !contains_id(rows, id),
    ensures
        subscription_step(rows, body, id, at_micros).0 == STATUS_CREATED,
        subscription_step(rows, body, id, at_micros).1.len() == rows.len() + 1,
        subscription_step(rows, body, id, at_micros).1 == rows.push(
            subscription_step(rows, body, id, at_micros).1.last(),
        ),
        ({
            let fields = subscription_fields(body);
            let row = subscription_step(rows, body, id, at_micros).1.last();
            &&& row.name == utf8_lossy(fields.0)
            &&& row.email == utf8_lossy(fields.1)
            &&& row.id == id
            &&& row.subscribed_at_micros == at_micros
        }),
{
}

/// The decoded `name` and `email` values of a well-formed body.
pub open spec fn subscription_fields(body: Seq<u8>) -> (Seq<u8>, Seq<u8>)
    recommends
        form_outcome(body) is Ok,
{
    form_outcome(body)->Ok_0
}

/// A submission without a `name` pair, without an `email` pair, or with an
/// empty body answers 400 and leaves the table exactly as it was.
pub proof fn law_incomplete_submission_rejected(
    rows: Seq<SubscriptionRecord>,
    body: Seq<u8>,
    id: u128,
    at_micros: i64,
)
    requires
        key_values(form_pairs(body), name_key()).len() == 0 || key_values(
            form_pairs(body),
            email_key(),
        ).len() == 0 || body.len() == 0,
    ensures
        subscription_step(rows, body, id, at_micros).0 == STATUS_BAD_REQUEST,
        subscription_step(rows, body, id, at_micros).1 == rows,
{
    if body.len() == 0 {
        let segs = split_on(body, AMPERSAND);
        assert(segs == seq![Seq::<u8>::empty()]);
        assert(segs.drop_last() =~= Seq::<Seq<u8>>::empty());
        assert(pairs_from(Seq::<Seq<u8>>::empty()) == Seq::<(Seq<u8>, Seq<u8>)>::empty());
        assert(segs.last().len() == 0);
        assert(pairs_from(segs) =~= Seq::<(Seq<u8>, Seq<u8>)>::empty());
    }
}

/// Submitting the same body twice is not idempotent: with two free,
/// distinct identifiers both requests answer 201 and the table grows by
/// two rows that carry the same name and the same email under distinct
/// identifiers.
pub proof fn law_repeat_submission_two_rows(
    rows: Seq<SubscriptionRecord>,
    body: Seq<u8>,
    id1: u128,
    at1: i64,
    id2: u128,
    at2: i64,
)
    requires
        form_outcome(body) is Ok,
        !contains_id(rows, id1),
        !contains_id(rows, id2),
        id1 != id2,
    ensures
        ({
            let first = subscription_step(rows, body, id1, at1);
            let second = subscription_step(first.1, body, id2, at2);
            &&& first.0 == STATUS_CREATED
            &&& second.0 == STATUS_CREATED
            &&& second.1.len() == rows.len() + 2
            &&& second.1[rows.len() as int].name == second.1[rows.len() as int + 1].name
            &&& second.1[rows.len() as int].email == second.1[rows.len() as int + 1].email
            &&& second.1[rows.len() as int].id != second.1[rows.len() as int + 1].id
        }),
{
    let first = subscription_step(rows, body, id1, at1);
    assert(!contains_id(first.1, id2)) by {
        if contains_id(first.1, id2) {
            let i = choose|i: int| 0 <= i < first.1.len() && first.1[i].id == id2;
            if i < rows.len() {
                assert(rows[i].id == id2);
                assert(contains_id(rows, id2));
            } else {
                assert(first.1[i].id == id1);
            }
        }
    }
}

/// A request that does not answer 201 inserts nothing: rejected bodies and
/// failed inserts leave the table exactly as it was.
pub proof fn law_failure_inserts_nothing(
    rows: Seq<SubscriptionRecord>,
    body: Seq<u8>,
    id: u128,
    at_micros: i64,
)
    ensures
        subscription_step(rows, body, id, at_micros).0 != STATUS_CREATED
            ==> subscription_step(rows, body, id, at_micros).1 == rows,
{
}

} // verus!
