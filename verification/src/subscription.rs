//! Subscription records and the store they are inserted into.
//!
//! A subscription is one accepted sign-up: an identifier, the two form
//! fields, and the capture time in microseconds since the Unix epoch. The
//! store models the subscriptions table: a sequence of records whose
//! identifiers are the only uniqueness the table enforces. The service
//! persists through an external database; this type gives the handler
//! contracts something exact to speak of, and gives tests a table to run
//! against.

use vstd::prelude::*;

use crate::form::FormData;

verus! {

/// One persisted subscription.
pub struct Subscription {
    pub id: u128,
    pub name: String,
    pub email: String,
    pub subscribed_at_micros: i64,
}

/// The mathematical shadow of a [`Subscription`]: the same fields with the
/// strings as character sequences.
pub ghost struct SubscriptionRecord {
    pub id: u128,
    pub name: Seq<char>,
    pub email: Seq<char>,
    pub subscribed_at_micros: i64,
}

impl View for Subscription {
    type V = SubscriptionRecord;

    open spec fn view(&self) -> SubscriptionRecord {
        SubscriptionRecord {
            id: self.id,
            name: self.name@,
            email: self.email@,
            subscribed_at_micros: self.subscribed_at_micros,
        }
    }
}

/// Whether some row among `rows` already carries `id`.
pub open spec fn contains_id(rows: Seq<SubscriptionRecord>, id: u128) -> bool {
    exists|i: int| 0 <= i < rows.len() && #[trigger] rows[i].id == id
}

/// The identifier layout that a version-4 UUID guarantees: in the
/// big-endian 128-bit value, the version nibble is 4 and the variant bits
/// are `10`.
pub open spec fn v4_formatted(id: u128) -> bool {
    (id >> 76) & 0xf == 4 && (id >> 62) & 0x3 == 2
}

/// Relies on `uuid::Uuid::new_v4` and `uuid::Uuid::as_u128`: a fresh random
/// identifier whose version nibble is 4 and whose variant bits are `10`,
/// read as the big-endian 128-bit value of the UUID's bytes. Nothing else
/// is promised of a random value; in particular two calls may collide.
#[verifier::external_body]
fn fresh_subscription_id() -> (r: u128)
    ensures
        v4_formatted(r),
{
    uuid::Uuid::new_v4().as_u128()
}

/// Relies on `chrono::Utc::now` and `chrono::DateTime::timestamp_micros`:
/// the moment the system clock shows, as microseconds since the Unix epoch.
/// Nothing is promised of the value itself; and on a machine whose clock
/// reads before the Unix epoch, `Utc::now` aborts the process rather than
/// answer.
#[verifier::external_body]
fn current_micros() -> (r: i64) {
    chrono::Utc::now().timestamp_micros()
}

/// A subscription built from a validated form: a fresh identifier, the two
/// fields as submitted, and the current time.
pub fn new_subscription(form: FormData) -> (s: Subscription)
    ensures
        s@.name == form.name@,
        s@.email == form.email@,
        v4_formatted(s@.id),
{
    Subscription {
        id: fresh_subscription_id(),
        name: form.name,
        email: form.email,
        subscribed_at_micros: current_micros(),
    }
}

/// The subscriptions table: rows in insertion order, identifiers unique.
pub struct SubscriptionStore {
    rows: Vec<Subscription>,
}

impl View for SubscriptionStore {
    type V = Seq<SubscriptionRecord>;

    closed spec fn view(&self) -> Seq<SubscriptionRecord> {
        self.rows@.map_values(|s: Subscription| s@)
    }
}

impl SubscriptionStore {
    /// An empty table.
    pub fn new() -> (s: Self)
        ensures
            s@ == Seq::<SubscriptionRecord>::empty(),
    {
        let s = SubscriptionStore { rows: Vec::new() };
        proof {
            assert(s@ =~= Seq::<SubscriptionRecord>::empty());
        }
        s
    }

    /// How many rows the table holds.
    pub fn len(&self) -> (n: usize)
        ensures
            n == self@.len(),
    {
        self.rows.len()
    }

    /// The row at `i`, in insertion order.
    pub fn row(&self, i: usize) -> (s: &Subscription)
        requires
            i < self@.len(),
        ensures
            s@ == self@[i as int],
    {
        &self.rows[i]
    }

    /// Insert one row, as the table's primary key does: the row is appended
    /// and `true` returned exactly when no present row carries its
    /// identifier; otherwise the table is left as it was.
    #[verifier::loop_isolation(false)]
    pub fn insert(&mut self, sub: Subscription) -> (inserted: bool)
        ensures
            inserted == !contains_id(old(self)@, sub@.id),
            inserted ==> final(self)@ == old(self)@.push(sub@),
            !inserted ==> final(self)@ == old(self)@,
    {
        let mut i: usize = 0;
        while i < self.rows.len()
            invariant
                i <= self.rows.len(),
                forall|j: int| 0 <= j < i ==> self@[j].id != sub@.id,
                self@.len() == self.rows@.len(),
                forall|j: int| 0 <= j < self.rows@.len() ==> self@[j] == self.rows@[j]@,
            decreases self.rows@.len() - i,
        {
            if self.rows[i].id == sub.id {
                proof {
                    assert(self@[i as int].id == sub@.id);
                }
                return false;
            }
            i += 1;
        }
        assert(!contains_id(self@, sub@.id));
        let ghost before = self@;
        self.rows.push(sub);
        proof {
            assert(self@ =~= before.push(sub@));
        }
        true
    }
}

} // verus!
