use vstd::prelude::*;

use crate::config::{bootstrap_config, config_after_init, RaceConfig};
use crate::error::StoreError;
use crate::numbering::{next_after, next_car_number_after};
use crate::order::{
    bytes_after, lemma_bytes_after_asymmetric, lemma_bytes_after_total,
    lemma_bytes_after_transitive, text_after,
};

verus! {

/// A participant's check-in record. `car_weight` is the bit pattern of the
/// car's weight as an IEEE 754 binary64 number, carried as it is.
#[derive(Clone, Debug)]
pub struct Scout {
    pub id: i64,
    pub name: String,
    pub den: String,
    pub car_number: i32,
    pub car_weight: u64,
    pub checked_in: bool,
    pub created_at: String,
}

/// What a caller supplies to register a scout.
#[derive(Clone, Debug)]
pub struct NewScout {
    pub name: String,
    pub den: String,
    pub car_number: i32,
    pub car_weight: u64,
}

impl Scout {
    fn snapshot(&self) -> (r: Scout)
        ensures
            r == *self,
    {
        Scout {
            id: self.id,
            name: self.name.clone(),
            den: self.den.clone(),
            car_number: self.car_number,
            car_weight: self.car_weight,
            checked_in: self.checked_in,
            created_at: self.created_at.clone(),
        }
    }
}

/// Whether some row of `rows` holds `car_number`.
pub open spec fn car_number_taken(rows: Seq<Scout>, car_number: i32) -> bool {
    exists|i: int| 0 <= i < rows.len() && #[trigger] rows[i].car_number == car_number
}

/// Whether some row of `rows` has the identity `id`.
pub open spec fn has_id(rows: Seq<Scout>, id: i64) -> bool {
    exists|i: int| 0 <= i < rows.len() && #[trigger] rows[i].id == id
}

/// The largest car number among `rows`, if there is a row.
pub open spec fn max_car_number(rows: Seq<Scout>) -> Option<i32>
    decreases rows.len(),
{
    if rows.len() == 0 {
        None
    } else {
        let n = rows.last().car_number;
        match max_car_number(rows.drop_last()) {
            Some(m) => if m >= n { Some(m) } else { Some(n) },
            None => Some(n),
        }
    }
}

/// The bytes of a scout's creation time, as the store compares them.
pub open spec fn stamp(s: Scout) -> Seq<u8> {
    vstd::utf8::encode_utf8(s.created_at@)
}

/// `a` is listed ahead of `b`: created later, or at the same time with a
/// larger identity.
pub open spec fn listed_before(a: Scout, b: Scout) -> bool {
    bytes_after(stamp(a), stamp(b)) || (stamp(a) == stamp(b) && a.id > b.id)
}

/// Each scout of `r` is listed ahead of every one after it.
pub open spec fn newest_first(r: Seq<Scout>) -> bool {
    forall|i: int, j: int| 0 <= i < j < r.len() ==> listed_before(#[trigger] r[i], #[trigger] r[j])
}

/// `r` holds exactly the checked-in scouts of `rows`, newest first.
pub open spec fn is_checked_in_listing(rows: Seq<Scout>, r: Seq<Scout>) -> bool {
    &&& newest_first(r)
    &&& forall|x: Scout| #[trigger] r.contains(x) <==> (rows.contains(x) && x.checked_in)
}

/// No scout is listed ahead of itself, and of two scouts at most one is
/// listed ahead of the other.
pub proof fn lemma_listed_before_asymmetric(a: Scout, b: Scout)
    ensures
        listed_before(a, b) ==> !listed_before(b, a),
        !listed_before(a, a),
{
    lemma_bytes_after_asymmetric(stamp(a), stamp(b));
    lemma_bytes_after_asymmetric(stamp(b), stamp(a));
}

/// Of two scouts with different identities, one is listed ahead of the other.
pub proof fn lemma_listed_before_total(a: Scout, b: Scout)
    requires
        a.id != b.id,
    ensures
        listed_before(a, b) || listed_before(b, a),
{
    if stamp(a) != stamp(b) {
        lemma_bytes_after_total(stamp(a), stamp(b));
    }
}

/// Being listed ahead is transitive.
pub proof fn lemma_listed_before_transitive(a: Scout, b: Scout, c: Scout)
    requires
        listed_before(a, b),
        listed_before(b, c),
    ensures
        listed_before(a, c),
{
    if bytes_after(stamp(a), stamp(b)) && bytes_after(stamp(b), stamp(c)) {
        lemma_bytes_after_transitive(stamp(a), stamp(b), stamp(c));
    }
}

/// Inserting `x` at a position where everything before it is listed ahead of
/// it, and it is listed ahead of what follows, keeps a listing newest first.
proof fn lemma_insert_newest_first(r: Seq<Scout>, p: int, x: Scout)
    requires
        newest_first(r),
        0 <= p <= r.len(),
        forall|i: int| 0 <= i < p ==> listed_before(#[trigger] r[i], x),
        p < r.len() ==> listed_before(x, r[p]),
    ensures
        newest_first(r.insert(p, x)),
{
    r.insert_ensures(p, x);
    let s = r.insert(p, x);
    assert forall|i: int, j: int| 0 <= i < j < s.len() implies listed_before(#[trigger] s[i], #[trigger] s[j]) by {
        if j < p {
        } else if j == p {
        } else if i < p {
            assert(s[j] == r[j - 1]);
            if j - 1 > p {
                lemma_listed_before_transitive(x, r[p], r[j - 1]);
            }
            lemma_listed_before_transitive(r[i], x, r[j - 1]);
        } else if i == p {
            assert(s[j] == r[j - 1]);
            if j - 1 > p {
                lemma_listed_before_transitive(x, r[p], r[j - 1]);
            }
        } else {
            assert(s[i] == r[i - 1]);
            assert(s[j] == r[j - 1]);
        }
    }
}

/// The row that registering `s` under `id` at time `created_at` stores.
pub open spec fn registered_row(s: NewScout, id: i64, created_at: String) -> Scout {
    Scout {
        id,
        name: s.name,
        den: s.den,
        car_number: s.car_number,
        car_weight: s.car_weight,
        checked_in: true,
        created_at,
    }
}

/// Whether `a` is listed ahead of `b`.
pub fn is_listed_before(a: &Scout, b: &Scout) -> (r: bool)
    ensures
        r == listed_before(*a, *b),
{
    if text_after(&a.created_at, &b.created_at) {
        true
    } else if text_after(&b.created_at, &a.created_at) {
        false
    } else {
        proof {
            if stamp(*a) != stamp(*b) {
                lemma_bytes_after_total(stamp(*a), stamp(*b));
            }
        }
        a.id > b.id
    }
}

/// The first position of `out` whose scout `row` is listed ahead of.
fn insertion_point(out: &Vec<Scout>, row: &Scout) -> (p: usize)
    ensures
        p <= out@.len(),
        forall|i: int| 0 <= i < p ==> listed_before(#[trigger] out@[i], *row),
        p < out@.len() ==> !listed_before(out@[p as int], *row),
{
    let mut p: usize = 0;
    while p < out.len() && is_listed_before(&out[p], row)
        invariant
            p <= out@.len(),
            forall|i: int| 0 <= i < p ==> listed_before(#[trigger] out@[i], *row),
        decreases out@.len() - p,
    {
        p = p + 1;
    }
    p
}

/// The persistent state of a race day: the scout rows in insertion order,
/// the identity the next row gets, and the configuration slot.
pub struct CheckinStore {
    rows: Vec<Scout>,
    next_id: i64,
    config: Option<RaceConfig>,
}

impl CheckinStore {
    /// The scout rows, oldest first.
    pub closed spec fn rows(self) -> Seq<Scout> {
        self.rows@
    }

    /// The identity the next registered scout receives.
    pub closed spec fn next_id(self) -> int {
        self.next_id as int
    }

    /// The configuration slot.
    pub closed spec fn config(self) -> Option<RaceConfig> {
        self.config
    }

    /// Identities are positive, strictly increasing in insertion order and
    /// below `next_id`; no two rows share a car number.
    pub closed spec fn wf(self) -> bool {
        &&& 1 <= self.next_id
        &&& forall|i: int| 0 <= i < self.rows@.len() ==> 1 <= #[trigger] self.rows@[i].id < self.next_id
        &&& forall|i: int, j: int|
            0 <= i < j < self.rows@.len() ==> (#[trigger] self.rows@[i]).id < (#[trigger] self.rows@[j]).id
        &&& forall|i: int, j: int|
            0 <= i < self.rows@.len() && 0 <= j < self.rows@.len() && i != j
                ==> (#[trigger] self.rows@[i]).car_number != (#[trigger] self.rows@[j]).car_number
    }

    /// A store with no tables filled: no scouts and no configuration.
    pub fn new() -> (r: CheckinStore)
        ensures
            r.wf(),
            r.rows() == Seq::<Scout>::empty(),
            r.next_id() == 1,
            r.config() is None,
    {
        CheckinStore { rows: Vec::new(), next_id: 1, config: None }
    }

    /// Ensures the configuration slot is filled, writing the defaults only
    /// where it was empty. Scout rows are untouched.
    pub fn initialize(&mut self)
        requires
            old(self).wf(),
        ensures
            final(self).wf(),
            final(self).rows() == old(self).rows(),
            final(self).next_id() == old(self).next_id(),
            final(self).config() is Some,
            config_after_init(old(self).config(), final(self).config()->0),
    {
        let current = self.config.take();
        self.config = Some(bootstrap_config(current));
    }

    /// The configuration, once the store has been initialized.
    pub fn race_config(&self) -> (r: Option<&RaceConfig>)
        ensures
            r == match self.config() {
                Some(c) => Some(&c),
                None => None::<&RaceConfig>,
            },
    {
        self.config.as_ref()
    }

    /// Whether some stored scout holds `car_number`.
    pub fn holds_car_number(&self, car_number: i32) -> (r: bool)
        ensures
            r == car_number_taken(self.rows(), car_number),
    {
        let mut i: usize = 0;
        while i < self.rows.len()
            invariant
                i <= self.rows@.len(),
                forall|k: int| 0 <= k < i ==> (#[trigger] self.rows@[k]).car_number != car_number,
            decreases self.rows@.len() - i,
        {
            if self.rows[i].car_number == car_number {
                return true;
            }
            i = i + 1;
        }
        false
    }

    /// Registers a checked-in scout. Fails with `UniquenessViolation` when the
    /// car number is held already, and with a storage error when identities
    /// are exhausted; a failure leaves the store as it was.
    pub fn register(&mut self, new_scout: NewScout, created_at: String) -> (r: Result<Scout, StoreError>)
        requires
            old(self).wf(),
        ensures
            final(self).wf(),
            final(self).config() == old(self).config(),
            car_number_taken(old(self).rows(), new_scout.car_number) ==> r == Err::<Scout, StoreError>(
                StoreError::UniquenessViolation,
            ),
            !car_number_taken(old(self).rows(), new_scout.car_number) && old(self).next_id() < i64::MAX
                ==> r == Ok::<Scout, StoreError>(
                registered_row(new_scout, old(self).next_id() as i64, created_at),
            ),
            !car_number_taken(old(self).rows(), new_scout.car_number) && old(self).next_id() == i64::MAX
                ==> r matches Err(StoreError::Storage(_)),
            r is Ok ==> !car_number_taken(old(self).rows(), r->Ok_0.car_number),
            r is Ok ==> final(self).rows() == old(self).rows().push(r->Ok_0) && final(self).next_id()
                == old(self).next_id() + 1,
            r is Err ==> final(self).rows() == old(self).rows() && final(self).next_id() == old(
                self,
            ).next_id(),
    {
        if self.holds_car_number(new_scout.car_number) {
            return Err(StoreError::UniquenessViolation);
        }
        if self.next_id == i64::MAX {
            return Err(StoreError::Storage("database or disk is full".to_owned()));
        }
        let row = Scout {
            id: self.next_id,
            name: new_scout.name,
            den: new_scout.den,
            car_number: new_scout.car_number,
            car_weight: new_scout.car_weight,
            checked_in: true,
            created_at,
        };
        let stored = row.snapshot();
        self.rows.push(row);
        self.next_id = self.next_id + 1;
        Ok(stored)
    }

    /// Fetches the scout with identity `id`; `NotFound` when there is none.
    pub fn get(&self, id: i64) -> (r: Result<Scout, StoreError>)
        requires
            self.wf(),
        ensures
            has_id(self.rows(), id) <==> r is Ok,
            r is Ok ==> self.rows().contains(r->Ok_0) && r->Ok_0.id == id,
            r is Err ==> r == Err::<Scout, StoreError>(StoreError::NotFound),
    {
        let mut i: usize = 0;
        while i < self.rows.len()
            invariant
                i <= self.rows@.len(),
                forall|k: int| 0 <= k < i ==> (#[trigger] self.rows@[k]).id != id,
            decreases self.rows@.len() - i,
        {
            if self.rows[i].id == id {
                return Ok(self.rows[i].snapshot());
            }
            i = i + 1;
        }
        Err(StoreError::NotFound)
    }

    /// The checked-in scouts, newest first: by creation time descending,
    /// then by identity descending.
    pub fn list_checked_in(&self) -> (r: Vec<Scout>)
        requires
            self.wf(),
        ensures
            is_checked_in_listing(self.rows(), r@),
    {
        let mut out: Vec<Scout> = Vec::new();
        let mut k: usize = 0;
        while k < self.rows.len()
            invariant
                self.wf(),
                k <= self.rows@.len(),
                newest_first(out@),
                forall|x: Scout| #[trigger] out@.contains(x) <==> (self.rows@.subrange(0, k as int).contains(x) && x.checked_in),
            decreases self.rows@.len() - k,
        {
            let ghost before = out@;
            let ghost seen = self.rows@.subrange(0, k as int);
            let ghost full = self.rows@.subrange(0, k + 1);
            assert(full == seen.push(self.rows@[k as int]));
            assert forall|x: Scout| #[trigger] full.contains(x) <==> (seen.contains(x) || x == self.rows@[k as int]) by {
                if full.contains(x) {
                    let i = choose|i: int| 0 <= i < full.len() && full[i] == x;
                    if i < k {
                        assert(seen[i] == x);
                    }
                }
                if seen.contains(x) {
                    let i = choose|i: int| 0 <= i < seen.len() && seen[i] == x;
                    assert(full[i] == x);
                }
                assert(full[k as int] == self.rows@[k as int]);
            }
            if self.rows[k].checked_in {
                let row = self.rows[k].snapshot();
                let p = insertion_point(&out, &row);
                proof {
                    if p < out@.len() {
                        assert(before.contains(before[p as int]));
                        let m = choose|m: int| 0 <= m < seen.len() && seen[m] == before[p as int];
                        assert(self.rows@[m] == before[p as int]);
                        lemma_listed_before_total(before[p as int], row);
                    }
                    lemma_insert_newest_first(before, p as int, row);
                    before.insert_ensures(p as int, row);
                }
                out.insert(p, row);
                proof {
                    assert forall|x: Scout| #[trigger] out@.contains(x) <==> (self.rows@.subrange(0, k + 1).contains(x) && x.checked_in) by {
                        if out@.contains(x) {
                            let i = choose|i: int| 0 <= i < out@.len() && out@[i] == x;
                            if i < p {
                                assert(before[i] == x);
                                assert(before.contains(x));
                            } else if i > p {
                                assert(before[i - 1] == x);
                                assert(before.contains(x));
                            }
                        }
                        if before.contains(x) {
                            let i = choose|i: int| 0 <= i < before.len() && before[i] == x;
                            if i < p {
                                assert(out@[i] == x);
                            } else {
                                assert(out@[i + 1] == x);
                            }
                        }
                        assert(out@[p as int] == row);
                    }
                }
            } else {
                proof {
                    assert forall|x: Scout| #[trigger] out@.contains(x) <==> (self.rows@.subrange(0, k + 1).contains(x) && x.checked_in) by {
                        if x == self.rows@[k as int] {
                            assert(!x.checked_in);
                        }
                    }
                }
            }
            k = k + 1;
        }
        assert(self.rows@.subrange(0, self.rows@.len() as int) == self.rows@);
        out
    }

    /// One more than the largest car number stored, or 1 on an empty store.
    /// Advisory only: the number is not reserved.
    pub fn next_car_number(&self) -> (r: i64)
        ensures
            r == next_after(max_car_number(self.rows())),
    {
        let mut max: Option<i32> = None;
        let mut i: usize = 0;
        while i < self.rows.len()
            invariant
                i <= self.rows@.len(),
                max == max_car_number(self.rows@.subrange(0, i as int)),
            decreases self.rows@.len() - i,
        {
            assert(self.rows@.subrange(0, i + 1).drop_last() == self.rows@.subrange(0, i as int));
            let n = self.rows[i].car_number;
            max = match max {
                Some(m) => if m >= n { Some(m) } else { Some(n) },
                None => Some(n),
            };
            i = i + 1;
        }
        assert(self.rows@.subrange(0, self.rows@.len() as int) == self.rows@);
        next_car_number_after(max)
    }
}

/// In a well-formed store no two scouts share a car number.
pub proof fn lemma_car_numbers_unique(store: CheckinStore)
    requires
        store.wf(),
    ensures
        forall|i: int, j: int|
            0 <= i < store.rows().len() && 0 <= j < store.rows().len() && i != j
                ==> (#[trigger] store.rows()[i]).car_number != (#[trigger] store.rows()[j]).car_number,
{
}

/// An identity never handed out belongs to no scout.
pub proof fn lemma_unassigned_id_absent(store: CheckinStore, id: i64)
    requires
        store.wf(),
        id < 1 || id >= store.next_id(),
    ensures
        !has_id(store.rows(), id),
{
    if has_id(store.rows(), id) {
        let i = choose|i: int| 0 <= i < store.rows().len() && #[trigger] store.rows()[i].id == id;
        assert(1 <= store.rows()[i].id < store.next_id());
    }
}

} // verus!
