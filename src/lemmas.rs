use vstd::prelude::*;

use crate::numbering::next_after;
use crate::order::bytes_after;
use crate::store::{
    car_number_taken, is_checked_in_listing, lemma_listed_before_asymmetric, listed_before,
    max_car_number, registered_row, stamp, NewScout, Scout,
};

verus! {

/// Once a scout is registered, its car number is taken: a second scout with
/// the same car number is refused.
pub proof fn lemma_duplicate_car_number_taken(
    rows: Seq<Scout>,
    first: NewScout,
    id: i64,
    created_at: String,
    second: NewScout,
)
    requires
        first.car_number == second.car_number,
    ensures
        car_number_taken(rows.push(registered_row(first, id, created_at)), second.car_number),
{
    let after = rows.push(registered_row(first, id, created_at));
    assert(after[rows.len() as int].car_number == second.car_number);
}

/// With no scouts stored, the suggested car number is 1.
pub proof fn lemma_next_car_number_empty()
    ensures
        next_after(max_car_number(Seq::<Scout>::empty())) == 1,
{
}

/// With scout `a` stored and then scout `b`, created strictly later, the
/// checked-in listing is `b` followed by `a`.
pub proof fn lemma_later_registration_listed_first(a: Scout, b: Scout, r: Seq<Scout>)
    requires
        a.checked_in,
        b.checked_in,
        bytes_after(stamp(b), stamp(a)),
        is_checked_in_listing(seq![a, b], r),
    ensures
        r == seq![b, a],
{
    let rows = seq![a, b];
    lemma_listed_before_asymmetric(a, b);
    lemma_listed_before_asymmetric(b, a);
    assert(listed_before(b, a));
    assert(a != b);
    assert(rows.contains(a) && rows.contains(b));
    assert(r.contains(a) && r.contains(b));
    assert forall|i: int| 0 <= i < r.len() implies #[trigger] r[i] == a || r[i] == b by {
        assert(r.contains(r[i]));
        let k = choose|k: int| 0 <= k < rows.len() && rows[k] == r[i];
    }
    let ia = choose|i: int| 0 <= i < r.len() && r[i] == a;
    let ib = choose|i: int| 0 <= i < r.len() && r[i] == b;
    assert(ia != ib);
    if r.len() >= 3 {
        assert(listed_before(r[0], r[1]) && listed_before(r[1], r[2]) && listed_before(r[0], r[2]));
        assert(r[0] == a || r[0] == b);
        assert(r[1] == a || r[1] == b);
        assert(r[2] == a || r[2] == b);
    }
    assert(r.len() == 2);
    assert(listed_before(r[0], r[1]));
    assert(r =~= seq![b, a]);
}

} // verus!
