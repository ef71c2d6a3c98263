use vstd::prelude::*;

verus! {

/// `a` sorts strictly after `b` when compared byte by byte, a proper prefix
/// sorting first.
pub open spec fn bytes_after(a: Seq<u8>, b: Seq<u8>) -> bool
    decreases a.len(),
{
    if b.len() == 0 {
        a.len() > 0
    } else if a.len() == 0 {
        false
    } else if a[0] != b[0] {
        a[0] > b[0]
    } else {
        bytes_after(a.drop_first(), b.drop_first())
    }
}

/// No byte string sorts after itself, and of two byte strings at most one
/// sorts after the other.
pub proof fn lemma_bytes_after_asymmetric(a: Seq<u8>, b: Seq<u8>)
    ensures
        bytes_after(a, b) ==> !bytes_after(b, a),
        !bytes_after(a, a),
    decreases a.len(),
{
    if a.len() > 0 && b.len() > 0 && a[0] == b[0] {
        lemma_bytes_after_asymmetric(a.drop_first(), b.drop_first());
    }
    if a.len() > 0 {
        lemma_bytes_after_asymmetric(a.drop_first(), a.drop_first());
    }
}

/// Of two different byte strings, one sorts after the other.
pub proof fn lemma_bytes_after_total(a: Seq<u8>, b: Seq<u8>)
    requires
        a != b,
    ensures
        bytes_after(a, b) || bytes_after(b, a),
    decreases a.len(),
{
    if a.len() > 0 && b.len() > 0 && a[0] == b[0] {
        if a.drop_first() == b.drop_first() {
            assert(a =~= seq![a[0]] + a.drop_first());
            assert(b =~= seq![b[0]] + b.drop_first());
        }
        lemma_bytes_after_total(a.drop_first(), b.drop_first());
    }
    if a.len() == 0 && b.len() == 0 {
        assert(a =~= b);
    }
}

/// Sorting after is transitive.
pub proof fn lemma_bytes_after_transitive(a: Seq<u8>, b: Seq<u8>, c: Seq<u8>)
    requires
        bytes_after(a, b),
        bytes_after(b, c),
    ensures
        bytes_after(a, c),
    decreases a.len(),
{
    if c.len() > 0 && a[0] == b[0] && b[0] == c[0] {
        lemma_bytes_after_transitive(a.drop_first(), b.drop_first(), c.drop_first());
    }
}

/// Whether the text `a` sorts strictly after the text `b`, comparing their
/// UTF-8 encodings byte by byte.
pub fn text_after(a: &String, b: &String) -> (r: bool)
    ensures
        r == bytes_after(vstd::utf8::encode_utf8(a@), vstd::utf8::encode_utf8(b@)),
{
    let x = a.as_str().as_bytes();
    let y = b.as_str().as_bytes();
    let ghost xs = x@;
    let ghost ys = y@;
    let mut i: usize = 0;
    assert(xs.skip(0) == xs);
    assert(ys.skip(0) == ys);
    while i < x.len() && i < y.len() && x[i] == y[i]
        invariant
            xs == x@,
            ys == y@,
            i <= xs.len(),
            i <= ys.len(),
            bytes_after(xs, ys) == bytes_after(xs.skip(i as int), ys.skip(i as int)),
        decreases xs.len() - i,
    {
        assert(xs.skip(i as int).drop_first() == xs.skip(i + 1));
        assert(ys.skip(i as int).drop_first() == ys.skip(i + 1));
        i = i + 1;
    }
    if i == y.len() {
        i < x.len()
    } else if i == x.len() {
        false
    } else {
        x[i] > y[i]
    }
}

} // verus!
