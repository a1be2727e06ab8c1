//! What holds of the number codec: encodings order as the numbers do, and every eight bytes encode
//! exactly one number.
use crate::number::{
    be_bytes, be_value, law_u64_round_trip, order_decode_f64, order_encode_f64, spec_decode_f64,
    spec_decode_i64, spec_decode_u64,
};
use vstd::prelude::*;

verus! {

/// Whether `a` comes before `b` byte by byte: at the first place where they differ, `a` holds the
/// smaller byte.
pub open spec fn precedes(a: Seq<u8>, b: Seq<u8>) -> bool {
    exists|k: int|
        0 <= k < a.len() && k < b.len() && #[trigger] a[k] < b[k] && forall|j: int|
            0 <= j < k ==> #[trigger] a[j] == b[j]
}

/// Whether the double with the bit pattern `a` is less than the one with the bit pattern `b`: the
/// highest bit is the sign, the others are the magnitude, and the negative zero is less than the
/// positive one.
pub open spec fn less_double(a: u64, b: u64) -> bool {
    let sign: u64 = 0x8000_0000_0000_0000;
    if a >= sign && b >= sign {
        a > b
    } else if a < sign && b < sign {
        a < b
    } else {
        a >= sign
    }
}

/// Eight bytes that differ denote different numbers, in the same order.
proof fn lemma_order(a: Seq<u8>, b: Seq<u8>)
    requires
        a.len() == 8,
        b.len() == 8,
    ensures
        precedes(a, b) <==> be_value(a) < be_value(b),
        a == b <==> be_value(a) == be_value(b),
{
    if precedes(a, b) {
        lemma_less(a, b);
    }
    if precedes(b, a) {
        lemma_less(b, a);
    }
    if a != b && !precedes(a, b) && !precedes(b, a) {
        assert(a[0] == b[0]);
        assert(a[1] == b[1]);
        assert(a[2] == b[2]);
        assert(a[3] == b[3]);
        assert(a[4] == b[4]);
        assert(a[5] == b[5]);
        assert(a[6] == b[6]);
        assert(a[7] == b[7]);
        assert(a =~= b);
    }
}

/// The first byte that differs decides which number is less.
proof fn lemma_less(a: Seq<u8>, b: Seq<u8>)
    requires
        a.len() == 8,
        b.len() == 8,
        precedes(a, b),
    ensures
        be_value(a) < be_value(b),
{
    let k = choose|k: int|
        0 <= k < a.len() && k < b.len() && #[trigger] a[k] < b[k] && forall|j: int|
            0 <= j < k ==> #[trigger] a[j] == b[j];
    assert(k > 0 ==> a[0] == b[0]);
    assert(k > 1 ==> a[1] == b[1]);
    assert(k > 2 ==> a[2] == b[2]);
    assert(k > 3 ==> a[3] == b[3]);
    assert(k > 4 ==> a[4] == b[4]);
    assert(k > 5 ==> a[5] == b[5]);
    assert(k > 6 ==> a[6] == b[6]);
}

/// The encodings of unsigned integers take eight bytes and order as the integers do.
pub proof fn law_u64_order(a: u64, b: u64)
    ensures
        be_bytes(a).len() == 8,
        precedes(be_bytes(a), be_bytes(b)) <==> a < b,
{
    law_u64_round_trip(a, Seq::empty());
    law_u64_round_trip(b, Seq::empty());
    assert(be_bytes(a) + Seq::<u8>::empty() =~= be_bytes(a));
    assert(be_bytes(b) + Seq::<u8>::empty() =~= be_bytes(b));
    lemma_value_range(be_bytes(a));
    lemma_value_range(be_bytes(b));
    lemma_order(be_bytes(a), be_bytes(b));
}

/// Eight bytes denote a number of 64 bits.
proof fn lemma_value_range(data: Seq<u8>)
    requires
        data.len() >= 8,
    ensures
        0 <= be_value(data) <= u64::MAX,
{
}

/// Encoding gives back the eight bytes that were decoded; with fewer bytes nothing is decoded.
pub proof fn law_u64_decode_then_encode(data: Seq<u8>)
    ensures
        match spec_decode_u64(data) {
            Some(v) => data.len() >= 8 && be_bytes(v) == data.take(8),
            None => data.len() < 8,
        },
{
    if data.len() >= 8 {
        let head = data.take(8);
        lemma_value_range(data);
        let v = spec_decode_u64(data)->0;
        assert(be_value(head) == be_value(data));
        law_u64_round_trip(v, Seq::empty());
        assert(be_bytes(v) + Seq::<u8>::empty() =~= be_bytes(v));
        lemma_value_range(be_bytes(v));
        lemma_order(be_bytes(v), head);
    }
}

/// Signed integers order as the eight bytes that they are decoded from, and encoding gives these
/// bytes back; with fewer bytes nothing is decoded.
pub proof fn law_i64_order(a: Seq<u8>, b: Seq<u8>)
    ensures
        spec_decode_i64(a) is None <==> a.len() < 8,
        spec_decode_i64(a) matches Some(v) ==> be_bytes((v + 0x8000_0000_0000_0000) as u64)
            == a.take(8),
        a.len() >= 8 && b.len() >= 8 ==> (precedes(a.take(8), b.take(8)) <==> spec_decode_i64(a)->0
            < spec_decode_i64(b)->0),
{
    law_u64_decode_then_encode(a);
    law_u64_decode_then_encode(b);
    if a.len() >= 8 && b.len() >= 8 {
        law_u64_order(spec_decode_u64(a)->0, spec_decode_u64(b)->0);
    }
}

/// The encodings of signed integers order as the integers do.
pub proof fn law_i64_encoding_order(a: i64, b: i64)
    ensures
        precedes(
            be_bytes((a + 0x8000_0000_0000_0000) as u64),
            be_bytes((b + 0x8000_0000_0000_0000) as u64),
        ) <==> a < b,
{
    law_u64_order((a + 0x8000_0000_0000_0000) as u64, (b + 0x8000_0000_0000_0000) as u64);
}

/// Doubles order as the eight bytes that they are decoded from, and encoding gives these bytes
/// back; with fewer bytes nothing is decoded.
pub proof fn law_f64_order(a: Seq<u8>, b: Seq<u8>)
    ensures
        spec_decode_f64(a) is None <==> a.len() < 8,
        spec_decode_f64(a) matches Some(v) ==> be_bytes(order_encode_f64(v)) == a.take(8),
        a.len() >= 8 && b.len() >= 8 ==> (precedes(a.take(8), b.take(8)) <==> less_double(
            spec_decode_f64(a)->0,
            spec_decode_f64(b)->0,
        )),
{
    law_u64_decode_then_encode(a);
    law_u64_decode_then_encode(b);
    if a.len() >= 8 && b.len() >= 8 {
        law_u64_order(spec_decode_u64(a)->0, spec_decode_u64(b)->0);
    }
}

/// The encodings of doubles order as the doubles do.
pub proof fn law_f64_encoding_order(a: u64, b: u64)
    ensures
        precedes(be_bytes(order_encode_f64(a)), be_bytes(order_encode_f64(b))) <==> less_double(
            a,
            b,
        ),
        order_decode_f64(order_encode_f64(a)) == a,
{
    law_u64_order(order_encode_f64(a), order_encode_f64(b));
}

} // verus!
