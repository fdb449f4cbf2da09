//! Base-128, little-endian, continuation-bit-tagged unsigned integers.
use vstd::prelude::*;

verus! {

/// Why a VarInt could not be read.
#[derive(Debug, Clone, Copy, PartialEq, Eq, Structural)]
pub enum VarIntError {
    /// The input ended before a byte with a clear high bit.
    Malformed,
    /// The encoded value does not fit in a `u64`.
    TooLarge,
}

/// The length of the VarInt at the start of `b`: up to and including the first
/// byte whose high bit is clear.
pub open spec fn varint_len(b: Seq<u8>) -> Option<nat>
    decreases b.len(),
{
    if b.len() == 0 {
        None
    } else if b[0] < 128 {
        Some(1)
    } else {
        match varint_len(b.drop_first()) {
            Some(n) => Some(n + 1),
            None => None,
        }
    }
}

/// The value of a sequence of 7-bit groups, first group least significant.
pub open spec fn groups_value(g: Seq<u8>) -> nat
    decreases g.len(),
{
    if g.len() == 0 {
        0
    } else {
        (g[0] % 128) as nat + 128 * groups_value(g.drop_first())
    }
}

/// What reading a VarInt from the start of `b` gives: the value and the number
/// of bytes it occupies.
pub open spec fn varint(b: Seq<u8>) -> Result<(u64, nat), VarIntError> {
    match varint_len(b) {
        None => Err(VarIntError::Malformed),
        Some(n) => {
            let v = groups_value(b.take(n as int));
            if v > u64::MAX {
                Err(VarIntError::TooLarge)
            } else {
                Ok((v as u64, n))
            }
        },
    }
}

/// The shortest encoding of `v`.
pub open spec fn varint_encode(v: nat) -> Seq<u8>
    decreases v,
{
    if v < 128 {
        seq![v as u8]
    } else {
        seq![(v % 128 + 128) as u8] + varint_encode(v / 128)
    }
}

proof fn lemma_varint_len_prefix(b: Seq<u8>, i: int)
    requires
        0 <= i <= b.len(),
        forall|j: int| 0 <= j < i ==> b[j] >= 128,
    ensures
        i < b.len() && b[i] < 128 ==> varint_len(b) == Some((i + 1) as nat),
        i == b.len() ==> varint_len(b) is None,
    decreases i,
{
    if i > 0 {
        let t = b.drop_first();
        assert forall|j: int| 0 <= j < i - 1 implies t[j] >= 128 by {
            assert(t[j] == b[j + 1]);
        }
        lemma_varint_len_prefix(t, i - 1);
        if i < b.len() {
            assert(t[i - 1] == b[i]);
        }
    }
}

proof fn lemma_groups_value_step(b: Seq<u8>, j: int, n: int)
    requires
        0 <= j < n <= b.len(),
    ensures
        groups_value(b.subrange(j, n)) == (b[j] % 128) as nat + 128 * groups_value(
            b.subrange(j + 1, n),
        ),
{
    assert(b.subrange(j, n).drop_first() =~= b.subrange(j + 1, n));
}

proof fn lemma_groups_value_grows(b: Seq<u8>, j: int, n: int)
    requires
        0 <= j <= n <= b.len(),
    ensures
        groups_value(b.subrange(0, n)) >= groups_value(b.subrange(j, n)),
    decreases j,
{
    if j > 0 {
        lemma_groups_value_step(b, j - 1, n);
        lemma_groups_value_grows(b, j - 1, n);
    }
}

/// Reads the VarInt at the start of `b` and returns its value together with
/// the bytes that follow it.
pub fn decode_varint(b: &[u8]) -> (r: Result<(u64, &[u8]), VarIntError>)
    ensures
        match (r, varint(b@)) {
            (Ok((v, rest)), Ok((sv, n))) => v == sv && 1 <= n <= b@.len() && rest@ == b@.subrange(
                n as int,
                b@.len() as int,
            ),
            (Err(e), Err(se)) => e == se,
            _ => false,
        },
{
    let mut i: usize = 0;
    while i < b.len() && b[i] >= 128
        invariant
            i <= b.len(),
            forall|j: int| 0 <= j < i ==> b@[j] >= 128,
        decreases b.len() - i,
    {
        i = i + 1;
    }
    proof {
        lemma_varint_len_prefix(b@, i as int);
    }
    if i == b.len() {
        return Err(VarIntError::Malformed);
    }
    let n: usize = i + 1;
    let mut acc: u64 = 0;
    let mut j: usize = n;
    assert(b@.subrange(n as int, n as int).len() == 0);
    while j > 0
        invariant
            j <= n <= b.len(),
            acc as nat == groups_value(b@.subrange(j as int, n as int)),
            varint_len(b@) == Some(n as nat),
        decreases j,
    {
        let g: u64 = (b[j - 1] % 128) as u64;
        proof {
            lemma_groups_value_step(b@, j - 1, n as int);
        }
        if acc > (u64::MAX - g) / 128 {
            proof {
                assert(g + 128 * acc > u64::MAX) by (nonlinear_arith)
                    requires
                        acc > (u64::MAX - g) / 128,
                        g <= 127,
                ;
                assert(groups_value(b@.subrange(j - 1, n as int)) == g + 128 * acc);
                lemma_groups_value_grows(b@, j - 1, n as int);
                assert(b@.take(n as int) =~= b@.subrange(0, n as int));
                assert(groups_value(b@.take(n as int)) > u64::MAX);
            }
            return Err(VarIntError::TooLarge);
        }
        proof {
            assert(g + 128 * acc <= u64::MAX) by (nonlinear_arith)
                requires
                    acc <= (u64::MAX - g) / 128,
                    g <= 127,
            ;
        }
        acc = g + 128 * acc;
        j = j - 1;
    }
    assert(b@.take(n as int) =~= b@.subrange(0, n as int));
    Ok((acc, vstd::slice::slice_subrange(b, n, b.len())))
}

proof fn lemma_encode_shape(v: nat, rest: Seq<u8>)
    ensures
        varint_len(varint_encode(v) + rest) == Some(varint_encode(v).len()),
        groups_value(varint_encode(v)) == v,
    decreases v,
{
    let e = varint_encode(v);
    if v < 128 {
        assert((e + rest).drop_first() =~= rest);
        assert(e.drop_first() =~= Seq::<u8>::empty());
        assert(e[0] % 128 == v);
        assert(groups_value(e.drop_first()) == 0);
    } else {
        let t = varint_encode(v / 128);
        lemma_encode_shape(v / 128, rest);
        assert((e + rest).drop_first() =~= t + rest);
        assert(e.drop_first() =~= t);
        assert(e[0] % 128 == v % 128);
        assert(v == v % 128 + 128 * (v / 128));
        assert(groups_value(e) == e[0] % 128 + 128 * groups_value(t));
    }
}

/// Reading back the encoding of any `u64` gives that value, and stops exactly
/// where the encoding ends.
pub proof fn lemma_varint_round_trip(v: u64, rest: Seq<u8>)
    ensures
        varint(varint_encode(v as nat) + rest) == Ok::<(u64, nat), VarIntError>(
            (v, varint_encode(v as nat).len()),
        ),
        (varint_encode(v as nat) + rest).subrange(
            varint_encode(v as nat).len() as int,
            (varint_encode(v as nat) + rest).len() as int,
        ) == rest,
{
    let e = varint_encode(v as nat);
    lemma_encode_shape(v as nat, rest);
    assert((e + rest).take(e.len() as int) =~= e);
    assert((e + rest).subrange(e.len() as int, (e + rest).len() as int) =~= rest);
}

} // verus!
