//! Variable-length integers: seven payload bits per byte, the high bit set
//! on every byte but the last, least significant group first.
use vstd::prelude::*;

verus! {

/// Two to the power sixty-four: the values that a `u64` holds are below it.
pub open spec fn u64_bound() -> nat {
    0x1_0000_0000_0000_0000
}

/// The largest number of bytes that a `u64` takes on the wire.
pub const VARINT_MAX_LEN: usize = 10;

/// The encoding of `v`.
pub open spec fn varint(v: nat) -> Seq<u8>
    decreases v,
{
    if v < 128 {
        seq![v as u8]
    } else {
        seq![(v % 128 + 128) as u8] + varint(v / 128)
    }
}

/// What the bytes at the start of `s` encode, and how many bytes that takes,
/// whatever the size of the value.
pub open spec fn dec_varint(s: Seq<u8>) -> Option<(nat, nat)>
    decreases s.len(),
{
    if s.len() == 0 {
        None
    } else if s[0] < 128 {
        Some((s[0] as nat, 1))
    } else {
        match dec_varint(s.drop_first()) {
            Some((v, n)) => Some(((s[0] - 128) as nat + 128 * v, n + 1)),
            None => None,
        }
    }
}

/// `dec_varint` kept to encodings of at most `max_len` bytes whose value fits a `u64`.
pub open spec fn dec_varint_within(s: Seq<u8>, max_len: nat) -> Option<(u64, nat)> {
    match dec_varint(s) {
        Some((v, n)) => if n <= max_len && v < u64_bound() {
            Some((v as u64, n))
        } else {
            None
        },
        None => None,
    }
}

/// A `u64` read from the start of `s`.
pub open spec fn dec_u64(s: Seq<u8>) -> Option<(u64, nat)> {
    dec_varint_within(s, VARINT_MAX_LEN as nat)
}

/// A decoded integer takes at least one byte and no more than there are.
pub proof fn lemma_dec_varint_len(s: Seq<u8>)
    ensures
        dec_varint(s) matches Some((_, n)) ==> 1 <= n <= s.len(),
    decreases s.len(),
{
    if s.len() > 0 && s[0] >= 128 {
        lemma_dec_varint_len(s.drop_first());
    }
}

pub proof fn lemma_varint_len(v: nat)
    ensures
        1 <= varint(v).len(),
        v < 128 ==> varint(v).len() == 1,
        v >= 128 ==> varint(v).len() == 1 + varint(v / 128).len(),
{
    reveal_with_fuel(varint, 2);
}

/// `128` to the power `k`.
pub open spec fn pow128(k: nat) -> nat
    decreases k,
{
    if k == 0 {
        1
    } else {
        128 * pow128((k - 1) as nat)
    }
}

/// A value below `128^k`, `k >= 1`, takes at most `k` bytes.
pub proof fn lemma_varint_len_bound(v: nat, k: nat)
    requires
        k >= 1,
        v < pow128(k),
    ensures
        varint(v).len() <= k,
    decreases k,
{
    lemma_varint_len(v);
    if v >= 128 {
        let q = pow128((k - 1) as nat);
        assert(k >= 2) by {
            if k == 1 {
                reveal_with_fuel(pow128, 2);
            }
        }
        assert(v / 128 < q) by (nonlinear_arith)
            requires v < 128 * q;
        lemma_varint_len_bound(v / 128, (k - 1) as nat);
    }
}

/// A `u64` takes at most ten bytes.
pub proof fn lemma_varint_u64_len(v: u64)
    ensures
        varint(v as nat).len() <= VARINT_MAX_LEN,
{
    reveal_with_fuel(pow128, 11);
    assert(pow128(10) == 0x40_0000_0000_0000_0000nat);
    lemma_varint_len_bound(v as nat, 10);
}

/// Decoding the encoding of `v`, followed by anything, gives back `v` and the encoding's length.
pub proof fn lemma_varint_round_trip(v: nat, rest: Seq<u8>)
    ensures
        dec_varint(varint(v) + rest) == Some((v, varint(v).len())),
    decreases v,
{
    let s = varint(v) + rest;
    if v < 128 {
        assert(s[0] == v as u8);
    } else {
        lemma_varint_round_trip(v / 128, rest);
        assert(s.drop_first() =~= varint(v / 128) + rest);
        assert(s[0] == (v % 128 + 128) as u8);
    }
}

pub proof fn lemma_u64_round_trip(v: u64, rest: Seq<u8>)
    ensures
        dec_u64(varint(v as nat) + rest) == Some((v, varint(v as nat).len())),
{
    lemma_varint_round_trip(v as nat, rest);
    lemma_varint_u64_len(v);
}

/// Appends the encoding of `v` to `out`.
pub fn write_varint(out: &mut Vec<u8>, v: u64)
    ensures
        final(out)@ == old(out)@ + varint(v as nat),
{
    let mut x: u64 = v;
    while x >= 128
        invariant
            out@ + varint(x as nat) == old(out)@ + varint(v as nat),
        decreases x,
    {
        let b: u8 = (x % 128 + 128) as u8;
        let ghost pre = out@;
        out.push(b);
        assert(pre + varint(x as nat) =~= out@ + varint((x / 128) as nat));
        x = x / 128;
    }
    let ghost pre = out@;
    out.push(x as u8);
    assert(out@ =~= pre + varint(x as nat));
}

/// Reads a `u64` at `pos` in `buf` of at most `budget` bytes; `None` where
/// there is no complete encoding there, it is longer, or its value does not fit.
fn read_varint_within(buf: &Vec<u8>, pos: usize, budget: usize) -> (r: Option<(u64, usize)>)
    requires
        pos <= buf@.len(),
    ensures
        match dec_varint_within(buf@.skip(pos as int), budget as nat) {
            Some((v, n)) => r matches Some((w, p)) && w == v && p == pos + n,
            None => r is None,
        },
        r matches Some((_, p)) ==> pos < p <= buf@.len(),
    decreases budget,
{
    let ghost s = buf@.skip(pos as int);
    if pos >= buf.len() || budget == 0 {
        return None;
    }
    let b = buf[pos];
    assert(s[0] == b);
    if b < 128 {
        return Some((b as u64, pos + 1));
    }
    let inner = read_varint_within(buf, pos + 1, budget - 1);
    assert(buf@.skip(pos + 1) =~= s.drop_first());
    match inner {
        None => {
            proof {
                match dec_varint(s.drop_first()) {
                    Some((v, n)) => {
                        assert((b - 128) as nat + 128 * v >= v);
                    },
                    None => {},
                }
            }
            None
        },
        Some((v, p)) => {
            let low: u64 = (b - 128) as u64;
            if v > (u64::MAX - low) / 128 {
                proof {
                    assert(128 * (v as nat) + low as nat >= u64_bound()) by (nonlinear_arith)
                        requires v as nat > (0xffff_ffff_ffff_ffffu64 - low) as nat / 128, low < 128;
                }
                None
            } else {
                assert(128 * (v as nat) + low as nat <= 0xffff_ffff_ffff_ffffu64) by (nonlinear_arith)
                    requires v as nat <= (0xffff_ffff_ffff_ffffu64 - low) as nat / 128, low < 128;
                Some((low + 128 * v, p))
            }
        },
    }
}

/// Reads a `u64` at `pos` in `buf`: the value and the position after it.
pub fn read_varint(buf: &Vec<u8>, pos: usize) -> (r: Option<(u64, usize)>)
    requires
        pos <= buf@.len(),
    ensures
        match dec_u64(buf@.skip(pos as int)) {
            Some((v, n)) => r matches Some((w, p)) && w == v && p == pos + n,
            None => r is None,
        },
        r matches Some((_, p)) ==> pos < p <= buf@.len(),
{
    let ghost s = buf@.skip(pos as int);
    proof {
        lemma_dec_varint_len(s);
    }
    read_varint_within(buf, pos, VARINT_MAX_LEN)
}

} // verus!
