//! The body of every message is a list of fields, each an integer or a
//! length-prefixed byte string; which fields follow is decided by the
//! message's header byte.
use vstd::prelude::*;
use crate::varint::{dec_u64, lemma_u64_round_trip, read_varint, varint, write_varint};

verus! {

/// The kind of a field.
#[derive(Clone, Copy, Debug, PartialEq, Eq, Structural)]
pub enum FieldKind {
    Int,
    Bytes,
}

/// A field as the codec handles it.
#[derive(Debug)]
pub enum Field {
    Int(u64),
    Bytes(Vec<u8>),
}

/// A field as a mathematical value.
pub enum FieldV {
    Int(u64),
    Bytes(Seq<u8>),
}

impl View for Field {
    type V = FieldV;

    open spec fn view(&self) -> FieldV {
        match self {
            Field::Int(v) => FieldV::Int(*v),
            Field::Bytes(b) => FieldV::Bytes(b@),
        }
    }
}

pub open spec fn fields_view(v: Seq<Field>) -> Seq<FieldV> {
    v.map_values(|f: Field| f@)
}

/// The integer at index `i`, if there is one there.
pub open spec fn int_at(fs: Seq<FieldV>, i: int) -> Option<u64> {
    if 0 <= i < fs.len() {
        match fs[i] {
            FieldV::Int(v) => Some(v),
            _ => None,
        }
    } else {
        None
    }
}

/// The byte string at index `i`, if there is one there.
pub open spec fn bytes_at(fs: Seq<FieldV>, i: int) -> Option<Seq<u8>> {
    if 0 <= i < fs.len() {
        match fs[i] {
            FieldV::Bytes(b) => Some(b),
            _ => None,
        }
    } else {
        None
    }
}

pub open spec fn kind_of(f: FieldV) -> FieldKind {
    match f {
        FieldV::Int(_) => FieldKind::Int,
        FieldV::Bytes(_) => FieldKind::Bytes,
    }
}

pub open spec fn kinds_of(fs: Seq<FieldV>) -> Seq<FieldKind> {
    fs.map_values(|f: FieldV| kind_of(f))
}

/// A byte string's length fits a `usize`, and so can be written as a `u64`.
pub open spec fn bytes_fit(b: Seq<u8>) -> bool {
    b.len() <= usize::MAX
}

pub open spec fn field_fits(f: FieldV) -> bool {
    match f {
        FieldV::Int(_) => true,
        FieldV::Bytes(b) => bytes_fit(b),
    }
}

pub open spec fn enc_field(f: FieldV) -> Seq<u8> {
    match f {
        FieldV::Int(v) => varint(v as nat),
        FieldV::Bytes(b) => varint(b.len()) + b,
    }
}

pub open spec fn enc_fields(fs: Seq<FieldV>) -> Seq<u8>
    decreases fs.len(),
{
    if fs.len() == 0 {
        Seq::empty()
    } else {
        enc_field(fs[0]) + enc_fields(fs.drop_first())
    }
}

pub open spec fn dec_field(k: FieldKind, s: Seq<u8>) -> Option<(FieldV, nat)> {
    match k {
        FieldKind::Int => match dec_u64(s) {
            Some((v, n)) => Some((FieldV::Int(v), n)),
            None => None,
        },
        FieldKind::Bytes => match dec_u64(s) {
            Some((l, n)) => if n + l <= s.len() {
                Some((FieldV::Bytes(s.subrange(n as int, n + l)), (n + l) as nat))
            } else {
                None
            },
            None => None,
        },
    }
}

pub open spec fn dec_fields(ks: Seq<FieldKind>, s: Seq<u8>) -> Option<(Seq<FieldV>, nat)>
    decreases ks.len(),
{
    if ks.len() == 0 {
        Some((Seq::empty(), 0))
    } else {
        match dec_field(ks[0], s) {
            Some((f, n)) => match dec_fields(ks.drop_first(), s.skip(n as int)) {
                Some((fs, m)) => Some((seq![f] + fs, n + m)),
                None => None,
            },
            None => None,
        }
    }
}

pub proof fn lemma_field_round_trip(f: FieldV, rest: Seq<u8>)
    requires
        field_fits(f),
    ensures
        dec_field(kind_of(f), enc_field(f) + rest) == Some((f, enc_field(f).len())),
{
    match f {
        FieldV::Int(v) => {
            lemma_u64_round_trip(v, rest);
        },
        FieldV::Bytes(b) => {
            let l = b.len() as u64;
            let s = enc_field(f) + rest;
            assert(s =~= varint(l as nat) + (b + rest));
            lemma_u64_round_trip(l, b + rest);
            let n = varint(l as nat).len();
            assert(s.subrange(n as int, n + l) =~= b);
        },
    }
}

/// Decoding the encoding of a list of fields by their kinds, followed by
/// anything, gives back the list and the encoding's length.
pub proof fn lemma_fields_round_trip(fs: Seq<FieldV>, rest: Seq<u8>)
    requires
        forall|i: int| 0 <= i < fs.len() ==> field_fits(#[trigger] fs[i]),
    ensures
        dec_fields(kinds_of(fs), enc_fields(fs) + rest) == Some((fs, enc_fields(fs).len())),
    decreases fs.len(),
{
    let ks = kinds_of(fs);
    if fs.len() > 0 {
        let tail = fs.drop_first();
        assert(field_fits(fs[0]));
        assert forall|i: int| 0 <= i < tail.len() implies field_fits(#[trigger] tail[i]) by {
            assert(tail[i] == fs[i + 1]);
        }
        let s = enc_fields(fs) + rest;
        assert(s =~= enc_field(fs[0]) + (enc_fields(tail) + rest));
        lemma_field_round_trip(fs[0], enc_fields(tail) + rest);
        let n = enc_field(fs[0]).len();
        assert(s.skip(n as int) =~= enc_fields(tail) + rest);
        assert(ks.drop_first() =~= kinds_of(tail));
        lemma_fields_round_trip(tail, rest);
        assert(seq![fs[0]] + tail =~= fs);
    } else {
        assert(fs =~= Seq::<FieldV>::empty());
    }
}

/// Whether the length of `b` can be written, which always holds of a `Vec`.
pub fn fits(b: &Vec<u8>) -> (r: bool)
    ensures
        r == bytes_fit(b@),
        r,
{
    let l = b.len();
    true
}

pub fn field_int(fs: &Vec<Field>, i: usize) -> (r: Option<u64>)
    ensures
        r == int_at(fields_view(fs@), i as int),
{
    if i < fs.len() {
        match &fs[i] {
            Field::Int(v) => Some(*v),
            Field::Bytes(_) => None,
        }
    } else {
        None
    }
}

pub fn field_bytes(fs: &Vec<Field>, i: usize) -> (r: Option<Vec<u8>>)
    ensures
        match bytes_at(fields_view(fs@), i as int) {
            Some(b) => r matches Some(x) && x@ == b,
            None => r is None,
        },
{
    if i < fs.len() {
        match &fs[i] {
            Field::Int(_) => None,
            Field::Bytes(b) => Some(crate::protocol::bytes_copy(b)),
        }
    } else {
        None
    }
}

/// Appends `b` with its length before it.
pub fn write_bytes(out: &mut Vec<u8>, b: &Vec<u8>)
    ensures
        final(out)@ == old(out)@ + enc_field(FieldV::Bytes(b@)),
{
    write_varint(out, b.len() as u64);
    let ghost mid = out@;
    let mut i: usize = 0;
    while i < b.len()
        invariant
            i <= b@.len(),
            out@ == mid + b@.subrange(0, i as int),
        decreases b@.len() - i,
    {
        out.push(b[i]);
        assert(b@.subrange(0, i + 1) =~= b@.subrange(0, i as int).push(b@[i as int]));
        i = i + 1;
    }
    assert(b@.subrange(0, i as int) =~= b@);
    assert(out@ =~= old(out)@ + enc_field(FieldV::Bytes(b@)));
}

pub fn write_field(out: &mut Vec<u8>, f: &Field)
    ensures
        final(out)@ == old(out)@ + enc_field(f@),
{
    match f {
        Field::Int(v) => write_varint(out, *v),
        Field::Bytes(b) => write_bytes(out, b),
    }
}

pub fn write_fields(out: &mut Vec<u8>, fs: &Vec<Field>)
    ensures
        final(out)@ == old(out)@ + enc_fields(fields_view(fs@)),
{
    let ghost all = fields_view(fs@);
    assert(all.skip(0) =~= all);
    let mut i: usize = 0;
    while i < fs.len()
        invariant
            i <= fs@.len(),
            all == fields_view(fs@),
            out@ + enc_fields(all.skip(i as int)) == old(out)@ + enc_fields(all),
        decreases fs@.len() - i,
    {
        let ghost pre = out@;
        write_field(out, &fs[i]);
        assert(all.skip(i as int).drop_first() =~= all.skip(i + 1));
        assert(all.skip(i as int)[0] == fs@[i as int]@);
        assert(pre + enc_fields(all.skip(i as int)) =~= out@ + enc_fields(all.skip(i + 1)));
        i = i + 1;
    }
    assert(all.skip(i as int) =~= Seq::<FieldV>::empty());
    assert(out@ + enc_fields(all.skip(i as int)) =~= out@);
}

/// Reads a field of kind `k` at `pos`.
pub fn read_field(buf: &Vec<u8>, pos: usize, k: FieldKind) -> (r: Option<(Field, usize)>)
    requires
        pos <= buf@.len(),
    ensures
        match dec_field(k, buf@.skip(pos as int)) {
            Some((f, n)) => r matches Some((g, p)) && g@ == f && p == pos + n,
            None => r is None,
        },
        r matches Some((_, p)) ==> pos <= p <= buf@.len(),
{
    let ghost s = buf@.skip(pos as int);
    match read_varint(buf, pos) {
        None => None,
        Some((v, p)) => {
            match k {
                FieldKind::Int => Some((Field::Int(v), p)),
                FieldKind::Bytes => {
                    assert(dec_u64(s) == Some((v, (p - pos) as nat)));
                    if v > (buf.len() - p) as u64 {
                        assert(s.len() == buf@.len() - pos);
                        return None;
                    }
                    let end: usize = p + v as usize;
                    let mut out: Vec<u8> = Vec::new();
                    let mut i: usize = p;
                    while i < end
                        invariant
                            p <= i <= end <= buf@.len(),
                            out@ == buf@.subrange(p as int, i as int),
                        decreases end - i,
                    {
                        out.push(buf[i]);
                        assert(buf@.subrange(p as int, i + 1) =~= buf@.subrange(p as int, i as int).push(buf@[i as int]));
                        i = i + 1;
                    }
                    assert(out@ =~= s.subrange((p - pos) as int, (p - pos) + v));
                    let r = Some((Field::Bytes(out), end));
                    assert(dec_field(k, s) == Some((FieldV::Bytes(out@), ((p - pos) + v) as nat)));
                    r
                },
            }
        },
    }
}

/// Reads fields of the kinds `ks[i..]` at `pos`.
pub fn read_fields(buf: &Vec<u8>, pos: usize, ks: &Vec<FieldKind>, i: usize) -> (r: Option<(Vec<Field>, usize)>)
    requires
        pos <= buf@.len(),
        i <= ks@.len(),
    ensures
        match dec_fields(ks@.skip(i as int), buf@.skip(pos as int)) {
            Some((fs, n)) => r matches Some((g, p)) && fields_view(g@) == fs && p == pos + n,
            None => r is None,
        },
        r matches Some((_, p)) ==> pos <= p <= buf@.len(),
    decreases ks@.len() - i,
{
    let ghost kk = ks@.skip(i as int);
    let ghost s = buf@.skip(pos as int);
    if i >= ks.len() {
        let v: Vec<Field> = Vec::new();
        assert(fields_view(v@) =~= Seq::<FieldV>::empty());
        return Some((v, pos));
    }
    assert(kk[0] == ks@[i as int]);
    match read_field(buf, pos, ks[i]) {
        None => None,
        Some((f, p)) => {
            assert(kk.drop_first() =~= ks@.skip(i + 1));
            assert(buf@.skip(p as int) =~= s.skip(p - pos));
            match read_fields(buf, p, ks, i + 1) {
                None => None,
                Some((mut rest, q)) => {
                    let ghost rv = fields_view(rest@);
                    let ghost fv = f@;
                    rest.insert(0, f);
                    assert(fields_view(rest@) =~= seq![fv] + rv);
                    Some((rest, q))
                },
            }
        },
    }
}

} // verus!
