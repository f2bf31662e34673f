//! Application messages, the unit that the transport carries, and their
//! encoding inside a frame.
use vstd::prelude::*;
use crate::fields::{
    bytes_fit, dec_fields, enc_fields, field_fits, fields_view, kinds_of, lemma_fields_round_trip,
    field_bytes, field_int, fits, read_fields, write_fields, Field, FieldKind, FieldV,
};
use crate::protocol::{bytes_copy, Channel, CongestionControl};

verus! {

/// A resource key: a numeric id declared earlier, a name, or an id with a suffix.
#[derive(Debug, PartialEq, Eq)]
pub enum ResKey {
    RId(u64),
    RName(Vec<u8>),
    RIdWithSuffix(u64, Vec<u8>),
}

pub enum ResKeyV {
    RId(u64),
    RName(Seq<u8>),
    RIdWithSuffix(u64, Seq<u8>),
}

impl View for ResKey {
    type V = ResKeyV;

    open spec fn view(&self) -> ResKeyV {
        match self {
            ResKey::RId(id) => ResKeyV::RId(*id),
            ResKey::RName(n) => ResKeyV::RName(n@),
            ResKey::RIdWithSuffix(id, s) => ResKeyV::RIdWithSuffix(*id, s@),
        }
    }
}

/// What an application message says.
#[derive(Debug, PartialEq, Eq)]
pub enum JanuBody {
    Data { key: ResKey, payload: Vec<u8> },
    Query { key: ResKey, predicate: Vec<u8>, qid: u64 },
    Pull { key: ResKey, pull_id: u64 },
    Unit,
}

pub enum JanuBodyV {
    Data { key: ResKeyV, payload: Seq<u8> },
    Query { key: ResKeyV, predicate: Seq<u8>, qid: u64 },
    Pull { key: ResKeyV, pull_id: u64 },
    Unit,
}

impl View for JanuBody {
    type V = JanuBodyV;

    open spec fn view(&self) -> JanuBodyV {
        match self {
            JanuBody::Data { key, payload } => JanuBodyV::Data { key: key@, payload: payload@ },
            JanuBody::Query { key, predicate, qid } => JanuBodyV::Query {
                key: key@,
                predicate: predicate@,
                qid: *qid,
            },
            JanuBody::Pull { key, pull_id } => JanuBodyV::Pull { key: key@, pull_id: *pull_id },
            JanuBody::Unit => JanuBodyV::Unit,
        }
    }
}

/// An application message with the conduit it travels on and its producer policy.
#[derive(Debug, PartialEq, Eq)]
pub struct JanuMessage {
    pub channel: Channel,
    pub congestion_control: CongestionControl,
    pub body: JanuBody,
}

pub struct JanuMessageV {
    pub channel: Channel,
    pub congestion_control: CongestionControl,
    pub body: JanuBodyV,
}

impl View for JanuMessage {
    type V = JanuMessageV;

    open spec fn view(&self) -> JanuMessageV {
        JanuMessageV {
            channel: self.channel,
            congestion_control: self.congestion_control,
            body: self.body@,
        }
    }
}

pub open spec fn janu_msgs_view(v: Seq<JanuMessage>) -> Seq<JanuMessageV> {
    v.map_values(|m: JanuMessage| m@)
}

pub const DATA: u8 = 0x0c;
pub const QUERY: u8 = 0x0d;
pub const PULL: u8 = 0x0e;
pub const UNIT: u8 = 0x0f;

/// A header byte: a kind below 32 and three flags above it.
pub open spec fn mk_header(kind: u8, f1: bool, f2: bool, f3: bool) -> u8 {
    (kind + (if f1 { 32u8 } else { 0u8 }) + (if f2 { 64u8 } else { 0u8 }) + (if f3 { 128u8 } else { 0u8 })) as u8
}

pub open spec fn hkind(h: u8) -> u8 {
    h % 32
}

pub open spec fn hflag1(h: u8) -> bool {
    (h / 32) % 2 == 1
}

pub open spec fn hflag2(h: u8) -> bool {
    (h / 64) % 2 == 1
}

pub open spec fn hflag3(h: u8) -> bool {
    h >= 128
}

pub proof fn lemma_header(kind: u8, f1: bool, f2: bool, f3: bool)
    requires
        kind < 32,
    ensures
        hkind(mk_header(kind, f1, f2, f3)) == kind,
        hflag1(mk_header(kind, f1, f2, f3)) == f1,
        hflag2(mk_header(kind, f1, f2, f3)) == f2,
        hflag3(mk_header(kind, f1, f2, f3)) == f3,
{
}

pub fn make_header(kind: u8, f1: bool, f2: bool, f3: bool) -> (h: u8)
    requires
        kind < 32,
    ensures
        h == mk_header(kind, f1, f2, f3),
{
    kind + (if f1 { 32u8 } else { 0u8 }) + (if f2 { 64u8 } else { 0u8 }) + (if f3 { 128u8 } else { 0u8 })
}

pub open spec fn key_has_suffix(k: ResKeyV) -> bool {
    !(k is RId)
}

pub open spec fn key_valid(k: ResKeyV) -> bool {
    match k {
        ResKeyV::RId(_) => true,
        ResKeyV::RName(n) => bytes_fit(n),
        ResKeyV::RIdWithSuffix(id, s) => id != 0 && bytes_fit(s),
    }
}

pub open spec fn key_fields(k: ResKeyV) -> Seq<FieldV> {
    match k {
        ResKeyV::RId(id) => seq![FieldV::Int(id)],
        ResKeyV::RName(n) => seq![FieldV::Int(0), FieldV::Bytes(n)],
        ResKeyV::RIdWithSuffix(id, s) => seq![FieldV::Int(id), FieldV::Bytes(s)],
    }
}

/// The key held by the first fields, given whether a suffix is there.
pub open spec fn key_from(suffix: bool, fs: Seq<FieldV>) -> Option<ResKeyV> {
    if suffix {
        if fs.len() >= 2 {
            match (fs[0], fs[1]) {
                (FieldV::Int(id), FieldV::Bytes(s)) => if id == 0 {
                    Some(ResKeyV::RName(s))
                } else {
                    Some(ResKeyV::RIdWithSuffix(id, s))
                },
                _ => None,
            }
        } else {
            None
        }
    } else if fs.len() >= 1 {
        match fs[0] {
            FieldV::Int(id) => Some(ResKeyV::RId(id)),
            _ => None,
        }
    } else {
        None
    }
}

pub open spec fn body_valid(b: JanuBodyV) -> bool {
    match b {
        JanuBodyV::Data { key, payload } => key_valid(key) && bytes_fit(payload),
        JanuBodyV::Query { key, predicate, qid } => key_valid(key) && bytes_fit(predicate),
        JanuBodyV::Pull { key, pull_id } => key_valid(key),
        JanuBodyV::Unit => true,
    }
}

/// A message that the codec can write.
pub open spec fn janu_valid(m: JanuMessageV) -> bool {
    body_valid(m.body)
}

pub open spec fn janu_header(m: JanuMessageV) -> u8 {
    let d = m.congestion_control == CongestionControl::Drop;
    match m.body {
        JanuBodyV::Data { key, .. } => mk_header(DATA, d, key_has_suffix(key), false),
        JanuBodyV::Query { key, .. } => mk_header(QUERY, d, key_has_suffix(key), false),
        JanuBodyV::Pull { key, .. } => mk_header(PULL, d, key_has_suffix(key), false),
        JanuBodyV::Unit => mk_header(UNIT, d, false, false),
    }
}

pub open spec fn janu_fields(m: JanuMessageV) -> Seq<FieldV> {
    match m.body {
        JanuBodyV::Data { key, payload } => key_fields(key) + seq![FieldV::Bytes(payload)],
        JanuBodyV::Query { key, predicate, qid } => key_fields(key) + seq![
            FieldV::Bytes(predicate),
            FieldV::Int(qid),
        ],
        JanuBodyV::Pull { key, pull_id } => key_fields(key) + seq![FieldV::Int(pull_id)],
        JanuBodyV::Unit => Seq::empty(),
    }
}

pub open spec fn key_kinds(suffix: bool) -> Seq<FieldKind> {
    if suffix {
        seq![FieldKind::Int, FieldKind::Bytes]
    } else {
        seq![FieldKind::Int]
    }
}

/// The kinds of the fields that follow header `h`, if it is the header of an application message.
pub open spec fn janu_schema(h: u8) -> Option<Seq<FieldKind>> {
    let k = key_kinds(hflag2(h));
    if hflag3(h) {
        None
    } else if hkind(h) == DATA {
        Some(k + seq![FieldKind::Bytes])
    } else if hkind(h) == QUERY {
        Some(k + seq![FieldKind::Bytes, FieldKind::Int])
    } else if hkind(h) == PULL {
        Some(k + seq![FieldKind::Int])
    } else if hkind(h) == UNIT && !hflag2(h) {
        Some(Seq::empty())
    } else {
        None
    }
}

/// The message that header `h` and fields `fs` stand for, on channel `ch`.
pub open spec fn janu_from(h: u8, fs: Seq<FieldV>, ch: Channel) -> Option<JanuMessageV> {
    let cc = if hflag1(h) { CongestionControl::Drop } else { CongestionControl::Block };
    let off: int = if hflag2(h) { 2 } else { 1 };
    let body = if hkind(h) == UNIT {
        Some(JanuBodyV::Unit)
    } else {
        match key_from(hflag2(h), fs) {
            Some(key) => if hkind(h) == DATA && fs.len() > off {
                match fs[off] {
                    FieldV::Bytes(p) => Some(JanuBodyV::Data { key, payload: p }),
                    _ => None,
                }
            } else if hkind(h) == QUERY && fs.len() > off + 1 {
                match (fs[off], fs[off + 1]) {
                    (FieldV::Bytes(p), FieldV::Int(q)) => Some(
                        JanuBodyV::Query { key, predicate: p, qid: q },
                    ),
                    _ => None,
                }
            } else if hkind(h) == PULL && fs.len() > off {
                match fs[off] {
                    FieldV::Int(q) => Some(JanuBodyV::Pull { key, pull_id: q }),
                    _ => None,
                }
            } else {
                None
            },
            None => None,
        }
    };
    match body {
        Some(b) => Some(JanuMessageV { channel: ch, congestion_control: cc, body: b }),
        None => None,
    }
}

/// The encoding of an application message.
pub open spec fn enc_janu(m: JanuMessageV) -> Seq<u8> {
    seq![janu_header(m)] + enc_fields(janu_fields(m))
}

/// An application message read from the start of `s`, on channel `ch`, and its length.
pub open spec fn dec_janu(s: Seq<u8>, ch: Channel) -> Option<(JanuMessageV, nat)> {
    if s.len() == 0 {
        None
    } else {
        match janu_schema(s[0]) {
            Some(ks) => match dec_fields(ks, s.skip(1)) {
                Some((fs, n)) => match janu_from(s[0], fs, ch) {
                    Some(m) => Some((m, n + 1)),
                    None => None,
                },
                None => None,
            },
            None => None,
        }
    }
}

/// The encodings of a list of messages, back to back.
pub open spec fn enc_janu_all(ms: Seq<JanuMessageV>) -> Seq<u8>
    decreases ms.len(),
{
    if ms.len() == 0 {
        Seq::empty()
    } else {
        enc_janu(ms[0]) + enc_janu_all(ms.drop_first())
    }
}

/// All the messages that `s` holds, back to back, on channel `ch`.
pub open spec fn dec_janu_all(s: Seq<u8>, ch: Channel) -> Option<Seq<JanuMessageV>>
    decreases s.len(),
{
    if s.len() == 0 {
        Some(Seq::empty())
    } else {
        match dec_janu(s, ch) {
            Some((m, n)) => if 0 < n <= s.len() {
                match dec_janu_all(s.skip(n as int), ch) {
                    Some(ms) => Some(seq![m] + ms),
                    None => None,
                }
            } else {
                None
            },
            None => None,
        }
    }
}

pub proof fn lemma_janu_fields(m: JanuMessageV)
    requires
        janu_valid(m),
    ensures
        janu_schema(janu_header(m)) == Some(kinds_of(janu_fields(m))),
        janu_from(janu_header(m), janu_fields(m), m.channel) == Some(m),
        forall|i: int| 0 <= i < janu_fields(m).len() ==> field_fits(#[trigger] janu_fields(m)[i]),
{
    let d = m.congestion_control == CongestionControl::Drop;
    let h = janu_header(m);
    let fs = janu_fields(m);
    match m.body {
        JanuBodyV::Data { key, payload } => {
            lemma_header(DATA, d, key_has_suffix(key), false);
            assert(kinds_of(fs) =~= key_kinds(key_has_suffix(key)) + seq![FieldKind::Bytes]);
        },
        JanuBodyV::Query { key, predicate, qid } => {
            lemma_header(QUERY, d, key_has_suffix(key), false);
            assert(kinds_of(fs) =~= key_kinds(key_has_suffix(key)) + seq![FieldKind::Bytes, FieldKind::Int]);
        },
        JanuBodyV::Pull { key, pull_id } => {
            lemma_header(PULL, d, key_has_suffix(key), false);
            assert(kinds_of(fs) =~= key_kinds(key_has_suffix(key)) + seq![FieldKind::Int]);
        },
        JanuBodyV::Unit => {
            lemma_header(UNIT, d, false, false);
            assert(kinds_of(fs) =~= Seq::<FieldKind>::empty());
        },
    }
}

/// Decoding the encoding of a valid message, followed by anything, gives
/// back the message and the encoding's length.
pub proof fn lemma_janu_round_trip(m: JanuMessageV, rest: Seq<u8>)
    requires
        janu_valid(m),
    ensures
        dec_janu(enc_janu(m) + rest, m.channel) == Some((m, enc_janu(m).len())),
{
    let s = enc_janu(m) + rest;
    let fs = janu_fields(m);
    lemma_janu_fields(m);
    assert(s.skip(1) =~= enc_fields(fs) + rest);
    lemma_fields_round_trip(fs, rest);
}

/// Decoding back-to-back encodings of valid messages of one channel gives back the messages.
pub proof fn lemma_janu_all_round_trip(ms: Seq<JanuMessageV>, ch: Channel)
    requires
        forall|i: int| 0 <= i < ms.len() ==> janu_valid(#[trigger] ms[i]) && ms[i].channel == ch,
    ensures
        dec_janu_all(enc_janu_all(ms), ch) == Some(ms),
    decreases ms.len(),
{
    if ms.len() == 0 {
        assert(ms =~= Seq::<JanuMessageV>::empty());
    } else {
        let tail = ms.drop_first();
        assert(janu_valid(ms[0]) && ms[0].channel == ch);
        assert forall|i: int| 0 <= i < tail.len() implies janu_valid(#[trigger] tail[i]) && tail[i].channel == ch by {
            assert(tail[i] == ms[i + 1]);
        }
        let s = enc_janu_all(ms);
        lemma_janu_round_trip(ms[0], enc_janu_all(tail));
        let n = enc_janu(ms[0]).len();
        assert(s.skip(n as int) =~= enc_janu_all(tail));
        lemma_janu_all_round_trip(tail, ch);
        assert(seq![ms[0]] + tail =~= ms);
    }
}

} // verus!

verus! {

impl ResKey {
    pub fn has_suffix(&self) -> (r: bool)
        ensures
            r == key_has_suffix(self@),
    {
        !matches!(self, ResKey::RId(_))
    }

    pub fn duplicate(&self) -> (r: ResKey)
        ensures
            r@ == self@,
    {
        match self {
            ResKey::RId(id) => ResKey::RId(*id),
            ResKey::RName(n) => ResKey::RName(bytes_copy(n)),
            ResKey::RIdWithSuffix(id, s) => ResKey::RIdWithSuffix(*id, bytes_copy(s)),
        }
    }

    fn push_fields(&self, out: &mut Vec<Field>)
        ensures
            fields_view(final(out)@) == fields_view(old(out)@) + key_fields(self@),
    {
        let ghost pre = fields_view(out@);
        match self {
            ResKey::RId(id) => {
                out.push(Field::Int(*id));
            },
            ResKey::RName(n) => {
                out.push(Field::Int(0));
                out.push(Field::Bytes(bytes_copy(n)));
            },
            ResKey::RIdWithSuffix(id, s) => {
                out.push(Field::Int(*id));
                out.push(Field::Bytes(bytes_copy(s)));
            },
        }
        assert(fields_view(out@) =~= pre + key_fields(self@));
    }
}

fn read_key(suffix: bool, fs: &Vec<Field>) -> (r: Option<ResKey>)
    ensures
        match key_from(suffix, fields_view(fs@)) {
            Some(k) => r matches Some(x) && x@ == k,
            None => r is None,
        },
{
    if suffix {
        match (field_int(fs, 0), field_bytes(fs, 1)) {
            (Some(id), Some(s)) => if id == 0 {
                Some(ResKey::RName(s))
            } else {
                Some(ResKey::RIdWithSuffix(id, s))
            },
            _ => None,
        }
    } else {
        match field_int(fs, 0) {
            Some(id) => Some(ResKey::RId(id)),
            None => None,
        }
    }
}

/// The message that header `h` and fields `fs` stand for, on channel `ch`.
fn janu_from_fields(h: u8, fs: &Vec<Field>, ch: Channel) -> (r: Option<JanuMessage>)
    ensures
        match janu_from(h, fields_view(fs@), ch) {
            Some(m) => r matches Some(x) && x@ == m,
            None => r is None,
        },
{
    let cc = if (h / 32) % 2 == 1 { CongestionControl::Drop } else { CongestionControl::Block };
    let suffix = (h / 64) % 2 == 1;
    let off: usize = if suffix { 2 } else { 1 };
    let kind = h % 32;
    let body = if kind == UNIT {
        Some(JanuBody::Unit)
    } else {
        match read_key(suffix, fs) {
            Some(key) => if kind == DATA {
                match field_bytes(fs, off) {
                    Some(p) => Some(JanuBody::Data { key, payload: p }),
                    None => None,
                }
            } else if kind == QUERY {
                match (field_bytes(fs, off), field_int(fs, off + 1)) {
                    (Some(p), Some(q)) => Some(JanuBody::Query { key, predicate: p, qid: q }),
                    _ => None,
                }
            } else if kind == PULL {
                match field_int(fs, off) {
                    Some(q) => Some(JanuBody::Pull { key, pull_id: q }),
                    None => None,
                }
            } else {
                None
            },
            None => None,
        }
    };
    match body {
        Some(b) => Some(JanuMessage { channel: ch, congestion_control: cc, body: b }),
        None => None,
    }
}

fn janu_schema_of(h: u8) -> (r: Option<Vec<FieldKind>>)
    ensures
        match janu_schema(h) {
            Some(ks) => r matches Some(x) && x@ == ks,
            None => r is None,
        },
{
    let suffix = (h / 64) % 2 == 1;
    let kind = h % 32;
    let mut k: Vec<FieldKind> = Vec::new();
    k.push(FieldKind::Int);
    if suffix {
        k.push(FieldKind::Bytes);
    }
    assert(k@ =~= key_kinds(suffix));
    if h >= 128 {
        None
    } else if kind == DATA {
        k.push(FieldKind::Bytes);
        assert(k@ =~= key_kinds(suffix) + seq![FieldKind::Bytes]);
        Some(k)
    } else if kind == QUERY {
        k.push(FieldKind::Bytes);
        k.push(FieldKind::Int);
        assert(k@ =~= key_kinds(suffix) + seq![FieldKind::Bytes, FieldKind::Int]);
        Some(k)
    } else if kind == PULL {
        k.push(FieldKind::Int);
        assert(k@ =~= key_kinds(suffix) + seq![FieldKind::Int]);
        Some(k)
    } else if kind == UNIT && !suffix {
        let e: Vec<FieldKind> = Vec::new();
        assert(e@ =~= Seq::<FieldKind>::empty());
        Some(e)
    } else {
        None
    }
}

impl JanuMessage {
    /// The header byte of this message.
    pub fn header(&self) -> (h: u8)
        ensures
            h == janu_header(self@),
    {
        let d = match self.congestion_control {
            CongestionControl::Drop => true,
            CongestionControl::Block => false,
        };
        match &self.body {
            JanuBody::Data { key, .. } => make_header(DATA, d, key.has_suffix(), false),
            JanuBody::Query { key, .. } => make_header(QUERY, d, key.has_suffix(), false),
            JanuBody::Pull { key, .. } => make_header(PULL, d, key.has_suffix(), false),
            JanuBody::Unit => make_header(UNIT, d, false, false),
        }
    }

    fn fields(&self) -> (r: Vec<Field>)
        ensures
            fields_view(r@) == janu_fields(self@),
    {
        let mut out: Vec<Field> = Vec::new();
        assert(fields_view(out@) =~= Seq::<FieldV>::empty());
        match &self.body {
            JanuBody::Data { key, payload } => {
                key.push_fields(&mut out);
                let ghost pre = fields_view(out@);
                out.push(Field::Bytes(bytes_copy(payload)));
                assert(fields_view(out@) =~= pre + seq![FieldV::Bytes(payload@)]);
            },
            JanuBody::Query { key, predicate, qid } => {
                key.push_fields(&mut out);
                let ghost pre = fields_view(out@);
                out.push(Field::Bytes(bytes_copy(predicate)));
                out.push(Field::Int(*qid));
                assert(fields_view(out@) =~= pre + seq![FieldV::Bytes(predicate@), FieldV::Int(*qid)]);
            },
            JanuBody::Pull { key, pull_id } => {
                key.push_fields(&mut out);
                let ghost pre = fields_view(out@);
                out.push(Field::Int(*pull_id));
                assert(fields_view(out@) =~= pre + seq![FieldV::Int(*pull_id)]);
            },
            JanuBody::Unit => {},
        }
        assert(fields_view(out@) =~= janu_fields(self@));
        out
    }

    /// Appends the encoding of this message to `out`.
    pub fn encode(&self, out: &mut Vec<u8>)
        ensures
            final(out)@ == old(out)@ + enc_janu(self@),
    {
        let h = self.header();
        out.push(h);
        let fs = self.fields();
        write_fields(out, &fs);
        assert(out@ =~= old(out)@ + enc_janu(self@));
    }

    /// Reads a message at `pos` of `buf`, on channel `ch`: the message and the position after it.
    pub fn decode(buf: &Vec<u8>, pos: usize, ch: Channel) -> (r: Option<(JanuMessage, usize)>)
        requires
            pos <= buf@.len(),
        ensures
            match dec_janu(buf@.skip(pos as int), ch) {
                Some((m, n)) => r matches Some((x, p)) && x@ == m && p == pos + n,
                None => r is None,
            },
            r matches Some((_, p)) ==> pos < p <= buf@.len(),
    {
        let ghost s = buf@.skip(pos as int);
        if pos >= buf.len() {
            return None;
        }
        let h = buf[pos];
        assert(s[0] == h);
        match janu_schema_of(h) {
            None => None,
            Some(ks) => {
                assert(ks@.skip(0) =~= ks@);
                assert(buf@.skip(pos + 1) =~= s.skip(1));
                match read_fields(buf, pos + 1, &ks, 0) {
                    None => None,
                    Some((fs, p)) => match janu_from_fields(h, &fs, ch) {
                        None => None,
                        Some(m) => Some((m, p)),
                    },
                }
            },
        }
    }

    /// Whether the codec can write this message.
    pub fn is_valid(&self) -> (r: bool)
        ensures
            r == janu_valid(self@),
    {
        match &self.body {
            JanuBody::Data { key, payload } => key.is_valid() && fits(payload),
            JanuBody::Query { key, predicate, .. } => key.is_valid() && fits(predicate),
            JanuBody::Pull { key, .. } => key.is_valid(),
            JanuBody::Unit => true,
        }
    }
}

impl ResKey {
    pub fn is_valid(&self) -> (r: bool)
        ensures
            r == key_valid(self@),
    {
        match self {
            ResKey::RId(_) => true,
            ResKey::RName(n) => fits(n),
            ResKey::RIdWithSuffix(id, s) => *id != 0 && fits(s),
        }
    }
}

} // verus!
