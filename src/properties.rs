//! Configuration: integer-keyed properties as the user gives them, string-keyed
//! properties handed to link managers, and the parsing of their values.
use vstd::prelude::*;

verus! {

/// Key-value pairs in the order written; a later write of a key wins.
pub open spec fn pairs_map<K, V>(s: Seq<(K, V)>) -> Map<K, V>
    decreases s.len(),
{
    if s.len() == 0 {
        Map::empty()
    } else {
        pairs_map(s.drop_last()).insert(s.last().0, s.last().1)
    }
}

/// Writing `a` then `b` is `a` overridden by `b`.
pub proof fn lemma_pairs_map_concat<K, V>(a: Seq<(K, V)>, b: Seq<(K, V)>)
    ensures
        pairs_map(a + b) == pairs_map(a).union_prefer_right(pairs_map(b)),
    decreases b.len(),
{
    if b.len() == 0 {
        assert(a + b =~= a);
        assert(pairs_map(a).union_prefer_right(pairs_map(b)) =~= pairs_map(a));
    } else {
        assert((a + b).drop_last() =~= a + b.drop_last());
        assert((a + b).last() == b.last());
        lemma_pairs_map_concat(a, b.drop_last());
        assert(pairs_map(a + b) =~= pairs_map(a).union_prefer_right(pairs_map(b)));
    }
}

pub open spec fn config_view(s: Seq<(u64, String)>) -> Seq<(u64, Seq<char>)> {
    s.map_values(|e: (u64, String)| (e.0, e.1@))
}

pub open spec fn props_view(s: Seq<(String, String)>) -> Seq<(Seq<char>, Seq<char>)> {
    s.map_values(|e: (String, String)| (e.0@, e.1@))
}

/// Properties keyed by integers, as a session's configuration.
#[derive(Clone, Debug)]
pub struct ConfigProperties {
    pub entries: Vec<(u64, String)>,
}

impl View for ConfigProperties {
    type V = Map<u64, Seq<char>>;

    open spec fn view(&self) -> Map<u64, Seq<char>> {
        pairs_map(config_view(self.entries@))
    }
}

impl ConfigProperties {
    pub fn new() -> (r: ConfigProperties)
        ensures
            r@ == Map::<u64, Seq<char>>::empty(),
    {
        let r = ConfigProperties { entries: Vec::new() };
        assert(config_view(r.entries@) =~= Seq::<(u64, Seq<char>)>::empty());
        r
    }

    pub fn insert(&mut self, key: u64, value: String)
        ensures
            final(self)@ == old(self)@.insert(key, value@),
    {
        let ghost pre = config_view(self.entries@);
        self.entries.push((key, value));
        assert(config_view(self.entries@).drop_last() =~= pre);
    }

    /// The value of `key`, if it was written.
    pub fn get(&self, key: u64) -> (r: Option<String>)
        ensures
            match r {
                Some(v) => self@.contains_key(key) && self@[key] == v@,
                None => !self@.contains_key(key),
            },
    {
        let ghost s = config_view(self.entries@);
        let mut i: usize = self.entries.len();
        assert(s.take(i as int) =~= s);
        while i > 0
            invariant
                i <= self.entries@.len(),
                s == config_view(self.entries@),
                pairs_map(s).contains_key(key) == pairs_map(s.take(i as int)).contains_key(key),
                pairs_map(s).contains_key(key) ==> pairs_map(s)[key] == pairs_map(s.take(i as int))[key],
            decreases i,
        {
            let ghost t = s.take(i as int);
            assert(t.drop_last() =~= s.take(i - 1));
            assert(t.last() == s[i - 1]);
            if self.entries[i - 1].0 == key {
                return Some(self.entries[i - 1].1.clone());
            }
            i = i - 1;
        }
        assert(s.take(0) =~= Seq::<(u64, Seq<char>)>::empty());
        None
    }
}

impl ConfigProperties {
    pub fn clone_props(&self) -> (r: ConfigProperties)
        ensures
            r@ == self@,
    {
        let mut out = ConfigProperties::new();
        let ghost s = config_view(self.entries@);
        let mut i: usize = 0;
        while i < self.entries.len()
            invariant
                i <= self.entries@.len(),
                s == config_view(self.entries@),
                out@ == pairs_map(s.take(i as int)),
            decreases self.entries@.len() - i,
        {
            let k = self.entries[i].0;
            let v = self.entries[i].1.clone();
            out.insert(k, v);
            assert(s.take(i + 1).drop_last() =~= s.take(i as int));
            i = i + 1;
        }
        assert(s.take(i as int) =~= s);
        out
    }
}

/// Properties keyed by strings, as a link manager reads them.
#[derive(Clone, Debug)]
pub struct Properties {
    pub entries: Vec<(String, String)>,
}

impl View for Properties {
    type V = Map<Seq<char>, Seq<char>>;

    open spec fn view(&self) -> Map<Seq<char>, Seq<char>> {
        pairs_map(props_view(self.entries@))
    }
}

impl Properties {
    pub fn new() -> (r: Properties)
        ensures
            r@ == Map::<Seq<char>, Seq<char>>::empty(),
    {
        let r = Properties { entries: Vec::new() };
        assert(props_view(r.entries@) =~= Seq::<(Seq<char>, Seq<char>)>::empty());
        r
    }

    pub fn insert(&mut self, key: String, value: String)
        ensures
            final(self)@ == old(self)@.insert(key@, value@),
    {
        let ghost pre = props_view(self.entries@);
        self.entries.push((key, value));
        assert(props_view(self.entries@).drop_last() =~= pre);
    }

    /// Whether no property was written.
    pub fn is_empty(&self) -> (r: bool)
        ensures
            r == (self@ == Map::<Seq<char>, Seq<char>>::empty()),
    {
        let ghost s = props_view(self.entries@);
        if self.entries.len() == 0 {
            assert(s =~= Seq::<(Seq<char>, Seq<char>)>::empty());
            true
        } else {
            assert(pairs_map(s).contains_key(s.last().0));
            false
        }
    }

    /// The value of `key`, if it was written.
    pub fn get(&self, key: &String) -> (r: Option<String>)
        ensures
            match r {
                Some(v) => self@.contains_key(key@) && self@[key@] == v@,
                None => !self@.contains_key(key@),
            },
    {
        let ghost s = props_view(self.entries@);
        let mut i: usize = self.entries.len();
        assert(s.take(i as int) =~= s);
        while i > 0
            invariant
                i <= self.entries@.len(),
                s == props_view(self.entries@),
                pairs_map(s).contains_key(key@) == pairs_map(s.take(i as int)).contains_key(key@),
                pairs_map(s).contains_key(key@) ==> pairs_map(s)[key@] == pairs_map(s.take(i as int))[key@],
            decreases i,
        {
            let ghost t = s.take(i as int);
            assert(t.drop_last() =~= s.take(i - 1));
            assert(t.last() == s[i - 1]);
            if self.entries[i - 1].0 == *key {
                return Some(self.entries[i - 1].1.clone());
            }
            i = i - 1;
        }
        assert(s.take(0) =~= Seq::<(Seq<char>, Seq<char>)>::empty());
        None
    }

    /// These properties overridden by `other`: where both hold a key, `other`'s value wins.
    pub fn merge(&mut self, other: &Properties)
        ensures
            final(self)@ == old(self)@.union_prefer_right(other@),
    {
        let ghost a = props_view(self.entries@);
        let ghost b = props_view(other.entries@);
        let mut i: usize = 0;
        assert(b.take(0) =~= Seq::<(Seq<char>, Seq<char>)>::empty());
        assert(a + b.take(0) =~= a);
        while i < other.entries.len()
            invariant
                i <= other.entries@.len(),
                b == props_view(other.entries@),
                props_view(self.entries@) == a + b.take(i as int),
            decreases other.entries@.len() - i,
        {
            let k = other.entries[i].0.clone();
            let v = other.entries[i].1.clone();
            let ghost pre = props_view(self.entries@);
            self.entries.push((k, v));
            assert(props_view(self.entries@) =~= pre.push(b[i as int]));
            assert(b.take(i + 1) =~= b.take(i as int).push(b[i as int]));
            assert(props_view(self.entries@) =~= a + b.take(i + 1));
            i = i + 1;
        }
        assert(b.take(i as int) =~= b);
        proof {
            lemma_pairs_map_concat(a, b);
        }
    }
}

/// The value of a decimal digit.
pub open spec fn digit_value(c: char) -> nat {
    (c as u32 - '0' as u32) as nat
}

pub open spec fn is_digit(c: char) -> bool {
    '0' <= c <= '9'
}

/// The value of a string of decimal digits.
pub open spec fn decimal_value(s: Seq<char>) -> nat
    decreases s.len(),
{
    if s.len() == 0 {
        0
    } else {
        decimal_value(s.drop_last()) * 10 + digit_value(s.last())
    }
}

/// The digits of an unsigned decimal number, with an optional leading `+`.
pub open spec fn decimal_digits(s: Seq<char>) -> Seq<char> {
    if s.len() > 0 && s[0] == '+' {
        s.drop_first()
    } else {
        s
    }
}

/// The `u64` that `s` writes in decimal, if it writes one.
pub open spec fn spec_parse_u64(s: Seq<char>) -> Option<u64> {
    let d = decimal_digits(s);
    if d.len() > 0 && (forall|i: int| 0 <= i < d.len() ==> is_digit(#[trigger] d[i]))
        && decimal_value(d) <= u64::MAX {
        Some(decimal_value(d) as u64)
    } else {
        None
    }
}

proof fn lemma_decimal_monotone(s: Seq<char>, i: int)
    requires
        0 <= i <= s.len(),
        forall|j: int| 0 <= j < s.len() ==> is_digit(#[trigger] s[j]),
    ensures
        decimal_value(s.take(i)) <= decimal_value(s),
    decreases s.len() - i,
{
    if i < s.len() {
        lemma_decimal_monotone(s, i + 1);
        let t = s.take(i + 1);
        assert(t.drop_last() =~= s.take(i));
    } else {
        assert(s.take(i) =~= s);
    }
}

/// Reads an unsigned decimal number, with an optional leading `+`.
pub fn parse_u64(s: &str) -> (r: Option<u64>)
    ensures
        r == spec_parse_u64(s@),
{
    let n = s.unicode_len();
    let mut start: usize = 0;
    if n > 0 && s.get_char(0) == '+' {
        start = 1;
    }
    let ghost d = decimal_digits(s@);
    assert(d =~= s@.skip(start as int));
    if start >= n {
        return None;
    }
    let mut acc: u64 = 0;
    let mut i: usize = start;
    while i < n
        invariant
            start <= i <= n,
            n == s@.len(),
            d == s@.skip(start as int),
            d == decimal_digits(s@),
            forall|j: int| 0 <= j < i - start ==> is_digit(#[trigger] d[j]),
            acc == decimal_value(d.take(i - start)),
        decreases n - i,
    {
        let c = s.get_char(i);
        let ghost k = i - start;
        assert(d[k] == c);
        if !('0' <= c && c <= '9') {
            assert(!is_digit(d[k]));
            assert(0 <= k < d.len());
            assert(!(forall|j: int| 0 <= j < d.len() ==> is_digit(#[trigger] d[j])));
            assert(spec_parse_u64(s@) is None);
            return None;
        }
        let v = (c as u32 - '0' as u32) as u64;
        assert(d.take(k + 1).drop_last() =~= d.take(k));
        if acc > (u64::MAX - v) / 10 {
            proof {
                assert(acc * 10 + v > u64::MAX) by (nonlinear_arith)
                    requires acc > (u64::MAX - v) / 10, v <= 9;
                assert(decimal_value(d.take(k + 1)) == acc * 10 + v);
                if forall|j: int| 0 <= j < d.len() ==> is_digit(#[trigger] d[j]) {
                    lemma_decimal_monotone(d, k + 1);
                    assert(decimal_value(d) > u64::MAX);
                }
                assert(spec_parse_u64(s@) is None);
            }
            return None;
        }
        assert(acc * 10 + v <= u64::MAX) by (nonlinear_arith)
            requires acc <= (u64::MAX - v) / 10, v <= 9;
        acc = acc * 10 + v;
        i = i + 1;
    }
    assert(d.take(n - start) =~= d);
    Some(acc)
}

/// The `bool` that `s` writes, if it is `true` or `false`.
pub open spec fn spec_parse_bool(s: Seq<char>) -> Option<bool> {
    if s == seq!['t', 'r', 'u', 'e'] {
        Some(true)
    } else if s == seq!['f', 'a', 'l', 's', 'e'] {
        Some(false)
    } else {
        None
    }
}

fn str_is(s: &str, w: &str) -> (r: bool)
    ensures
        r == (s@ == w@),
{
    let n = s.unicode_len();
    if n != w.unicode_len() {
        return false;
    }
    let mut i: usize = 0;
    while i < n
        invariant
            i <= n,
            n == s@.len(),
            n == w@.len(),
            s@.take(i as int) == w@.take(i as int),
        decreases n - i,
    {
        if s.get_char(i) != w.get_char(i) {
            return false;
        }
        assert(s@.take(i + 1) =~= s@.take(i as int).push(s@[i as int]));
        assert(w@.take(i + 1) =~= w@.take(i as int).push(w@[i as int]));
        i = i + 1;
    }
    assert(s@ =~= s@.take(n as int));
    assert(w@ =~= w@.take(n as int));
    true
}

/// Reads `true` or `false`.
pub fn parse_bool(s: &str) -> (r: Option<bool>)
    ensures
        r == spec_parse_bool(s@),
{
    proof {
        reveal_strlit("true");
        reveal_strlit("false");
    }
    if str_is(s, "true") {
        assert("true"@ =~= seq!['t', 'r', 'u', 'e']);
        Some(true)
    } else if str_is(s, "false") {
        assert("false"@ =~= seq!['f', 'a', 'l', 's', 'e']);
        assert(s@ != seq!['t', 'r', 'u', 'e']);
        Some(false)
    } else {
        assert("true"@ =~= seq!['t', 'r', 'u', 'e']);
        assert("false"@ =~= seq!['f', 'a', 'l', 's', 'e']);
        None
    }
}

} // verus!

verus! {

/// Keys of the configuration properties.
pub const ZN_MODE_KEY: u64 = 0x40;
pub const ZN_PEER_KEY: u64 = 0x41;
pub const ZN_LISTENER_KEY: u64 = 0x42;
pub const ZN_MULTICAST_SCOUTING_KEY: u64 = 0x43;
pub const ZN_LINK_LEASE_KEY: u64 = 0x44;
pub const ZN_LINK_KEEP_ALIVE_KEY: u64 = 0x45;
pub const ZN_JOIN_INTERVAL_KEY: u64 = 0x46;
pub const ZN_MAX_SESSIONS_KEY: u64 = 0x47;
pub const ZN_MAX_LINKS_KEY: u64 = 0x48;
pub const ZN_QOS_KEY: u64 = 0x49;
pub const ZN_TLS_ROOT_CA_CERTIFICATE_KEY: u64 = 0x4a;
pub const ZN_TLS_SERVER_PRIVATE_KEY_KEY: u64 = 0x4b;
pub const ZN_TLS_SERVER_CERTIFICATE_KEY: u64 = 0x4c;
pub const ZN_INFO_ROUTER_PID_KEY: u64 = 0x81;

/// Default lease, in milliseconds.
pub const ZN_LINK_LEASE_DEFAULT: u64 = 10000;
/// Default keep-alive period, in milliseconds.
pub const ZN_LINK_KEEP_ALIVE_DEFAULT: u64 = 2500;
/// Default period of multicast joins, in milliseconds.
pub const ZN_JOIN_INTERVAL_DEFAULT: u64 = 2500;
pub const ZN_MAX_SESSIONS_DEFAULT: usize = 1024;
pub const ZN_MAX_LINKS_DEFAULT: usize = 1;
pub const ZN_QOS_DEFAULT: bool = true;

/// Where a configuration sets `key`: `Some(Some(v))` where its value is a
/// `u64`, `Some(None)` where it is absent, `None` where it does not parse.
pub open spec fn config_u64(cfg: Map<u64, Seq<char>>, key: u64) -> Option<Option<u64>> {
    if cfg.contains_key(key) {
        match spec_parse_u64(cfg[key]) {
            Some(v) => Some(Some(v)),
            None => None,
        }
    } else {
        Some(None)
    }
}

pub open spec fn config_bool(cfg: Map<u64, Seq<char>>, key: u64) -> Option<Option<bool>> {
    if cfg.contains_key(key) {
        match spec_parse_bool(cfg[key]) {
            Some(v) => Some(Some(v)),
            None => None,
        }
    } else {
        Some(None)
    }
}

impl ConfigProperties {
    /// The `u64` that the configuration sets for `key`: `Ok(None)` where it
    /// sets none, an error where its value does not parse.
    pub fn get_u64(&self, key: u64) -> (r: Result<Option<u64>, crate::protocol::ZError>)
        ensures
            match config_u64(self@, key) {
                Some(v) => r == Ok::<Option<u64>, crate::protocol::ZError>(v),
                None => r == crate::protocol::zerr::<Option<u64>>(crate::protocol::ZErrorKind::Other),
            },
    {
        match self.get(key) {
            None => Ok(None),
            Some(s) => match parse_u64(s.as_str()) {
                Some(v) => Ok(Some(v)),
                None => Err(crate::protocol::ZError { kind: crate::protocol::ZErrorKind::Other }),
            },
        }
    }

    /// The `bool` that the configuration sets for `key`.
    pub fn get_bool(&self, key: u64) -> (r: Result<Option<bool>, crate::protocol::ZError>)
        ensures
            match config_bool(self@, key) {
                Some(v) => r == Ok::<Option<bool>, crate::protocol::ZError>(v),
                None => r == crate::protocol::zerr::<Option<bool>>(crate::protocol::ZErrorKind::Other),
            },
    {
        match self.get(key) {
            None => Ok(None),
            Some(s) => match parse_bool(s.as_str()) {
                Some(v) => Ok(Some(v)),
                None => Err(crate::protocol::ZError { kind: crate::protocol::ZErrorKind::Other }),
            },
        }
    }
}

} // verus!
