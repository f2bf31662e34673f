//! TLS and QUIC endpoints: the configuration they take from a session's
//! properties, the address to connect to, and the DNS name that a
//! certificate is checked against.
use vstd::prelude::*;
use crate::link::{LocatorAddress, LocatorQuic, LocatorTls, SocketAddr};
use crate::properties::{
    ConfigProperties, Properties, ZN_TLS_ROOT_CA_CERTIFICATE_KEY, ZN_TLS_SERVER_CERTIFICATE_KEY,
    ZN_TLS_SERVER_PRIVATE_KEY_KEY,
};
use crate::protocol::{zerr, ZError, ZErrorKind, ZResult};
use vstd::string::StringExecFns;

verus! {

/// The property naming the file of the root CA certificate.
pub const TLS_ROOT_CA_CERTIFICATE_FILE: &'static str = "tls_root_ca_certificate_file";
/// The property naming the file of the server's private key.
pub const TLS_SERVER_PRIVATE_KEY_FILE: &'static str = "tls_server_private_key_file";
/// The property naming the file of the server's certificate.
pub const TLS_SERVER_CERTIFICATE_FILE: &'static str = "tls_server_certificate_file";

#[verifier::external_type_specification]
#[verifier::external_body]
pub struct ExDnsName(webpki::DnsName);

#[verifier::external_type_specification]
#[verifier::external_body]
pub struct ExLegacyDnsName(async_rustls::webpki::DNSName);

/// Whether webpki 0.22 takes `s` for a syntactically valid DNS name.
pub uninterp spec fn is_dns_name(s: Seq<char>) -> bool;

/// Whether the webpki of async-rustls takes `s` for a syntactically valid DNS name.
pub uninterp spec fn is_legacy_dns_name(s: Seq<char>) -> bool;

/// Relies on webpki::DnsNameRef::try_from_ascii_str: it succeeds exactly on
/// valid DNS names; the name is then owned with `to_owned`.
#[verifier::external_body]
fn dns_name(dom: &str) -> (r: Option<webpki::DnsName>)
    ensures
        r is Some <==> is_dns_name(dom@),
{
    match webpki::DnsNameRef::try_from_ascii_str(dom) {
        Ok(d) => Some(d.to_owned()),
        Err(_) => None,
    }
}

/// Relies on async_rustls::webpki::DNSNameRef::try_from_ascii_str: it
/// succeeds exactly on valid DNS names; the name is then owned with `to_owned`.
#[verifier::external_body]
fn legacy_dns_name(dom: &str) -> (r: Option<async_rustls::webpki::DNSName>)
    ensures
        r is Some <==> is_legacy_dns_name(dom@),
{
    match async_rustls::webpki::DNSNameRef::try_from_ascii_str(dom) {
        Ok(d) => Some(d.to_owned()),
        Err(_) => None,
    }
}

/// The part of `s` before its first `c`, or all of it where it has none.
pub open spec fn prefix_before(s: Seq<char>, c: char) -> Seq<char> {
    if exists|i: int| 0 <= i < s.len() && s[i] == c {
        s.take(choose|i: int| 0 <= i < s.len() && s[i] == c && forall|j: int| 0 <= j < i ==> s[j] != c)
    } else {
        s
    }
}

/// The part of `s` before its first `:`, or all of it where it has none.
pub open spec fn domain_of(s: Seq<char>) -> Seq<char> {
    prefix_before(s, ':')
}

/// The part of `s` before its first `c`.
pub fn take_before(s: &str, c: char) -> (r: String)
    ensures
        r@ == prefix_before(s@, c),
{
    let n = s.unicode_len();
    let mut i: usize = 0;
    while i < n && s.get_char(i) != c
        invariant
            i <= n,
            n == s@.len(),
            forall|j: int| 0 <= j < i ==> s@[j] != c,
        decreases n - i,
    {
        i = i + 1;
    }
    let d = s.substring_char(0, i);
    proof {
        if i < n {
            assert(s@[i as int] == c);
            let k = choose|k: int| 0 <= k < s@.len() && s@[k] == c && forall|j: int| 0 <= j < k ==> s@[j] != c;
            if k < i {
                assert(s@[k] != c);
            }
            if k > i {
                assert(s@[i as int] != c);
            }
            assert(d@ =~= s@.take(i as int));
        } else {
            assert(d@ =~= s@);
        }
    }
    String::from_str(d)
}

/// The domain of a `domain:port` address: what comes before the first `:`.
pub fn dns_domain(addr: &str) -> (r: String)
    ensures
        r@ == domain_of(addr@),
{
    take_before(addr, ':')
}

/// The properties that name TLS material, as a link manager reads them.
pub open spec fn tls_properties(cfg: Map<u64, Seq<char>>) -> Map<Seq<char>, Seq<char>> {
    let a = if cfg.contains_key(ZN_TLS_ROOT_CA_CERTIFICATE_KEY) {
        Map::empty().insert(TLS_ROOT_CA_CERTIFICATE_FILE@, cfg[ZN_TLS_ROOT_CA_CERTIFICATE_KEY])
    } else {
        Map::empty()
    };
    let b = if cfg.contains_key(ZN_TLS_SERVER_PRIVATE_KEY_KEY) {
        a.insert(TLS_SERVER_PRIVATE_KEY_FILE@, cfg[ZN_TLS_SERVER_PRIVATE_KEY_KEY])
    } else {
        a
    };
    if cfg.contains_key(ZN_TLS_SERVER_CERTIFICATE_KEY) {
        b.insert(TLS_SERVER_CERTIFICATE_FILE@, cfg[ZN_TLS_SERVER_CERTIFICATE_KEY])
    } else {
        b
    }
}

pub open spec fn has_tls_material(cfg: Map<u64, Seq<char>>) -> bool {
    cfg.contains_key(ZN_TLS_ROOT_CA_CERTIFICATE_KEY) || cfg.contains_key(ZN_TLS_SERVER_PRIVATE_KEY_KEY)
        || cfg.contains_key(ZN_TLS_SERVER_CERTIFICATE_KEY)
}

/// The TLS properties that `config` sets, under the names a link manager reads; none where it sets none.
fn tls_from_config(config: &ConfigProperties) -> (r: Option<Properties>)
    ensures
        has_tls_material(config@) ==> (r matches Some(p) && p@ == tls_properties(config@)),
        !has_tls_material(config@) ==> r is None,
{
    let mut properties = Properties::new();
    if let Some(v) = config.get(ZN_TLS_ROOT_CA_CERTIFICATE_KEY) {
        properties.insert(String::from_str(TLS_ROOT_CA_CERTIFICATE_FILE), v);
    }
    if let Some(v) = config.get(ZN_TLS_SERVER_PRIVATE_KEY_KEY) {
        properties.insert(String::from_str(TLS_SERVER_PRIVATE_KEY_FILE), v);
    }
    if let Some(v) = config.get(ZN_TLS_SERVER_CERTIFICATE_KEY) {
        properties.insert(String::from_str(TLS_SERVER_CERTIFICATE_FILE), v);
    }
    proof {
        assert(properties@ =~= tls_properties(config@));
        if has_tls_material(config@) {
            reveal_strlit("tls_root_ca_certificate_file");
            reveal_strlit("tls_server_private_key_file");
            reveal_strlit("tls_server_certificate_file");
            if config@.contains_key(ZN_TLS_SERVER_CERTIFICATE_KEY) {
                assert(properties@.contains_key(TLS_SERVER_CERTIFICATE_FILE@));
            } else if config@.contains_key(ZN_TLS_SERVER_PRIVATE_KEY_KEY) {
                assert(properties@.contains_key(TLS_SERVER_PRIVATE_KEY_FILE@));
            } else {
                assert(properties@.contains_key(TLS_ROOT_CA_CERTIFICATE_FILE@));
            }
        } else {
            assert(properties@ =~= Map::<Seq<char>, Seq<char>>::empty());
        }
    }
    if properties.is_empty() {
        None
    } else {
        Some(properties)
    }
}

/// What a QUIC link manager takes from a session's configuration.
pub struct LocatorConfigQuic;

impl LocatorConfigQuic {
    /// The TLS material that `config` names, as properties; none where it names none.
    pub fn from_config(config: &ConfigProperties) -> (r: ZResult<Option<Properties>>)
        ensures
            has_tls_material(config@) ==> (r matches Ok(Some(p)) && p@ == tls_properties(config@)),
            !has_tls_material(config@) ==> r matches Ok(None),
    {
        Ok(tls_from_config(config))
    }
}

/// What a TLS link manager takes from a session's configuration.
#[derive(Clone)]
pub struct LocatorConfigTls;

impl LocatorConfigTls {
    /// The TLS material that `config` names, as properties; none where it names none.
    pub fn from_config(config: &ConfigProperties) -> (r: ZResult<Option<Properties>>)
        ensures
            has_tls_material(config@) ==> (r matches Ok(Some(p)) && p@ == tls_properties(config@)),
            !has_tls_material(config@) ==> r matches Ok(None),
    {
        Ok(tls_from_config(config))
    }
}

impl LocatorQuic {
    /// The locator that the text `s` of a QUIC address stands for, given what
    /// reading it as a socket address gave: that address, or else the text as a DNS name.
    pub fn from_parsed(s: String, parsed: Option<SocketAddr>) -> (r: LocatorQuic)
        ensures
            match parsed {
                Some(a) => r@ == crate::link::LocatorQuicV::SocketAddr(a),
                None => r@ == crate::link::LocatorQuicV::DnsName(s@),
            },
    {
        match parsed {
            Some(a) => LocatorQuic::SocketAddr(a),
            None => LocatorQuic::DnsName(s),
        }
    }

    /// A QUIC locator is never multicast.
    pub fn is_multicast(&self) -> (r: bool)
        ensures
            !r,
    {
        false
    }
}

impl LocatorTls {
    /// The locator that the text `s` of a TLS address stands for, given what
    /// reading it as a socket address gave: that address, or else the text as a DNS name.
    pub fn from_parsed(s: String, parsed: Option<SocketAddr>) -> (r: LocatorTls)
        ensures
            match parsed {
                Some(a) => r@ == crate::link::LocatorTlsV::SocketAddr(a),
                None => r@ == crate::link::LocatorTlsV::DnsName(s@),
            },
    {
        match parsed {
            Some(a) => LocatorTls::SocketAddr(a),
            None => LocatorTls::DnsName(s),
        }
    }

    /// A TLS locator is never multicast.
    pub fn is_multicast(&self) -> (r: bool)
        ensures
            !r,
    {
        false
    }
}

/// The DNS name that a QUIC address must resolve, if it holds one.
pub fn quic_name_to_resolve(address: &LocatorAddress) -> (r: Option<String>)
    ensures
        match address@ {
            crate::link::LocatorAddressV::Quic(crate::link::LocatorQuicV::DnsName(n)) => r matches Some(s) && s@ == n,
            _ => r is None,
        },
{
    match address {
        LocatorAddress::Quic(LocatorQuic::DnsName(n)) => Some(n.clone()),
        _ => None,
    }
}

/// The DNS name that a TLS address must resolve, if it holds one.
pub fn tls_name_to_resolve(address: &LocatorAddress) -> (r: Option<String>)
    ensures
        match address@ {
            crate::link::LocatorAddressV::Tls(crate::link::LocatorTlsV::DnsName(n)) => r matches Some(s) && s@ == n,
            _ => r is None,
        },
{
    match address {
        LocatorAddress::Tls(LocatorTls::DnsName(n)) => Some(n.clone()),
        _ => None,
    }
}

/// The socket address to reach a QUIC locator at: its own, or the first of
/// those that its DNS name resolved to (`resolved`). An error where the
/// address is not QUIC, or its name resolved to nothing.
pub fn get_quic_addr(address: &LocatorAddress, resolved: &Vec<SocketAddr>) -> (r: ZResult<SocketAddr>)
    ensures
        match address@ {
            crate::link::LocatorAddressV::Quic(crate::link::LocatorQuicV::SocketAddr(a)) => r == Ok::<SocketAddr, ZError>(a),
            crate::link::LocatorAddressV::Quic(crate::link::LocatorQuicV::DnsName(_)) => if resolved@.len() > 0 {
                r == Ok::<SocketAddr, ZError>(resolved@[0])
            } else {
                r == zerr::<SocketAddr>(ZErrorKind::InvalidLocator)
            },
            _ => r == zerr::<SocketAddr>(ZErrorKind::InvalidLocator),
        },
{
    match address {
        LocatorAddress::Quic(LocatorQuic::SocketAddr(a)) => Ok(*a),
        LocatorAddress::Quic(LocatorQuic::DnsName(_)) => if resolved.len() > 0 {
            Ok(resolved[0])
        } else {
            Err(ZError { kind: ZErrorKind::InvalidLocator })
        },
        _ => Err(ZError { kind: ZErrorKind::InvalidLocator }),
    }
}

/// The socket address to reach a TLS locator at, as `get_quic_addr` for QUIC.
pub fn get_tls_addr(address: &LocatorAddress, resolved: &Vec<SocketAddr>) -> (r: ZResult<SocketAddr>)
    ensures
        match address@ {
            crate::link::LocatorAddressV::Tls(crate::link::LocatorTlsV::SocketAddr(a)) => r == Ok::<SocketAddr, ZError>(a),
            crate::link::LocatorAddressV::Tls(crate::link::LocatorTlsV::DnsName(_)) => if resolved@.len() > 0 {
                r == Ok::<SocketAddr, ZError>(resolved@[0])
            } else {
                r == zerr::<SocketAddr>(ZErrorKind::InvalidLocator)
            },
            _ => r == zerr::<SocketAddr>(ZErrorKind::InvalidLocator),
        },
{
    match address {
        LocatorAddress::Tls(LocatorTls::SocketAddr(a)) => Ok(*a),
        LocatorAddress::Tls(LocatorTls::DnsName(_)) => if resolved.len() > 0 {
            Ok(resolved[0])
        } else {
            Err(ZError { kind: ZErrorKind::InvalidLocator })
        },
        _ => Err(ZError { kind: ZErrorKind::InvalidLocator }),
    }
}

/// The DNS name to check a QUIC server's certificate against: the domain of
/// the locator's name. An error where the address is not a QUIC name, or
/// its domain is no valid DNS name.
pub fn get_quic_dns(address: &LocatorAddress) -> (r: ZResult<webpki::DnsName>)
    ensures
        match address@ {
            crate::link::LocatorAddressV::Quic(crate::link::LocatorQuicV::DnsName(n)) => (r is Ok
                <==> is_dns_name(domain_of(n))) && (r is Err ==> r == zerr::<webpki::DnsName>(
                ZErrorKind::InvalidLocator,
            )),
            _ => r == zerr::<webpki::DnsName>(ZErrorKind::InvalidLocator),
        },
{
    match address {
        LocatorAddress::Quic(LocatorQuic::DnsName(addr)) => {
            let dom = dns_domain(addr.as_str());
            match dns_name(dom.as_str()) {
                Some(d) => Ok(d),
                None => Err(ZError { kind: ZErrorKind::InvalidLocator }),
            }
        },
        _ => Err(ZError { kind: ZErrorKind::InvalidLocator }),
    }
}

/// The DNS name to check a TLS server's certificate against, as `get_quic_dns` for QUIC.
pub fn get_tls_dns(address: &LocatorAddress) -> (r: ZResult<async_rustls::webpki::DNSName>)
    ensures
        match address@ {
            crate::link::LocatorAddressV::Tls(crate::link::LocatorTlsV::DnsName(n)) => (r is Ok
                <==> is_legacy_dns_name(domain_of(n))) && (r is Err ==> r == zerr::<async_rustls::webpki::DNSName>(
                ZErrorKind::InvalidLocator,
            )),
            _ => r == zerr::<async_rustls::webpki::DNSName>(ZErrorKind::InvalidLocator),
        },
{
    match address {
        LocatorAddress::Tls(LocatorTls::DnsName(addr)) => {
            let dom = dns_domain(addr.as_str());
            match legacy_dns_name(dom.as_str()) {
                Some(d) => Ok(d),
                None => Err(ZError { kind: ZErrorKind::InvalidLocator }),
            }
        },
        _ => Err(ZError { kind: ZErrorKind::InvalidLocator }),
    }
}

} // verus!
