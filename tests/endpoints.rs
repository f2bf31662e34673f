use janu::api::{janu_home_path, Janu, Path, Selector, Session, SessionExt, Workspace, WorkspaceExt};
use janu::endpoint::{
    dns_domain, get_quic_addr, get_quic_dns, get_tls_addr, get_tls_dns, LocatorConfigQuic, LocatorConfigTls,
};
use janu::link::{frame_for_stream, stream_frame_len, IpAddr, LocatorAddress, LocatorQuic, LocatorTls, SocketAddr};
use janu::message::ResKey;
use janu::properties::{
    parse_bool, parse_u64, ConfigProperties, Properties, ZN_INFO_ROUTER_PID_KEY, ZN_TLS_ROOT_CA_CERTIFICATE_KEY,
    ZN_TLS_SERVER_CERTIFICATE_KEY,
};
use janu::protocol::ZErrorKind;

fn sa(port: u16) -> SocketAddr {
    SocketAddr { ip: IpAddr::V4(10, 0, 0, 1), port }
}

#[test]
fn tls_material_becomes_link_properties() {
    let mut c = ConfigProperties::new();
    assert!(LocatorConfigQuic::from_config(&c).unwrap().is_none());
    c.insert(ZN_TLS_ROOT_CA_CERTIFICATE_KEY, "/ca.pem".to_string());
    c.insert(ZN_TLS_SERVER_CERTIFICATE_KEY, "/cert.pem".to_string());
    let p = LocatorConfigQuic::from_config(&c).unwrap().unwrap();
    assert_eq!(p.get(&"tls_root_ca_certificate_file".to_string()), Some("/ca.pem".to_string()));
    assert_eq!(p.get(&"tls_server_certificate_file".to_string()), Some("/cert.pem".to_string()));
    assert_eq!(p.get(&"tls_server_private_key_file".to_string()), None);
    let t = LocatorConfigTls::from_config(&c).unwrap().unwrap();
    assert_eq!(t.get(&"tls_root_ca_certificate_file".to_string()), Some("/ca.pem".to_string()));
}

#[test]
fn address_is_the_locator_or_the_first_resolved() {
    let q = LocatorAddress::Quic(LocatorQuic::SocketAddr(sa(1)));
    assert_eq!(get_quic_addr(&q, &vec![]).unwrap(), sa(1));
    let n = LocatorAddress::Quic(LocatorQuic::DnsName("janu.io:7447".to_string()));
    assert_eq!(get_quic_addr(&n, &vec![sa(2), sa(3)]).unwrap(), sa(2));
    assert_eq!(get_quic_addr(&n, &vec![]).unwrap_err().kind, ZErrorKind::InvalidLocator);
    let t = LocatorAddress::Tls(LocatorTls::SocketAddr(sa(4)));
    assert_eq!(get_quic_addr(&t, &vec![]).unwrap_err().kind, ZErrorKind::InvalidLocator);
    assert_eq!(get_tls_addr(&t, &vec![]).unwrap(), sa(4));
}

#[test]
fn dns_name_is_the_domain_before_the_port() {
    assert_eq!(dns_domain("janu.io:7447"), "janu.io");
    assert_eq!(dns_domain("localhost"), "localhost");
    let n = LocatorAddress::Quic(LocatorQuic::DnsName("Janu.IO:7447".to_string()));
    let d = get_quic_dns(&n).unwrap();
    assert_eq!(AsRef::<str>::as_ref(&d), "janu.io");
    let bad = LocatorAddress::Quic(LocatorQuic::DnsName("bad name!:1".to_string()));
    assert_eq!(get_quic_dns(&bad).unwrap_err().kind, ZErrorKind::InvalidLocator);
    let sock = LocatorAddress::Quic(LocatorQuic::SocketAddr(sa(1)));
    assert_eq!(get_quic_dns(&sock).unwrap_err().kind, ZErrorKind::InvalidLocator);
    let t = LocatorAddress::Tls(LocatorTls::DnsName("example.com:443".to_string()));
    let td = get_tls_dns(&t).unwrap();
    assert_eq!(AsRef::<str>::as_ref(&td), "example.com");
    let tbad = LocatorAddress::Tls(LocatorTls::DnsName("-x-.:443".to_string()));
    assert!(get_tls_dns(&tbad).is_err());
}

#[test]
fn locators_parse_and_are_never_multicast() {
    let a = LocatorQuic::from_parsed("10.0.0.1:7".to_string(), Some(sa(7)));
    assert_eq!(a, LocatorQuic::SocketAddr(sa(7)));
    let b = LocatorTls::from_parsed("host:7".to_string(), None);
    assert_eq!(b, LocatorTls::DnsName("host:7".to_string()));
    assert!(!a.is_multicast());
    assert!(!b.is_multicast());
    let m = LocatorAddress::Udp(SocketAddr { ip: IpAddr::V4(239, 255, 0, 1), port: 1 });
    assert!(m.is_multicast());
    let u = LocatorAddress::Udp(SocketAddr { ip: IpAddr::V4(192, 168, 0, 1), port: 1 });
    assert!(!u.is_multicast());
}

#[test]
fn stream_batches_carry_a_big_endian_length() {
    let b = vec![1u8; 300];
    let f = frame_for_stream(&b).unwrap();
    assert_eq!(&f[..2], &[0x01, 0x2c]);
    assert_eq!(f.len(), 302);
    assert_eq!(stream_frame_len(f[0], f[1]), 300);
    assert!(frame_for_stream(&vec![0u8; 65536]).is_none());
}

#[test]
fn numbers_and_flags_parse_as_written() {
    assert_eq!(parse_u64("10000"), Some(10000));
    assert_eq!(parse_u64("+7"), Some(7));
    assert_eq!(parse_u64("18446744073709551615"), Some(u64::MAX));
    assert_eq!(parse_u64("18446744073709551616"), None);
    assert_eq!(parse_u64(""), None);
    assert_eq!(parse_u64("+"), None);
    assert_eq!(parse_u64("12a"), None);
    assert_eq!(parse_bool("true"), Some(true));
    assert_eq!(parse_bool("false"), Some(false));
    assert_eq!(parse_bool("True"), None);
}

#[test]
fn later_properties_win() {
    let mut a = Properties::new();
    a.insert("k".to_string(), "1".to_string());
    a.insert("j".to_string(), "2".to_string());
    let mut b = Properties::new();
    b.insert("k".to_string(), "3".to_string());
    a.merge(&b);
    assert_eq!(a.get(&"k".to_string()), Some("3".to_string()));
    assert_eq!(a.get(&"j".to_string()), Some("2".to_string()));
    assert!(!a.is_empty());
    assert!(Properties::new().is_empty());
}

fn janu_with(router: Option<&str>) -> Janu {
    let mut info = ConfigProperties::new();
    if let Some(r) = router {
        info.insert(ZN_INFO_ROUTER_PID_KEY, r.to_string());
    }
    Janu::from(Session::new(info))
}

#[test]
fn router_pid_is_the_first_listed() {
    assert_eq!(janu_with(None).router_pid(), None);
    assert_eq!(janu_with(Some("")).router_pid(), None);
    assert_eq!(janu_with(Some("abc")).router_pid(), Some("abc".to_string()));
    assert_eq!(janu_with(Some("abc,def,ghi")).router_pid(), Some("abc".to_string()));
    assert!(janu_with(None).session().open);
    assert!(janu_with(None).close().is_ok());
}

#[test]
fn workspace_paths_are_relative_to_its_prefix() {
    let j = janu_with(None);
    let root = j.workspace(None).unwrap();
    assert_eq!(root.prefix.p, "/");
    assert_eq!(root.absolute(&Path { p: "hello".to_string() }).p, "/hello");
    let w = j.workspace(Some(Path { p: "/demo/example".to_string() })).unwrap();
    assert_eq!(w.absolute(&Path { p: "hello".to_string() }).p, "/demo/example/hello");
    assert_eq!(w.absolute(&Path { p: "/abs".to_string() }).p, "/abs");
}

#[test]
fn extensions_build_subscribers_and_caches() {
    let s = Session::new(ConfigProperties::new());
    let b = s.declare_querying_subscriber(&ResKey::RId(4));
    assert_eq!(b.sub_reskey, ResKey::RId(4));
    assert_eq!(b.query_reskey, ResKey::RId(4));
    let c = s.declare_publication_cache(&ResKey::RName(b"/a".to_vec()));
    assert_eq!(c.history, 1);
    let w = Workspace { prefix: Path { p: "/demo".to_string() } };
    let q = w.query_and_subscribe(&Selector { path_expr: "x/**".to_string(), predicate: "a=1".to_string() });
    assert_eq!(q.sub_reskey, ResKey::RName(b"/demo/x/**".to_vec()));
    assert_eq!(q.query_predicate, b"a=1".to_vec());
}

#[test]
fn home_directory_follows_env_then_home() {
    assert_eq!(janu_home_path(Some("/etc/janu".to_string()), Some("/home/u".to_string())), "/etc/janu");
    assert_eq!(janu_home_path(None, Some("/home/u".to_string())), "/home/u/.janu");
    assert_eq!(janu_home_path(None, Some("/home/u/".to_string())), "/home/u/.janu");
    assert_eq!(janu_home_path(None, None), ".janu");
    assert_eq!(janu_home_path(None, Some(String::new())), ".janu");
}

#[test]
fn janu_from_a_session_reference_copies_it() {
    let mut info = ConfigProperties::new();
    info.insert(ZN_INFO_ROUTER_PID_KEY, "r1,r2".to_string());
    let s = Session::new(info);
    let j = Janu::from(&s);
    assert_eq!(j.router_pid(), Some("r1".to_string()));
    assert!(j.session().open);
}
