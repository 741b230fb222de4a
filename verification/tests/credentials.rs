use zorca::config::{Config, Grant, Secure};
use zorca::errors::{CombinedError, ErrorKind};
use zorca::secure::{make_ticket_service, HeaderStep, PromiscuousProxy, SecureProxy, TvmProxy};

fn profile(md: &str) -> Secure {
    Secure::new(md.to_string(), 4242, "secret".to_string(), None)
}

fn ticketed(expire: Option<i64>) -> SecureProxy {
    make_ticket_service(&Config { ticket_expire_sec: expire, secure: Some(profile("TVM")) })
}

fn header_of(step: HeaderStep) -> String {
    match step {
        HeaderStep::Ready(Some(header)) => header,
        other => panic!("no header: {:?}", other),
    }
}

#[test]
fn open_mode_never_fetches() {
    let mut proxy = make_ticket_service(&Config { ticket_expire_sec: Some(600), secure: None });
    assert!(matches!(proxy, SecureProxy::Promiscuous(_)));
    for now in [0, 1, 600, 601, i64::MAX] {
        assert!(matches!(proxy.ticket_as_header_at(now), HeaderStep::Ready(None)));
    }
    assert!(matches!(proxy.ticket_as_header(), HeaderStep::Ready(None)));
    assert!(matches!(proxy.ticket_fetched_at(Ok("t".to_string()), 5), Ok(None)));
    let mut bare = PromiscuousProxy::new();
    assert!(matches!(bare.ticket_as_header(), HeaderStep::Ready(None)));
}

#[test]
fn other_scheme_selects_open_mode() {
    let proxy = make_ticket_service(&Config { ticket_expire_sec: None, secure: Some(profile("tvm")) });
    assert!(matches!(proxy, SecureProxy::Promiscuous(_)));
    let proxy = make_ticket_service(&Config { ticket_expire_sec: None, secure: Some(profile("TVM")) });
    assert!(matches!(proxy, SecureProxy::Tvm(_)));
}

#[test]
fn first_use_fetches_with_the_profile() {
    let mut proxy = ticketed(Some(600));
    match proxy.ticket_as_header_at(1000) {
        HeaderStep::Fetch(request) => {
            assert_eq!(request.client_id, 4242);
            assert_eq!(request.client_secret, "secret");
            assert_eq!(request.grant, Grant::ClientCredentials);
        }
        other => panic!("unexpected: {:?}", other),
    }
}

#[test]
fn ticket_is_reused_within_the_window() {
    let mut proxy = ticketed(Some(600));
    assert!(matches!(proxy.ticket_as_header_at(1000), HeaderStep::Fetch(_)));
    let header = proxy.ticket_fetched_at(Ok("tok".to_string()), 1000).unwrap();
    assert_eq!(header, Some("TVM tok".to_string()));
    assert_eq!(header_of(proxy.ticket_as_header_at(1000)), "TVM tok");
    assert_eq!(header_of(proxy.ticket_as_header_at(1300)), "TVM tok");
    assert_eq!(header_of(proxy.ticket_as_header_at(1599)), "TVM tok");
}

#[test]
fn expired_ticket_is_fetched_once() {
    let mut proxy = ticketed(Some(600));
    assert!(matches!(proxy.ticket_as_header_at(1000), HeaderStep::Fetch(_)));
    proxy.ticket_fetched_at(Ok("tok".to_string()), 1000).unwrap();
    assert!(matches!(proxy.ticket_as_header_at(1600), HeaderStep::Fetch(_)));
    assert!(matches!(proxy.ticket_as_header_at(1600), HeaderStep::Pending));
    assert!(matches!(proxy.ticket_as_header_at(1601), HeaderStep::Pending));
    let header = proxy.ticket_fetched_at(Ok("next".to_string()), 1602).unwrap();
    assert_eq!(header, Some("TVM next".to_string()));
    assert_eq!(header_of(proxy.ticket_as_header_at(2201)), "TVM next");
    assert!(matches!(proxy.ticket_as_header_at(2202), HeaderStep::Fetch(_)));
}

#[test]
fn without_expiry_every_use_fetches() {
    let mut proxy = ticketed(None);
    for now in [10, 10, 11] {
        assert!(matches!(proxy.ticket_as_header_at(now), HeaderStep::Fetch(_)));
        let header = proxy.ticket_fetched_at(Ok("tok".to_string()), now).unwrap();
        assert_eq!(header, Some("TVM tok".to_string()));
    }
}

#[test]
fn failed_fetch_is_a_credential_error() {
    let mut proxy = ticketed(Some(600));
    assert!(matches!(proxy.ticket_as_header_at(5), HeaderStep::Fetch(_)));
    match proxy.ticket_fetched_at(Err("no service".to_string()), 5) {
        Err(e) => {
            assert!(matches!(&e, CombinedError::CredentialError(why) if why == "no service"));
            assert_eq!(e.kind(), ErrorKind::Credential);
            assert!(e.kind().is_fatal());
        }
        Ok(_) => panic!("a header came back"),
    }
    assert!(matches!(proxy.ticket_as_header_at(6), HeaderStep::Fetch(_)));
}

#[test]
fn failed_fetch_keeps_the_cached_ticket() {
    let mut proxy = TvmProxy::new(&Some(600), &profile("TVM"));
    assert!(matches!(proxy.ticket_as_header_at(100), HeaderStep::Fetch(_)));
    assert_eq!(proxy.ticket_fetched_at(Ok("tok".to_string()), 100).unwrap(), Some("TVM tok".to_string()));
    assert!(proxy.ticket_fetched_at(Err("down".to_string()), 200).is_err());
    assert_eq!(header_of(proxy.ticket_as_header_at(699)), "TVM tok");
    assert!(matches!(proxy.ticket_as_header_at(700), HeaderStep::Fetch(_)));
}

#[test]
fn window_does_not_overflow() {
    let mut proxy = TvmProxy::new(&Some(i64::MAX), &profile("TVM"));
    assert!(matches!(proxy.ticket_as_header_at(i64::MAX), HeaderStep::Fetch(_)));
    proxy.ticket_fetched_at(Ok("tok".to_string()), i64::MAX).unwrap();
    assert!(matches!(proxy.ticket_as_header_at(i64::MAX), HeaderStep::Ready(Some(_))));
    let mut never = TvmProxy::new(&Some(-5), &profile("TVM"));
    assert!(matches!(never.ticket_as_header_at(0), HeaderStep::Fetch(_)));
    never.ticket_fetched_at(Ok("tok".to_string()), 0).unwrap();
    assert!(matches!(never.ticket_as_header_at(0), HeaderStep::Fetch(_)));
}

#[test]
fn clock_driven_calls_go_by_the_same_rules() {
    let mut proxy = ticketed(Some(600));
    assert!(matches!(proxy.ticket_as_header(), HeaderStep::Fetch(_)));
    assert!(matches!(proxy.ticket_as_header(), HeaderStep::Pending));
    let header = proxy.ticket_fetched(Ok("tok".to_string())).unwrap();
    assert_eq!(header, Some("TVM tok".to_string()));
    assert_eq!(header_of(proxy.ticket_as_header()), "TVM tok");
    let mut tvm = TvmProxy::new(&Some(600), &profile("SCHEME"));
    assert!(matches!(tvm.ticket_as_header(), HeaderStep::Fetch(_)));
    assert_eq!(tvm.ticket_fetched(Ok("t2".to_string())).unwrap(), Some("SCHEME t2".to_string()));
    assert_eq!(header_of(tvm.ticket_as_header()), "SCHEME t2");
}

#[test]
fn client_id_is_cut_to_its_low_bits() {
    let wide = Secure::new("TVM".to_string(), (1i64 << 32) + 7, "s".to_string(), Some(Grant::ClientCredentials));
    let mut proxy = TvmProxy::new(&None, &wide);
    match proxy.ticket_as_header_at(0) {
        HeaderStep::Fetch(request) => assert_eq!(request.client_id, 7),
        other => panic!("unexpected: {:?}", other),
    }
    assert_eq!(wide.get_mod(), "TVM");
}
