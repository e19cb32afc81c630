//! Resolution order, template substitution, allow-list parsing and
//! matching, the block-list, and the per-instance cached outbound check.

use std::cell::Cell;

use outbound_policy::allowed::AllowedHostsConfig;
use outbound_policy::errors::{ProviderError, ResolveError};
use outbound_policy::ip::{BlockedNetworks, IpAddress, IpNet, parse_v4_net};
use outbound_policy::key::Key;
use outbound_policy::outbound::{DisallowedHostHandler, OutboundAllowedHosts, SocketAddrUse};
use outbound_policy::provider::{Provider, ProviderVariableKind};
use outbound_policy::resolver::{ProviderResolver, Variable};

/// A static provider over a fixed table, counting how often it is asked.
struct TableProvider {
    entries: Vec<(String, String)>,
    calls: Cell<u32>,
}

impl TableProvider {
    fn new(entries: &[(&str, &str)]) -> Self {
        TableProvider {
            entries: entries
                .iter()
                .map(|(k, v)| (k.to_string(), v.to_string()))
                .collect(),
            calls: Cell::new(0),
        }
    }
}

impl Provider for TableProvider {
    fn get(&self, key: &Key) -> Result<Option<String>, ProviderError> {
        self.calls.set(self.calls.get() + 1);
        Ok(self
            .entries
            .iter()
            .find(|(k, _)| k == key.as_str())
            .map(|(_, v)| v.clone()))
    }

    fn kind(&self) -> ProviderVariableKind {
        ProviderVariableKind::Static
    }
}

/// A provider whose backend always fails.
struct FailingProvider;

impl Provider for FailingProvider {
    fn get(&self, _key: &Key) -> Result<Option<String>, ProviderError> {
        Err(ProviderError { message: "backend unreachable".to_string() })
    }

    fn kind(&self) -> ProviderVariableKind {
        ProviderVariableKind::Static
    }
}

struct NoHandler;

impl DisallowedHostHandler for NoHandler {
    fn handle_disallowed_host(&self, _scheme: &str, _authority: &str) {}
}

struct RecordingHandler {
    denials: Cell<u32>,
}

impl DisallowedHostHandler for RecordingHandler {
    fn handle_disallowed_host(&self, _scheme: &str, _authority: &str) {
        self.denials.set(self.denials.get() + 1);
    }
}

fn declared(names: &[&str]) -> Vec<(String, Variable)> {
    names
        .iter()
        .map(|n| (n.to_string(), Variable { default: None, secret: false }))
        .collect()
}

#[test]
fn resolution_takes_the_first_provider_that_answers() {
    let mut resolver =
        ProviderResolver::<TableProvider>::new(declared(&["db_host"])).expect("valid declarations");
    resolver.add_provider(TableProvider::new(&[]));
    resolver.add_provider(TableProvider::new(&[("db_host", "second.example")]));

    let key = Key::new("db_host".to_string()).expect("valid key");
    assert_eq!(resolver.resolve(&key).expect("resolves"), "second.example");
}

#[test]
fn resolution_prefers_the_earlier_provider_when_both_answer() {
    let mut resolver =
        ProviderResolver::<TableProvider>::new(declared(&["db_host"])).expect("valid declarations");
    resolver.add_provider(TableProvider::new(&[("db_host", "first.example")]));
    resolver.add_provider(TableProvider::new(&[("db_host", "second.example")]));

    let key = Key::new("db_host".to_string()).expect("valid key");
    assert_eq!(resolver.resolve(&key).expect("resolves"), "first.example");
}

#[test]
fn resolution_falls_back_to_the_declared_default() {
    let resolver = ProviderResolver::<TableProvider>::new(vec![(
        "retries".to_string(),
        Variable { default: Some("3".to_string()), secret: false },
    )])
    .expect("valid declarations");

    let key = Key::new("retries".to_string()).expect("valid key");
    assert_eq!(resolver.resolve(&key).expect("resolves"), "3");
}

#[test]
fn resolution_reports_undefined_and_undeclared_keys() {
    let mut resolver =
        ProviderResolver::<TableProvider>::new(declared(&["known"])).expect("valid declarations");
    resolver.add_provider(TableProvider::new(&[]));

    let known = Key::new("known".to_string()).expect("valid key");
    assert!(matches!(
        resolver.resolve(&known),
        Err(ResolveError::Undefined(_))
    ));

    let unknown = Key::new("unknown".to_string()).expect("valid key");
    assert!(matches!(
        resolver.resolve(&unknown),
        Err(ResolveError::Undeclared(_))
    ));
}

#[test]
fn provider_failure_stops_resolution_without_fallback() {
    let mut resolver = ProviderResolver::<FailingProvider>::new(vec![(
        "key".to_string(),
        Variable { default: Some("fallback".to_string()), secret: false },
    )])
    .expect("valid declarations");
    resolver.add_provider(FailingProvider);

    let key = Key::new("key".to_string()).expect("valid key");
    assert!(matches!(
        resolver.resolve(&key),
        Err(ResolveError::ProviderFailed(_))
    ));
}

#[test]
fn a_resolver_with_no_declared_variables_always_validates() {
    let mut resolver =
        ProviderResolver::<FailingProvider>::new(Vec::new()).expect("valid declarations");
    resolver.add_provider(FailingProvider);
    resolver.validate_variable_existence().expect("nothing to validate");
}

#[test]
fn a_failing_static_provider_fails_validation() {
    let mut resolver =
        ProviderResolver::<FailingProvider>::new(declared(&["key"])).expect("valid declarations");
    resolver.add_provider(FailingProvider);
    assert!(matches!(
        resolver.validate_variable_existence(),
        Err(outbound_policy::errors::ValidationError::ProviderFailed(_))
    ));
}

#[test]
fn duplicate_and_invalid_declarations_are_configuration_errors() {
    assert!(ProviderResolver::<FailingProvider>::new(declared(&["a", "b", "a"])).is_err());
    assert!(ProviderResolver::<FailingProvider>::new(declared(&["bad name"])).is_err());
}

#[test]
fn out_of_range_ports_do_not_parse() {
    let resolver =
        ProviderResolver::<TableProvider>::new(Vec::new()).expect("valid declarations");
    let entries = vec!["https://example.com:65536".to_string()];
    assert!(AllowedHostsConfig::parse(&entries, &resolver).is_err());
}

#[test]
fn template_round_trip_substitutes_the_provider_value() {
    let mut resolver =
        ProviderResolver::<TableProvider>::new(declared(&["foo"])).expect("valid declarations");
    resolver.add_provider(TableProvider::new(&[("foo", "bar")]));

    assert_eq!(
        resolver.resolve_template("<{{ foo }}>").expect("resolves"),
        "<bar>"
    );
}

#[test]
fn template_errors_are_exact() {
    let mut resolver =
        ProviderResolver::<TableProvider>::new(declared(&["foo"])).expect("valid declarations");
    resolver.add_provider(TableProvider::new(&[("foo", "bar")]));

    assert!(matches!(
        resolver.resolve_template("open {{ and never closed"),
        Err(ResolveError::InvalidTemplate(_))
    ));
    assert!(matches!(
        resolver.resolve_template("{{ not a key }}"),
        Err(ResolveError::InvalidTemplate(_))
    ));
    assert!(matches!(
        resolver.resolve_template("{{ nosuch }}"),
        Err(ResolveError::Undeclared(_))
    ));
    assert_eq!(
        resolver.resolve_template("no placeholders").expect("resolves"),
        "no placeholders"
    );
}

#[test]
fn keys_are_dotted_paths_of_plain_segments() {
    assert!(Key::new("api.host_1-a".to_string()).is_ok());
    assert!(Key::new("".to_string()).is_err());
    assert!(Key::new(".leading".to_string()).is_err());
    assert!(Key::new("trailing.".to_string()).is_err());
    assert!(Key::new("two..dots".to_string()).is_err());
    assert!(Key::new("space name".to_string()).is_err());
}

#[test]
fn empty_allow_list_denies_every_destination() {
    let config = AllowedHostsConfig { rules: Vec::new() };
    assert!(!config.is_allowed("example.com", Some(443), "https"));
    assert!(!config.is_allowed("localhost", None, "http"));
    assert!(!config.is_allowed("10.0.0.1", Some(80), "tcp"));
}

fn parsed_config(entries: &[&str]) -> AllowedHostsConfig {
    let resolver =
        ProviderResolver::<TableProvider>::new(Vec::new()).expect("valid declarations");
    let entries: Vec<String> = entries.iter().map(|e| e.to_string()).collect();
    AllowedHostsConfig::parse(&entries, &resolver).expect("entries parse")
}

#[test]
fn full_wildcard_entry_allows_everything() {
    let config = parsed_config(&["*://*:*"]);
    assert!(config.is_allowed("example.com", Some(443), "https"));
    assert!(config.is_allowed("127.0.0.1", Some(9), "udp"));
}

#[test]
fn scheme_and_default_port_must_match() {
    let config = parsed_config(&["https://example.com"]);
    assert!(config.is_allowed("example.com", Some(443), "https"));
    assert!(config.is_allowed("example.com", None, "https"));
    assert!(config.is_allowed("EXAMPLE.com", Some(443), "https"));
    assert!(!config.is_allowed("example.com", Some(8080), "https"));
    assert!(!config.is_allowed("example.com", Some(443), "http"));
    assert!(!config.is_allowed("other.com", Some(443), "https"));
}

#[test]
fn wildcard_host_entries_match_subdomains_only() {
    let config = parsed_config(&["*.example.com:8080"]);
    assert!(config.is_allowed("api.example.com", Some(8080), "https"));
    assert!(config.is_allowed("a.b.example.com", Some(8080), "wss"));
    assert!(!config.is_allowed("example.com", Some(8080), "https"));
    assert!(!config.is_allowed("evilexample.com", Some(8080), "https"));
}

#[test]
fn port_ranges_are_half_open() {
    let config = parsed_config(&["tcp://db.example.com:3300..3310"]);
    assert!(config.is_allowed("db.example.com", Some(3300), "tcp"));
    assert!(config.is_allowed("db.example.com", Some(3309), "tcp"));
    assert!(!config.is_allowed("db.example.com", Some(3310), "tcp"));
    assert!(!config.is_allowed("db.example.com", None, "tcp"));
}

#[test]
fn malformed_entries_fail_the_whole_parse() {
    let resolver =
        ProviderResolver::<TableProvider>::new(Vec::new()).expect("valid declarations");
    let entries = vec!["https://good.example".to_string(), "bad entry".to_string()];
    assert!(AllowedHostsConfig::parse(&entries, &resolver).is_err());
}

#[test]
fn allow_list_entries_resolve_their_variables() {
    let mut resolver =
        ProviderResolver::<TableProvider>::new(declared(&["api_host"])).expect("valid declarations");
    resolver.add_provider(TableProvider::new(&[("api_host", "api.example.com")]));
    let entries = vec!["https://{{ api_host }}".to_string()];
    let config = AllowedHostsConfig::parse(&entries, &resolver).expect("entries parse");
    assert!(config.is_allowed("api.example.com", Some(443), "https"));
    assert!(!config.is_allowed("api.example.org", Some(443), "https"));
}

#[test]
fn loopback_is_blocked_exactly_when_private_ranges_are_blocked() {
    let blocking = BlockedNetworks::new(Vec::new(), true).expect("valid ranges");
    let permissive = BlockedNetworks::new(Vec::new(), false).expect("valid ranges");
    let loopback = IpAddress::v4(127, 0, 0, 1);
    assert!(blocking.is_blocked(&loopback));
    assert!(!permissive.is_blocked(&loopback));
}

#[test]
fn explicit_ranges_block_their_addresses() {
    let net = parse_v4_net("10.0.0.0/8").expect("valid range");
    let blocked = BlockedNetworks::new(vec![net], false).expect("valid ranges");
    assert!(blocked.is_blocked(&IpAddress::v4(10, 1, 2, 3)));
    assert!(!blocked.is_blocked(&IpAddress::v4(11, 1, 2, 3)));
}

#[test]
fn private_v6_and_mapped_v4_addresses_are_recognised() {
    let blocking = BlockedNetworks::new(Vec::new(), true).expect("valid ranges");
    assert!(blocking.is_blocked(&IpAddress::v6(1)));
    let mapped_loopback = IpAddress::v6(0xffff_7f00_0001u128);
    assert!(blocking.is_blocked(&mapped_loopback));
    assert!(!blocking.is_blocked(&IpAddress::v6((0x2001u128 << 112) | (0xdb8u128 << 96) | 1)));
}

#[test]
fn v4_network_parsing_is_strict() {
    assert!(parse_v4_net("10.0.0.0/8").is_ok());
    let host = parse_v4_net("1.2.3.4").expect("plain address");
    assert_eq!(host, IpNet { addr: IpAddress::V4(0x01020304), prefix: 32 });
    assert!(parse_v4_net("10.0.0/8").is_err());
    assert!(parse_v4_net("10.0.0.256/8").is_err());
    assert!(parse_v4_net("10.0.0.0/33").is_err());
    assert!(parse_v4_net("10.0.0.0/").is_err());
}

#[test]
fn outbound_check_computes_the_allow_list_exactly_once() {
    let mut resolver =
        ProviderResolver::<TableProvider>::new(declared(&["api_host"])).expect("valid declarations");
    resolver.add_provider(TableProvider::new(&[("api_host", "api.example.com")]));
    let mut hosts = OutboundAllowedHosts::<NoHandler>::new(
        vec!["https://{{ api_host }}".to_string()],
        None,
    );

    for _ in 0..8 {
        let allowed = hosts
            .check_url(&resolver, "api.example.com:443", "https")
            .expect("allow list computed");
        assert!(allowed);
    }
    assert!(!hosts
        .check_url(&resolver, "api.example.org:443", "https")
        .expect("allow list cached"));

    // One distinct key in the entries, so exactly one provider query.
    assert_eq!(resolver.providers[0].calls.get(), 1);
}

#[test]
fn a_failing_computation_is_cached_for_the_instance() {
    let mut resolver =
        ProviderResolver::<TableProvider>::new(declared(&["api_host"])).expect("valid declarations");
    resolver.add_provider(TableProvider::new(&[]));
    let mut hosts = OutboundAllowedHosts::<NoHandler>::new(
        vec!["https://{{ api_host }}".to_string()],
        None,
    );

    let first = hosts
        .check_url(&resolver, "api.example.com:443", "https")
        .expect_err("the variable is undefined");
    let second = hosts
        .check_url(&resolver, "api.example.com:443", "https")
        .expect_err("the failure is permanent");
    assert_eq!(resolver.providers[0].calls.get(), 1);

    // Every later caller receives the very same cached error.
    match (first, second) {
        (
            outbound_policy::errors::HostsError::Resolve(ResolveError::Undefined(a)),
            outbound_policy::errors::HostsError::Resolve(ResolveError::Undefined(b)),
        ) => assert_eq!(a, b),
        other => panic!("unexpected cached outcome: {:?}", other),
    }
}

#[test]
fn a_fresh_check_with_no_entries_denies_everything() {
    let resolver = ProviderResolver::<TableProvider>::new(Vec::new()).expect("valid declarations");
    let mut hosts = OutboundAllowedHosts::<NoHandler>::new(Vec::new(), None);

    assert!(!hosts
        .check_url(&resolver, "example.com:443", "https")
        .expect("an empty entry list always parses"));
    assert!(!hosts.check_url(&resolver, "localhost:80", "http").unwrap());
}

#[test]
fn uncompressed_bracketed_rules_admit_v6_socket_destinations() {
    let resolver = ProviderResolver::<TableProvider>::new(Vec::new()).expect("valid declarations");
    let blocked = BlockedNetworks::new(Vec::new(), false).expect("valid ranges");
    let mut hosts = OutboundAllowedHosts::<NoHandler>::new(
        vec!["tcp://[2001:db8:0:0:0:0:0:1]:443".to_string()],
        None,
    );

    let addr = IpAddress::v6((0x2001u128 << 112) | (0xdb8u128 << 96) | 1);
    assert!(hosts.check_socket_addr(&resolver, &blocked, &addr, 443, SocketAddrUse::TcpConnect));
    assert!(!hosts.check_socket_addr(&resolver, &blocked, &addr, 80, SocketAddrUse::TcpConnect));
}

#[test]
fn denials_notify_the_registered_handler() {
    let resolver = ProviderResolver::<TableProvider>::new(Vec::new()).expect("valid declarations");
    let mut hosts = OutboundAllowedHosts::new(
        vec!["https://allowed.example".to_string()],
        Some(RecordingHandler { denials: Cell::new(0) }),
    );

    assert!(hosts.check_url(&resolver, "allowed.example:443", "https").unwrap());
    assert!(!hosts.check_url(&resolver, "denied.example:443", "https").unwrap());
    assert!(!hosts.check_url(&resolver, "denied.example:443", "https").unwrap());
    assert_eq!(hosts.handler.as_ref().unwrap().denials.get(), 2);
}

#[test]
fn socket_checks_deny_binds_and_blocked_addresses() {
    let resolver = ProviderResolver::<TableProvider>::new(Vec::new()).expect("valid declarations");
    let blocked = BlockedNetworks::new(Vec::new(), true).expect("valid ranges");
    let mut hosts = OutboundAllowedHosts::<NoHandler>::new(vec!["*://*:*".to_string()], None);

    let public = IpAddress::v4(93, 184, 216, 34);
    let loopback = IpAddress::v4(127, 0, 0, 1);

    assert!(hosts.check_socket_addr(&resolver, &blocked, &public, 443, SocketAddrUse::TcpConnect));
    assert!(hosts.check_socket_addr(
        &resolver,
        &blocked,
        &public,
        53,
        SocketAddrUse::UdpOutgoingDatagram
    ));
    assert!(!hosts.check_socket_addr(&resolver, &blocked, &public, 443, SocketAddrUse::TcpBind));
    assert!(!hosts.check_socket_addr(&resolver, &blocked, &public, 53, SocketAddrUse::UdpBind));
    assert!(!hosts.check_socket_addr(
        &resolver,
        &blocked,
        &loopback,
        443,
        SocketAddrUse::TcpConnect
    ));
}

#[test]
fn destination_urls_may_carry_their_own_scheme() {
    let resolver = ProviderResolver::<TableProvider>::new(Vec::new()).expect("valid declarations");
    let mut hosts = OutboundAllowedHosts::<NoHandler>::new(
        vec!["mysql://db.example.com:3306".to_string()],
        None,
    );

    assert!(hosts
        .check_url(&resolver, "mysql://db.example.com:3306", "tcp")
        .unwrap());
    assert!(hosts.check_url(&resolver, "db.example.com:3306", "mysql").unwrap());
    assert!(!hosts.check_url(&resolver, "db.example.com:3306", "tcp").unwrap());
    assert!(!hosts.check_url(&resolver, "not a destination", "mysql").unwrap());
}

#[test]
fn bracketed_destinations_match_bracketed_entries() {
    let resolver = ProviderResolver::<TableProvider>::new(Vec::new()).expect("valid declarations");
    let mut hosts =
        OutboundAllowedHosts::<NoHandler>::new(vec!["*://[fe80::1]:8080".to_string()], None);

    assert!(hosts.check_url(&resolver, "[fe80::1]:8080", "tcp").unwrap());
    assert!(!hosts.check_url(&resolver, "[fe80::2]:8080", "tcp").unwrap());
}
