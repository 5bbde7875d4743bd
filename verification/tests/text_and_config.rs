use proxy::api::{status, update_config};
use proxy::config::{
    default_alpn, default_skip_cert_verify, default_tun_address, default_tun_mtu, default_tun_name,
    default_tun_netmask, AppConfig, ClientConfig, ConfigError, ConfigUpdate, Hysteria2Config,
    ServerConfig, TunConfig,
};
use proxy::config::split_address;
use proxy::data::db::{foreign_keys, plugin_table, Database, Setup};
use proxy::data::plugin_cache::{stored_json, PluginCache};
use proxy::data::{DataError, PluginId};
use proxy::domains::{check_domain, load_direct_domains, load_proxy_domains, DomainSet};
use proxy::flow::error::FlowError;
use proxy::flow::{DestinationAddr, FlowContext, HostName};
use proxy::forward::stream::StatHandle;
use proxy::net::{IpAddr, Ipv4Addr, Ipv6Addr, SocketAddr};
use proxy::rule_dispatcher::dispatcher::{RuleDispatcher, TryMatchResult};
use proxy::rule_dispatcher::quanx::{parse_rule, RuleKind};
use proxy::service::{
    build_dispatcher, default_direct_domains, default_proxy_domains, dispatcher_rules,
    domain_rules_count, first_resolving_rule_id, load_quanx_rules_from_file, ss_key, Chosen,
    SmartOutboundFactory, DIRECT, FALLBACK, PROXY,
};
use proxy::text::{has_substring, listed_lines, same_ignoring_case};

fn v4(a: u8, b: u8, c: u8, d: u8) -> IpAddr {
    IpAddr::V4(Ipv4Addr::new(a, b, c, d))
}

fn context(host: HostName) -> FlowContext {
    FlowContext::new(SocketAddr::new(v4(10, 0, 0, 1), 9), DestinationAddr { host, port: 443 })
}

#[test]
fn lists_in_files() {
    let content = "# servers\n\n  1.2.3.4:80 \r\n #not a comment\n\t\nlast";
    assert_eq!(listed_lines(content), vec!["1.2.3.4:80", "#not a comment", "last"]);
    assert!(listed_lines("").is_empty());
    assert_eq!(listed_lines("\u{3000}x\u{3000}\n"), vec!["x"]);
}

#[test]
fn names_of_fields_have_no_case() {
    assert!(same_ignoring_case("Host", "hOST"));
    assert!(!same_ignoring_case("Host", "Hosts"));
    assert!(!same_ignoring_case("ä", "Ä"));
    assert!(has_substring(&['a', 'b', 'c'], &['b', 'c']));
    assert!(!has_substring(&['a', 'b', 'c'], &['c', 'b']));
}

#[test]
fn default_configuration() {
    let c = AppConfig::default();
    assert!(c.servers.addresses.is_empty());
    assert_eq!(c.dns.china_doh, "https://1.12.12.12/dns-query");
    assert_eq!(c.dns.doh, "https://8.8.8.8/dns-query");
    assert_eq!(c.features.ss_key, "JtivfX27TuAkUkfgFXGuEQ==");
    assert_eq!(ClientConfig::default().listen_addr_v4, "127.0.0.1:1081");
    assert_eq!(ClientConfig::default().udp_listen_addr_v6, "[::]:1083");
    assert_eq!(TunConfig::default().mtu, 0);
    assert_eq!(TunConfig::default().name, "");
    assert_eq!(Hysteria2Config::default().port, 8443);
    assert_eq!(Hysteria2Config::default().alpn, vec!["h3"]);
    assert_eq!(default_tun_name(), "utun7");
    assert_eq!(default_tun_address(), "172.16.0.1");
    assert_eq!(default_tun_netmask(), "255.255.255.0");
    assert_eq!(default_tun_mtu(), 1500);
    assert!(default_skip_cert_verify());
    assert_eq!(default_alpn(), vec!["h3"]);
}

#[test]
fn servers_are_read_from_a_file() {
    let c = ServerConfig::load_from_file("#x\n1.1.1.1:1\n2.2.2.2:2\n").unwrap();
    assert_eq!(c.get_address(), "1.1.1.1:1");
    assert_eq!(c.get_all_addresses(), vec!["1.1.1.1:1", "2.2.2.2:2"]);
    let e = ServerConfig::load_from_file("# nothing\n").unwrap_err();
    assert_eq!(e, ConfigError::NoAddresses);
    assert_eq!(e.message(), "No valid server addresses found in file");
    assert_eq!(ServerConfig::default().get_address(), "");
}

#[test]
fn servers_go_round() {
    let mut c = ServerConfig::load_from_file("a\nb\nc").unwrap();
    assert_eq!(c.switch_to_next_address(), "b");
    assert_eq!(c.switch_to_next_address(), "c");
    assert_eq!(c.switch_to_next_address(), "a");
    assert_eq!(c.get_address(), "a");
}

#[test]
fn new_servers_have_to_be_addresses() {
    let mut c = ServerConfig::new("1.1.1.1".to_string());
    assert!(c.update_address("2.2.2.2".to_string()).is_ok());
    assert!(c.update_address("2.2.2.2".to_string()).is_ok());
    assert!(c.update_address("2001:db8::1".to_string()).is_ok());
    assert_eq!(c.get_all_addresses(), vec!["1.1.1.1", "2.2.2.2", "2001:db8::1"]);
    for text in ["nonsense", "2.2.2", "2.2.2.02", "2.2.2.256", "2.2.2.2:80", ""] {
        let e = c.update_address(text.to_string()).unwrap_err();
        assert_eq!(e.message(), "Invalid IP address format");
    }
    assert_eq!(c.get_all_addresses().len(), 3);
}

#[test]
fn addresses_are_split() {
    assert_eq!(split_address("1.2.3.4:80"), Some(("1.2.3.4".to_string(), 80)));
    assert_eq!(split_address("[::1]:65535"), Some(("::1".to_string(), 65535)));
    assert_eq!(split_address("[::1]x80"), Some(("::1".to_string(), 80)));
    assert_eq!(split_address("[::1]"), None);
    assert_eq!(split_address("[::1]ä80"), None);
    assert_eq!(split_address("1.2.3.4"), None);
    assert_eq!(split_address("1.2.3.4:65536"), None);
    assert_eq!(split_address("h:+7"), Some(("h".to_string(), 7)));
    assert_eq!(split_address("h:-7"), None);
}

#[test]
fn the_server_as_a_destination() {
    let c = ServerConfig::load_from_file("1.2.3.4:80\n[::2]:90\n").unwrap();
    let d = c.create_fixed_adrr();
    assert_eq!(d.port, 80);
    assert!(matches!(d.host, HostName::Ip(ip) if ip == v4(1, 2, 3, 4)));
    assert_eq!(c.try_fixed_adrr().unwrap().port, 80);
    let six = IpAddr::V6(Ipv6Addr { bits: 2 });
    let d = c.create_fixed_ipv6_adrr().unwrap();
    assert_eq!(d.port, 90);
    assert!(matches!(d.host, HostName::Ip(ip) if ip == six));
    assert_eq!(c.try_fixed_ipv6_adrr().unwrap().unwrap().port, 90);
    let c = ServerConfig::load_from_file("name:80\n[1.2.3.4]:90\n").unwrap();
    assert!(c.try_fixed_adrr().is_none());
    assert!(c.create_fixed_ipv6_adrr().is_none());
    let c = ServerConfig::load_from_file("[::2\n[::3]:1\n").unwrap();
    assert!(c.try_fixed_ipv6_adrr().is_err());
    let c = ServerConfig::load_from_file("[::3]:1\n[::2\n").unwrap();
    assert_eq!(c.try_fixed_ipv6_adrr().unwrap().unwrap().port, 1);
}

#[test]
fn the_control_interface_answers() {
    let mut c = ServerConfig::new("1.1.1.1:1".to_string());
    let stat = StatHandle { uplink_written: 5, downlink_written: 7, tcp_connection_count: 3 };
    let r = status(&c, &stat);
    assert!(r.success);
    assert_eq!(r.message, "OK");
    let s = r.data.unwrap();
    assert_eq!((s.server_address.as_str(), s.connections, s.uplink_bytes, s.downlink_bytes),
        ("1.1.1.1:1", 3, 5, 7));
    let update = ConfigUpdate { server_address: "2.2.2.2".to_string() };
    let r = update_config(&mut c, update);
    assert!(r.success);
    assert_eq!(r.message, "配置已更新");
    let r = update_config(&mut c, ConfigUpdate { server_address: "x".to_string() });
    assert!(!r.success);
    assert_eq!(r.message, "Invalid IP address format");
    assert_eq!(c.get_all_addresses(), vec!["1.1.1.1:1", "2.2.2.2"]);
}

#[test]
fn domains_and_all_below_them() {
    let mut d = DomainSet::new();
    d.insert("baidu.com".to_string());
    d.insert("qq.com".to_string());
    d.insert("qq.com".to_string());
    assert_eq!(d.names.len(), 2);
    assert!(check_domain("baidu.com", &d));
    assert!(check_domain("Map.BAIDU.com", &d));
    assert!(!check_domain("notbaidu.com", &d));
    assert!(!check_domain("google.com", &d));
}

#[test]
fn domains_come_from_the_configuration_or_a_file() {
    let mut c = AppConfig::default();
    let d = load_direct_domains(&c, Some("# x\n A.com \nb.COM\na.com\n"));
    assert_eq!(d.names, vec!["a.com", "b.com"]);
    assert!(load_direct_domains(&c, None).names.is_empty());
    c.domains.direct = vec!["C.com".to_string(), "c.com".to_string()];
    assert_eq!(load_direct_domains(&c, Some("d.com")).names, vec!["c.com"]);
    c.domains.proxy = vec!["P.com".to_string()];
    assert_eq!(load_proxy_domains(&c).names, vec!["p.com"]);
}

#[test]
fn flows_are_split_by_domain() {
    let mut d = DomainSet::new();
    d.insert("qq.com".to_string());
    let f = SmartOutboundFactory::new(Some("direct"), Some("proxy"), Some(d));
    let name = |n: &str| context(HostName::DomainName(n.to_string()));
    assert!(matches!(f.create_outbound(&name("im.qq.com")), Ok(Chosen::Direct(&"direct"))));
    assert!(matches!(f.create_outbound(&name("x.com")), Ok(Chosen::Proxy(&"proxy"))));
    let ip = context(HostName::Ip(v4(1, 1, 1, 1)));
    assert!(matches!(f.create_outbound(&ip), Ok(Chosen::Proxy(&"proxy"))));
    let gone = SmartOutboundFactory::<u8, u8>::new(None, None, None);
    assert!(!gone.should_direct("qq.com"));
    assert!(matches!(gone.create_outbound(&ip), Err(FlowError::NoOutbound)));
}

#[test]
fn keys_have_sixteen_bytes() {
    let key = ss_key("JtivfX27TuAkUkfgFXGuEQ==").unwrap();
    assert_eq!(key.len(), 16);
    assert_eq!(&key[..4], &[0x26, 0xd8, 0xaf, 0x7d]);
    assert!(ss_key("AAAA").is_none());
    assert!(ss_key("not base64!").is_none());
}

#[test]
fn rules_of_a_file_come_first() {
    let c = AppConfig::default();
    let r = dispatcher_rules(&c, Some("# r\ngeoip,CN,direct\nhost,a.b,proxy\n"), None);
    assert_eq!(r, vec!["geoip,CN,direct", "host,a.b,proxy"]);
    assert_eq!(domain_rules_count(&r), 1);
    assert_eq!(first_resolving_rule_id(1), 2);
    assert!(load_quanx_rules_from_file(None).is_empty());
}

#[test]
fn rules_are_made_without_a_file() {
    let c = AppConfig::default();
    let r = dispatcher_rules(&c, None, None);
    assert_eq!(default_direct_domains().len(), 28);
    assert_eq!(default_proxy_domains().len(), 10);
    assert_eq!(r.len(), 40);
    assert_eq!(r[0], "domain-suffix,google.com,proxy");
    assert_eq!(r[10], "domain-suffix,acg.tv,direct");
    assert_eq!(r[38], "geoip,CN,direct");
    assert_eq!(r[39], "geoip,US,proxy");
    assert_eq!(domain_rules_count(&r), 38);

    let mut c = AppConfig::default();
    c.domains.direct = vec!["d.com".to_string()];
    let r = dispatcher_rules(&c, None, None);
    assert_eq!(r, vec!["domain-suffix,d.com,direct", "geoip,CN,direct", "geoip,US,proxy"]);
    let rule = parse_rule(&r[0]).unwrap();
    assert_eq!(rule.kind, RuleKind::DomainSuffix);
    assert_eq!((rule.content.as_str(), rule.action.as_str()), ("d.com", "direct"));
}

/// The way of a name that resolves to an address in a country.
fn way(d: &RuleDispatcher, name: &str, country: Option<&str>) -> u32 {
    match d.try_match(&context(HostName::DomainName(name.to_string())), None, true) {
        TryMatchResult::Matched(way) => way,
        TryMatchResult::NeedAsync(mut m) => {
            m.on_resolved(Some(vec![Ipv4Addr::new(1, 2, 3, 4)]), None);
            m.try_match(d, country, None).unwrap()
        }
        TryMatchResult::Failed(e) => panic!("{}", e.message()),
    }
}

#[test]
fn dispatchers_are_built() {
    let mut c = AppConfig::default();
    let d = build_dispatcher(&c, None, None).unwrap();
    assert!(d.resolver);
    assert_eq!((d.fallback, d.rule_set.rules.len()), (FALLBACK, 40));
    assert_eq!(d.rule_set.first_resolving_rule_id, Some(39));
    assert_eq!([way(&d, "google.com", Some("CN")), way(&d, "x.google.com", None)], [PROXY; 2]);
    assert_eq!(way(&d, "www.bilibili.com", Some("US")), DIRECT);
    assert_eq!(way(&d, "a.b", Some("CN")), DIRECT);
    assert_eq!(way(&d, "a.b", Some("US")), PROXY);
    assert_eq!([way(&d, "a.b", Some("FR")), way(&d, "a.b", None)], [FALLBACK; 2]);
    // What goes through the proxy comes before what goes directly.
    c.domains.proxy = vec!["x.y".to_string()];
    c.domains.direct = vec!["a.x.y".to_string(), "d.e".to_string()];
    let d = build_dispatcher(&c, None, None).unwrap();
    assert_eq!([way(&d, "a.x.y", None), way(&d, "d.e", None)], [PROXY, DIRECT]);
    assert_eq!(way(&d, "google.com", None), FALLBACK);
    // The rules of a file take the place of all others.
    let d = build_dispatcher(&c, Some("host,a.b,direct\nhost,x.y,other\n"), None).unwrap();
    assert_eq!(d.rule_set.first_resolving_rule_id, None);
    assert_eq!([way(&d, "a.b", None), way(&d, "x.y", None)], [DIRECT, FALLBACK]);
}

#[test]
fn plugins_keep_values() {
    let (db, setup) = Database::open("x.db".to_string());
    assert_eq!(setup, vec![Setup::ForeignKeys, Setup::PluginTable]);
    assert_eq!(db.connect().0, "x.db");
    assert_eq!(Database::connect_temp().len(), 2);
    assert_eq!(foreign_keys(), ("foreign_keys".to_string(), "ON".to_string()));
    assert!(plugin_table().starts_with("CREATE TABLE IF NOT EXISTS `yt_plugin_cache`"));
    let p = PluginCache::new(PluginId(7), Some(db));
    let s = p.set("k", "{\"a\":1}").unwrap();
    assert_eq!((s.path.as_str(), s.plugin_id, s.key.as_str()), ("x.db", 7, "k"));
    assert_eq!(stored_json(&s.value.unwrap()), Ok("{\"a\":1}".to_string()));
    assert!(p.get("k").unwrap().sql.starts_with("SELECT `value`"));
    assert_eq!(stored_json(&[0xff]), Err(DataError::NotText));
    assert_eq!(DataError::NotText.message(), "无效的UTF-8数据");
    let none = PluginCache::new(PluginId(7), None);
    assert!(none.set("k", "1").is_none() && none.get("k").is_none());
}
