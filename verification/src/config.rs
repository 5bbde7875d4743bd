//! The configuration of the program, and the list of servers that it may use.
use vstd::prelude::*;
use vstd::slice::slice_subrange;

use crate::flow::DestView;
use crate::flow::DestinationAddr;
use crate::flow::HostName;
use crate::flow::HostView;
use crate::net::IpAddr;
use crate::net_text::ip_of;
use crate::net_text::parse_ip;
use crate::text::decimal;
use crate::text::chars_of;
use crate::text::copy_texts;
use crate::text::has_text;
use crate::text::last_of;
use crate::text::lemma_texts_push;
use crate::text::lines_of;
use crate::text::listed;
use crate::text::listed_lines;
use crate::text::parse_unsigned;
use crate::text::parse_unsigned_spec;
use crate::text::rfind;
use crate::text::slice_of;
use crate::text::texts;

verus! {

#[derive(Clone, Debug)]
pub struct ServersConfig {
    pub addresses: Vec<String>,
}

#[derive(Clone, Debug)]
pub struct DnsConfig {
    pub china_doh: String,
    pub global_doh: String,
    pub doh: String,
}

#[derive(Clone, Debug)]
pub struct FeaturesConfig {
    pub ss_key: String,
}

#[derive(Clone, Debug)]
pub struct DomainsConfig {
    pub direct: Vec<String>,
    pub proxy: Vec<String>,
}

#[derive(Clone, Debug)]
pub struct ClientConfig {
    pub listen_addr_v4: String,
    pub listen_addr_v6: String,
    pub udp_listen_addr_v4: String,
    pub udp_listen_addr_v6: String,
    pub geoip_db_path: String,
}

#[derive(Clone, Debug)]
pub struct TunConfig {
    pub enabled: bool,
    pub name: String,
    pub address: String,
    pub netmask: String,
    pub mtu: u16,
    pub routes: Vec<String>,
    pub dns_hijack: bool,
}

#[derive(Clone, Debug)]
pub struct Hysteria2Config {
    pub server: String,
    pub port: u16,
    pub password: String,
    pub sni: Option<String>,
    pub skip_cert_verify: bool,
    pub alpn: Vec<String>,
    pub disable_mtu_discovery: bool,
}

#[derive(Clone, Debug)]
pub struct AppConfig {
    pub servers: ServersConfig,
    pub dns: DnsConfig,
    pub features: FeaturesConfig,
    pub domains: DomainsConfig,
    pub client: ClientConfig,
    pub tun: TunConfig,
    pub hysteria2: Hysteria2Config,
}

impl Default for DomainsConfig {
    fn default() -> (r: Self)
        ensures
            r.direct@.len() == 0,
            r.proxy@.len() == 0,
    {
        DomainsConfig { direct: Vec::new(), proxy: Vec::new() }
    }
}

impl Default for ClientConfig {
    fn default() -> (r: Self)
        ensures
            r.listen_addr_v4@ == "127.0.0.1:1081"@,
            r.listen_addr_v6@ == "[::]:1081"@,
            r.udp_listen_addr_v4@ == "127.0.0.1:1083"@,
            r.udp_listen_addr_v6@ == "[::]:1083"@,
            r.geoip_db_path@ == "GeoLite2-Country.mmdb"@,
    {
        ClientConfig {
            listen_addr_v4: "127.0.0.1:1081".to_string(),
            listen_addr_v6: "[::]:1081".to_string(),
            udp_listen_addr_v4: "127.0.0.1:1083".to_string(),
            udp_listen_addr_v6: "[::]:1083".to_string(),
            geoip_db_path: "GeoLite2-Country.mmdb".to_string(),
        }
    }
}

/// A table for the tunnel that is left out altogether: everything is off and empty. The names of
/// `default_tun_name` and its like stand for fields that are left out of a table that is there.
impl Default for TunConfig {
    fn default() -> (r: Self)
        ensures
            !r.enabled,
            r.name@ == ""@,
            r.address@ == ""@,
            r.netmask@ == ""@,
            r.mtu == 0,
            r.routes@.len() == 0,
            !r.dns_hijack,
    {
        TunConfig {
            enabled: false,
            name: "".to_string(),
            address: "".to_string(),
            netmask: "".to_string(),
            mtu: 0,
            routes: Vec::new(),
            dns_hijack: false,
        }
    }
}

impl Default for Hysteria2Config {
    fn default() -> (r: Self)
        ensures
            r.server@ == "127.0.0.1"@,
            r.port == 8443,
            r.password@ == ""@,
            r.sni is None,
            r.skip_cert_verify,
            texts(r.alpn@) == seq!["h3"@],
            !r.disable_mtu_discovery,
    {
        Hysteria2Config {
            server: "127.0.0.1".to_string(),
            port: 8443,
            password: "".to_string(),
            sni: None,
            skip_cert_verify: default_skip_cert_verify(),
            alpn: default_alpn(),
            disable_mtu_discovery: false,
        }
    }
}

impl Default for AppConfig {
    fn default() -> (r: Self)
        ensures
            r.servers.addresses@.len() == 0,
            r.dns.china_doh@ == "https://1.12.12.12/dns-query"@,
            r.dns.global_doh@ == "https://8.8.8.8/dns-query"@,
            r.dns.doh@ == "https://8.8.8.8/dns-query"@,
            r.features.ss_key@ == "JtivfX27TuAkUkfgFXGuEQ=="@,
            call_ensures(DomainsConfig::default, (), r.domains),
            call_ensures(ClientConfig::default, (), r.client),
            call_ensures(TunConfig::default, (), r.tun),
            call_ensures(Hysteria2Config::default, (), r.hysteria2),
    {
        AppConfig {
            servers: ServersConfig { addresses: Vec::new() },
            dns: DnsConfig {
                china_doh: "https://1.12.12.12/dns-query".to_string(),
                global_doh: "https://8.8.8.8/dns-query".to_string(),
                doh: "https://8.8.8.8/dns-query".to_string(),
            },
            features: FeaturesConfig { ss_key: "JtivfX27TuAkUkfgFXGuEQ==".to_string() },
            domains: DomainsConfig::default(),
            client: ClientConfig::default(),
            tun: TunConfig::default(),
            hysteria2: Hysteria2Config::default(),
        }
    }
}

pub fn default_tun_name() -> (r: String)
    ensures
        r@ == "utun7"@,
{
    "utun7".to_string()
}

pub fn default_tun_address() -> (r: String)
    ensures
        r@ == "172.16.0.1"@,
{
    "172.16.0.1".to_string()
}

pub fn default_tun_netmask() -> (r: String)
    ensures
        r@ == "255.255.255.0"@,
{
    "255.255.255.0".to_string()
}

pub fn default_tun_mtu() -> (r: u16)
    ensures
        r == 1500,
{
    1500
}

pub fn default_skip_cert_verify() -> (r: bool)
    ensures
        r,
{
    true
}

pub fn default_alpn() -> (r: Vec<String>)
    ensures
        texts(r@) == seq!["h3"@],
{
    let mut r: Vec<String> = Vec::new();
    r.push("h3".to_string());
    assert(texts(r@) =~= seq!["h3"@]);
    r
}

/// What is wrong with a list of servers or a change to it.
#[derive(Clone, Copy, PartialEq, Eq, Structural, Debug)]
pub enum ConfigError {
    /// A file lists no server.
    NoAddresses,
    /// A new address is not an IP address.
    InvalidAddress,
}

impl ConfigError {
    pub open spec fn text(self) -> Seq<char> {
        match self {
            ConfigError::NoAddresses => "No valid server addresses found in file"@,
            ConfigError::InvalidAddress => "Invalid IP address format"@,
        }
    }

    pub fn message(self) -> (r: String)
        ensures
            r@ == self.text(),
    {
        match self {
            ConfigError::NoAddresses => "No valid server addresses found in file".to_string(),
            ConfigError::InvalidAddress => "Invalid IP address format".to_string(),
        }
    }
}

/// The port of an address that is written with one.
pub open spec fn port_of(s: Seq<char>) -> Option<nat> {
    parse_unsigned_spec(s, 65535)
}

/// The host and the port of a server. In `[host]:port` the character behind the last bracket is
/// skipped whatever it is, if it is an ASCII character; else the last colon parts the two.
pub open spec fn split_spec(addr: Seq<char>) -> Option<(Seq<char>, nat)> {
    if addr.len() > 0 && addr[0] == '[' {
        let end = last_of(addr, ']');
        if end >= 0 && end + 1 < addr.len() && (addr[end + 1] as u32) < 0x80 {
            match port_of(addr.subrange(end + 2, addr.len() as int)) {
                Some(port) => Some((addr.subrange(1, end), port)),
                None => None,
            }
        } else {
            None
        }
    } else {
        let at = last_of(addr, ':');
        if at >= 0 {
            match port_of(addr.subrange(at + 1, addr.len() as int)) {
                Some(port) => Some((addr.subrange(0, at), port)),
                None => None,
            }
        } else {
            None
        }
    }
}

/// Splits the address of a server into its host and its port.
pub fn split_address(addr: &str) -> (r: Option<(String, u16)>)
    ensures
        match r {
            Some((host, port)) => split_spec(addr@) == Some((host@, port as nat)),
            None => split_spec(addr@) is None,
        },
{
    let chars: Vec<char> = chars_of(addr);
    let s = chars.as_slice();
    if s.len() > 0 && s[0] == '[' {
        match rfind(s, ']') {
            Some(end) => {
                if end + 1 < s.len() && (s[end + 1] as u32) < 0x80 {
                    match parse_unsigned(slice_subrange(s, end + 2, s.len()), 65535) {
                        Some(port) => Some((slice_of(s, 1, end), port as u16)),
                        None => None,
                    }
                } else {
                    None
                }
            },
            None => None,
        }
    } else {
        match rfind(s, ':') {
            Some(at) => {
                match parse_unsigned(slice_subrange(s, at + 1, s.len()), 65535) {
                    Some(port) => Some((slice_of(s, 0, at), port as u16)),
                    None => None,
                }
            },
            None => None,
        }
    }
}

/// Whether an address is written in brackets.
pub open spec fn is_bracketed(addr: Seq<char>) -> bool {
    addr.len() > 0 && addr[0] == '['
}

pub fn bracketed(addr: &str) -> (r: bool)
    ensures
        r == is_bracketed(addr@),
{
    let chars: Vec<char> = chars_of(addr);
    chars.len() > 0 && chars[0] == '['
}

/// The IP address that the host of a server spells.
pub open spec fn host_ip(addr: Seq<char>) -> Option<IpAddr> {
    match split_spec(addr) {
        Some((host, _)) => ip_of(host),
        None => None,
    }
}

/// The server as a destination.
pub open spec fn fixed_spec(addr: Seq<char>) -> Option<DestView> {
    match (split_spec(addr), host_ip(addr)) {
        (Some((_, port)), Some(ip)) => Some(DestView { host: HostView::Ip(ip), port: port as u16 }),
        _ => None,
    }
}

/// The server as a destination, where its address splits and its host spells an IP address.
fn fixed(addr: &str) -> (r: Option<DestinationAddr>)
    ensures
        match r {
            Some(d) => fixed_spec(addr@) == Some(d@),
            None => fixed_spec(addr@) is None,
        },
{
    match split_address(addr) {
        Some((host, port)) => match parse_ip(host.as_str()) {
            Some(ip) => Some(DestinationAddr { host: HostName::Ip(ip), port }),
            None => None,
        },
        None => None,
    }
}

/// Whether an address is written in brackets and holds an IPv6 address.
pub open spec fn is_ipv6(addr: Seq<char>) -> bool {
    is_bracketed(addr) && (host_ip(addr) matches Some(IpAddr::V6(_)))
}

/// The first address in brackets that holds an IPv6 address, from `from` on.
pub open spec fn first_ipv6(addresses: Seq<Seq<char>>, from: int) -> Option<int>
    decreases addresses.len() - from,
{
    if from < 0 || from >= addresses.len() {
        None
    } else if is_ipv6(addresses[from]) {
        Some(from)
    } else {
        first_ipv6(addresses, from + 1)
    }
}

/// Whether every address in brackets splits, up to the first that holds an IPv6 address.
pub open spec fn brackets_split(addresses: Seq<Seq<char>>) -> bool {
    forall|i: int|
        0 <= i < addresses.len() && is_bracketed(addresses[i]) && (match first_ipv6(addresses, 0) {
            Some(n) => i <= n,
            None => true,
        }) ==> split_spec(#[trigger] addresses[i]) is Some
}

proof fn lemma_first_ipv6_from(addresses: Seq<Seq<char>>, from: int)
    requires
        0 <= from,
    ensures
        first_ipv6(addresses, from) matches Some(n) ==> from <= n < addresses.len() && is_ipv6(
            addresses[n],
        ),
    decreases addresses.len() - from,
{
    if from < addresses.len() && !is_ipv6(addresses[from]) {
        lemma_first_ipv6_from(addresses, from + 1);
    }
}

/// The servers that may be used, and which of them is in use.
#[derive(Clone, Debug)]
pub struct ServerConfig {
    pub addresses: Vec<String>,
    pub current_index: usize,
}

impl Default for ServerConfig {
    fn default() -> (r: Self)
        ensures
            r.addresses@.len() == 0,
            r.current_index == 0,
            r.wf(),
    {
        ServerConfig { addresses: Vec::new(), current_index: 0 }
    }
}

impl ServerConfig {
    /// The server in use is one of the list, if there is one.
    pub open spec fn wf(&self) -> bool {
        self.current_index < self.addresses@.len() || self.current_index == 0
    }

    pub open spec fn list(&self) -> Seq<Seq<char>> {
        texts(self.addresses@)
    }

    /// The server in use; an empty text where there is none.
    pub open spec fn address(&self) -> Seq<char> {
        if self.current_index < self.addresses@.len() {
            self.list()[self.current_index as int]
        } else {
            Seq::empty()
        }
    }

    pub fn new(initial_address: String) -> (r: Self)
        ensures
            r.list() == seq![initial_address@],
            r.current_index == 0,
            r.wf(),
    {
        let mut addresses: Vec<String> = Vec::new();
        addresses.push(initial_address);
        assert(texts(addresses@) =~= seq![initial_address@]);
        ServerConfig { addresses, current_index: 0 }
    }

    pub fn from_app_config(config: &AppConfig) -> (r: Self)
        ensures
            r.list() == texts(config.servers.addresses@),
            r.current_index == 0,
            r.wf(),
    {
        ServerConfig { addresses: copy_texts(&config.servers.addresses), current_index: 0 }
    }

    /// Reads a file that lists the servers, one on a line.
    pub fn load_from_file(content: &str) -> (r: Result<Self, ConfigError>)
        ensures
            match r {
                Ok(c) => listed(lines_of(content@)).len() > 0 && c.list() == listed(
                    lines_of(content@),
                ) && c.current_index == 0 && c.wf(),
                Err(e) => listed(lines_of(content@)).len() == 0 && e == ConfigError::NoAddresses,
            },
    {
        let addresses = listed_lines(content);
        assert(texts(addresses@).len() == addresses@.len());
        if addresses.len() == 0 {
            return Err(ConfigError::NoAddresses);
        }
        Ok(ServerConfig { addresses, current_index: 0 })
    }

    pub fn get_address(&self) -> (r: String)
        ensures
            r@ == self.address(),
    {
        if self.current_index < self.addresses.len() {
            self.addresses[self.current_index].clone()
        } else {
            let r = "".to_string();
            proof {
                reveal_strlit("");
            }
            assert(r@ =~= self.address());
            r
        }
    }

    pub fn get_all_addresses(&self) -> (r: Vec<String>)
        ensures
            texts(r@) == self.list(),
    {
        copy_texts(&self.addresses)
    }

    /// Goes to the next server, behind the last to the first.
    pub fn switch_to_next_address(&mut self) -> (r: String)
        requires
            old(self).addresses@.len() > 0,
            old(self).wf(),
        ensures
            final(self).addresses == old(self).addresses,
            final(self).current_index == (old(self).current_index + 1) % (old(
                self,
            ).addresses@.len() as int),
            final(self).wf(),
            r@ == final(self).address(),
    {
        let len: usize = self.addresses.len();
        self.current_index = (self.current_index + 1) % len;
        self.addresses[self.current_index].clone()
    }

    /// Adds a server, unless it is listed. Its address has to spell an IP address.
    pub fn update_address(&mut self, new_addr: String) -> (r: Result<(), ConfigError>)
        requires
            old(self).wf(),
        ensures
            match r {
                Ok(()) => ip_of(new_addr@) is Some,
                Err(e) => ip_of(new_addr@) is None && e == ConfigError::InvalidAddress,
            },
            final(self).list() == (if ip_of(new_addr@) is Some && !old(self).list().contains(
                new_addr@,
            ) {
                old(self).list().push(new_addr@)
            } else {
                old(self).list()
            }),
            final(self).current_index == old(self).current_index,
            final(self).wf(),
    {
        if parse_ip(new_addr.as_str()).is_none() {
            return Err(ConfigError::InvalidAddress);
        }
        if !has_text(&self.addresses, new_addr.as_str()) {
            proof {
                lemma_texts_push(self.addresses@, new_addr);
            }
            self.addresses.push(new_addr);
        }
        Ok(())
    }

    /// Whether the server in use can be a destination: its address splits, and its host spells an
    /// IP address.
    pub open spec fn is_fixed(&self) -> bool {
        fixed_spec(self.address()) is Some
    }

    /// The server in use as a destination.
    pub fn create_fixed_adrr(&self) -> (r: DestinationAddr)
        requires
            self.is_fixed(),
        ensures
            fixed_spec(self.address()) == Some(r@),
    {
        let addr = self.get_address();
        fixed(addr.as_str()).unwrap()
    }

    /// The server in use as a destination, if it can be one.
    pub fn try_fixed_adrr(&self) -> (r: Option<DestinationAddr>)
        ensures
            match r {
                Some(d) => fixed_spec(self.address()) == Some(d@),
                None => !self.is_fixed(),
            },
    {
        let addr = self.get_address();
        if fixed(addr.as_str()).is_some() {
            Some(self.create_fixed_adrr())
        } else {
            None
        }
    }

    /// The first listed server that is written in brackets and holds an IPv6 address, as a
    /// destination.
    pub fn create_fixed_ipv6_adrr(&self) -> (r: Option<DestinationAddr>)
        requires
            brackets_split(self.list()),
        ensures
            match first_ipv6(self.list(), 0) {
                Some(i) => {
                    &&& 0 <= i < self.list().len()
                    &&& r matches Some(d)
                    &&& fixed_spec(self.list()[i]) == Some(d@)
                },
                None => r is None,
            },
    {
        let mut i: usize = 0;
        while i < self.addresses.len()
            invariant
                i <= self.addresses@.len(),
                first_ipv6(self.list(), 0) == first_ipv6(self.list(), i as int),
            decreases self.addresses@.len() - i,
        {
            assert(self.list()[i as int] == self.addresses@[i as int]@);
            if bracketed(self.addresses[i].as_str()) {
                if let Some(d) = fixed(self.addresses[i].as_str()) {
                    if let HostName::Ip(IpAddr::V6(_)) = &d.host {
                        return Some(d);
                    }
                }
            }
            i += 1;
        }
        None
    }

    /// The first listed server that is written in brackets and holds an IPv6 address, as a
    /// destination. `Err` where an address in brackets before it does not split.
    pub fn try_fixed_ipv6_adrr(&self) -> (r: Result<Option<DestinationAddr>, ConfigError>)
        ensures
            match r {
                Ok(found) => brackets_split(self.list()) && match first_ipv6(self.list(), 0) {
                    Some(i) => {
                        &&& 0 <= i < self.list().len()
                        &&& found matches Some(d)
                        &&& fixed_spec(self.list()[i]) == Some(d@)
                    },
                    None => found is None,
                },
                Err(e) => !brackets_split(self.list()) && e == ConfigError::InvalidAddress,
            },
    {
        let mut i: usize = 0;
        while i < self.addresses.len()
            invariant
                i <= self.addresses@.len(),
                first_ipv6(self.list(), 0) == first_ipv6(self.list(), i as int),
                forall|j: int|
                    0 <= j < i && is_bracketed(self.list()[j]) ==> split_spec(
                        #[trigger] self.list()[j],
                    ) is Some,
            decreases self.addresses@.len() - i,
        {
            assert(self.list()[i as int] == self.addresses@[i as int]@);
            if bracketed(self.addresses[i].as_str()) {
                if split_address(self.addresses[i].as_str()).is_none() {
                    proof {
                        lemma_first_ipv6_from(self.list(), i as int);
                        assert(split_spec(self.list()[i as int]) is None);
                    }
                    return Err(ConfigError::InvalidAddress);
                }
                if let Some(d) = fixed(self.addresses[i].as_str()) {
                    if let HostName::Ip(IpAddr::V6(_)) = &d.host {
                        return Ok(self.create_fixed_ipv6_adrr());
                    }
                }
            }
            i += 1;
        }
        Ok(self.create_fixed_ipv6_adrr())
    }
}

/// Where the index stands after going to the next of `len` servers `n` times.
pub open spec fn after_switches(index: int, len: int, n: nat) -> int
    decreases n,
{
    if n == 0 {
        index
    } else {
        (after_switches(index, len, (n - 1) as nat) + 1) % len
    }
}

/// Going to the next server `n` times moves the index on by `n`, around the list.
pub proof fn switches_go_round(index: int, len: int, n: nat)
    requires
        0 <= index < len,
    ensures
        after_switches(index, len, n) == (index + n) % len,
        after_switches(index, len, len as nat) == index,
    decreases n,
{
    switch_steps(index, len, n);
    switch_steps(index, len, len as nat);
    vstd::arithmetic::div_mod::lemma_mod_add_multiples_vanish(index, len);
    vstd::arithmetic::div_mod::lemma_small_mod(index as nat, len as nat);
}

proof fn switch_steps(index: int, len: int, n: nat)
    requires
        0 <= index < len,
    ensures
        after_switches(index, len, n) == (index + n) % len,
    decreases n,
{
    if n == 0 {
        vstd::arithmetic::div_mod::lemma_small_mod(index as nat, len as nat);
    } else {
        switch_steps(index, len, (n - 1) as nat);
        vstd::arithmetic::div_mod::lemma_add_mod_noop(index + n - 1, 1, len);
        vstd::arithmetic::div_mod::lemma_add_mod_noop((index + n - 1) % len, 1, len);
        vstd::arithmetic::div_mod::lemma_mod_twice(index + n - 1, len);
    }
}

/// An update of the configuration that a client asks for.
#[derive(Debug)]
pub struct ConfigUpdate {
    pub server_address: String,
}

/// What a client is answered.
#[derive(Debug)]
pub struct ApiResponse<T> {
    pub success: bool,
    pub message: String,
    pub data: Option<T>,
}

/// What a client is told of the server.
#[derive(Debug)]
pub struct ServerStatus {
    pub server_address: String,
    pub connections: u32,
    pub uplink_bytes: u64,
    pub downlink_bytes: u64,
}

// ---- Laws ----
/// The address of a server is split at the last colon into host and port. An address in brackets has its
/// port behind them, and its host may hold colons.
pub proof fn addresses_are_split(addr: &str, r: Option<(String, u16)>, host: Seq<char>, port: u16)
    requires
        call_ensures(split_address, (addr,), r),
    ensures
        (host.len() == 0 || host[0] != '[') && addr@ == host + seq![':'] + decimal(port as nat) ==> (
        r matches Some((h, p)) && h@ == host && p == port),
        addr@ == seq!['['] + host + seq![']', ':'] + decimal(port as nat) ==> (r matches Some((h, p))
            && h@ == host && p == port),
{
    crate::text::numbers_are_read_back(port as nat, 65535);
    crate::net_text::lemma_decimal(port as nat);
    let d = decimal(port as nat);
    if (host.len() == 0 || host[0] != '[') && addr@ == host + seq![':'] + d {
        let at = host.len() as int;
        assert(addr@[at] == ':');
        assert forall|i: int| at < i < addr@.len() implies addr@[i] != ':' by {
            assert(addr@[i] == d[i - at - 1]);
        }
        crate::text::lemma_last_of(addr@, ':', at);
        assert(addr@.subrange(0, at) =~= host);
        assert(addr@.subrange(at + 1, addr@.len() as int) =~= d);
        if at > 0 {
            assert(addr@[0] == host[0]);
        } else {
            assert(addr@[0] == ':');
        }
    }
    if addr@ == seq!['['] + host + seq![']', ':'] + d {
        let end = host.len() as int + 1;
        assert(addr@[0] == '[' && addr@[end] == ']' && addr@[end + 1] == ':');
        assert forall|i: int| end < i < addr@.len() implies addr@[i] != ']' by {
            if i > end + 1 {
                assert(addr@[i] == d[i - end - 2]);
                assert(crate::text::is_digit(d[i - end - 2]));
            }
        }
        crate::text::lemma_last_of(addr@, ']', end);
        assert(addr@.subrange(1, end) =~= host);
        assert(addr@.subrange(end + 2, addr@.len() as int) =~= d);
    }
}

/// An address without a port, or with one that is no number up to 65535, is not split.
pub proof fn addresses_need_a_port(addr: &str, r: Option<(String, u16)>, host: Seq<char>, port: nat)
    requires
        call_ensures(split_address, (addr,), r),
        host.len() == 0 || host[0] != '[',
    ensures
        addr@ == host && !host.contains(':') ==> r is None,
        addr@ == host + seq![':'] + decimal(port) && port > 65535 ==> r is None,
{
    crate::text::numbers_are_read_back(port, 65535);
    let d = decimal(port);
    if addr@ == host && !host.contains(':') {
        crate::text::lemma_no_last(addr@, ':');
    }
    if addr@ == host + seq![':'] + d {
        let at = host.len() as int;
        assert(addr@[at] == ':');
        assert forall|i: int| at < i < addr@.len() implies addr@[i] != ':' by {
            assert(addr@[i] == d[i - at - 1]);
        }
        crate::text::lemma_last_of(addr@, ':', at);
        assert(addr@.subrange(at + 1, addr@.len() as int) =~= d);
        if at > 0 {
            assert(addr@[0] == host[0]);
        }
    }
}

/// The server in use, if its host is an address, is a destination with that address and its port; a
/// server with a name is none.
pub proof fn servers_become_destinations(
    c: &ServerConfig,
    text: String,
    r: Option<DestinationAddr>,
    host: Seq<char>,
    port: u16,
)
    requires
        call_ensures(ServerConfig::get_address, (c,), text),
        call_ensures(ServerConfig::try_fixed_adrr, (c,), r),
        host.len() > 0,
        host[0] != '[',
        text@ == host + seq![':'] + decimal(port as nat),
    ensures
        ip_of(host) matches Some(ip) ==> (r matches Some(d) && d@.host == HostView::Ip(ip)
            && d@.port == port),
        ip_of(host) is None ==> r is None,
{
    crate::text::numbers_are_read_back(port as nat, 65535);
    let d = decimal(port as nat);
    let at = host.len() as int;
    assert(text@[at] == ':');
    assert forall|i: int| at < i < text@.len() implies text@[i] != ':' by {
        assert(text@[i] == d[i - at - 1]);
    }
    crate::text::lemma_last_of(text@, ':', at);
    assert(text@.subrange(0, at) =~= host);
    assert(text@.subrange(at + 1, text@.len() as int) =~= d);
    assert(text@[0] == host[0]);
}

/// The IPv6 server is the first in brackets that holds an IPv6 address: none before it does.
pub proof fn first_ipv6_server_counts(c: &ServerConfig, r: Result<Option<DestinationAddr>, ConfigError>)
    requires
        call_ensures(ServerConfig::try_fixed_ipv6_adrr, (c,), r),
    ensures
        r matches Ok(Some(d)) ==> (d@.host matches HostView::Ip(IpAddr::V6(_))) && exists|i: int|
            0 <= i < c.list().len() && fixed_spec(#[trigger] c.list()[i]) == Some(d@) && forall|
                j: int,
            |
                0 <= j < i ==> !is_ipv6(#[trigger] c.list()[j]),
        r matches Ok(None) ==> forall|j: int|
            0 <= j < c.list().len() ==> !is_ipv6(#[trigger] c.list()[j]),
{
    lemma_first_ipv6_is_first(c.list(), 0);
    if let Some(i) = first_ipv6(c.list(), 0) {
        lemma_first_ipv6_from(c.list(), 0);
        assert(is_ipv6(c.list()[i]));
    }
}

proof fn lemma_first_ipv6_is_first(addresses: Seq<Seq<char>>, from: int)
    requires
        0 <= from,
    ensures
        match first_ipv6(addresses, from) {
            Some(n) => forall|j: int| from <= j < n ==> !is_ipv6(#[trigger] addresses[j]),
            None => forall|j: int|
                from <= j < addresses.len() ==> !is_ipv6(#[trigger] addresses[j]),
        },
    decreases addresses.len() - from,
{
    if from < addresses.len() && !is_ipv6(addresses[from]) {
        lemma_first_ipv6_is_first(addresses, from + 1);
    }
}

/// Going to the next server visits the servers in their order and then begins again; the list stays.
pub proof fn next_server_follows(c: &mut ServerConfig, r: String, d: &mut ServerConfig, s: String)
    requires
        c.wf(),
        c.addresses@.len() > 1,
        call_ensures(ServerConfig::switch_to_next_address, (c,), r),
        *d == *final(c),
        call_ensures(ServerConfig::switch_to_next_address, (d,), s),
    ensures
        old(c).current_index + 1 < old(c).addresses@.len() ==> r@ == old(c).addresses@[
            old(c).current_index + 1
        ]@,
        old(c).current_index + 1 == old(c).addresses@.len() ==> r@ == old(c).addresses@[0]@ && s@
            == old(c).addresses@[1]@,
        final(d).addresses == old(c).addresses,
{
    let n = old(c).addresses@.len() as int;
    let i = old(c).current_index as int;
    if i + 1 < n {
        vstd::arithmetic::div_mod::lemma_small_mod((i + 1) as nat, n as nat);
    } else {
        vstd::arithmetic::div_mod::lemma_mod_self_0(n);
        vstd::arithmetic::div_mod::lemma_small_mod(1, n as nat);
    }
    assert(final(c).list()[final(c).current_index as int] == old(c).addresses@[final(
        c).current_index as int]@);
    assert(final(d).list()[final(d).current_index as int] == old(c).addresses@[final(
        d).current_index as int]@);
}

/// A list of servers is used from its first; a file that lists none is refused.
pub proof fn files_list_servers(content: &str, r: Result<ServerConfig, ConfigError>)
    requires
        call_ensures(ServerConfig::load_from_file, (content,), r),
    ensures
        r is Err <==> listed(lines_of(content@)).len() == 0,
        r matches Ok(c) ==> c.address() == listed(lines_of(content@))[0] && c.list().len() == listed(
            lines_of(content@),
        ).len(),
{
}

/// A configuration that says nothing listens on this machine alone for IPv4, on ports 1081 for streams and
/// 1083 for datagrams, has no servers, no domains and no tunnel, and offers HTTP/3 to the server.
pub proof fn defaults_are_modest(c: AppConfig)
    requires
        call_ensures(AppConfig::default, (), c),
    ensures
        c.servers.addresses@.len() == 0 && c.domains.direct@.len() == 0 && c.domains.proxy@.len()
            == 0,
        c.client.listen_addr_v4@ == "127.0.0.1:1081"@ && c.client.listen_addr_v6@ == "[::]:1081"@,
        c.client.udp_listen_addr_v4@ == "127.0.0.1:1083"@ && c.client.udp_listen_addr_v6@
            == "[::]:1083"@,
        !c.tun.enabled && !c.tun.dns_hijack && c.tun.mtu == 0 && c.tun.routes@.len() == 0,
        c.hysteria2.server@ == "127.0.0.1"@ && c.hysteria2.port == 8443 && c.hysteria2.sni is None
            && c.hysteria2.skip_cert_verify && !c.hysteria2.disable_mtu_discovery,
        c.hysteria2.alpn@.len() == 1 && c.hysteria2.alpn@[0]@ == "h3"@,
        c.dns.doh@ == c.dns.global_doh@ && c.dns.global_doh@ == "https://8.8.8.8/dns-query"@
            && c.dns.china_doh@ == "https://1.12.12.12/dns-query"@,
{
    let t = texts(c.hysteria2.alpn@);
    assert(t.len() == 1);
    assert(t[0] == c.hysteria2.alpn@[0]@);
}

/// What a table for the tunnel leaves out stands for a device of its own in a small private network.
pub proof fn tunnels_have_defaults(
    name: String,
    address: String,
    netmask: String,
    mtu: u16,
    skip: bool,
    alpn: Vec<String>,
)
    requires
        call_ensures(default_tun_name, (), name),
        call_ensures(default_tun_address, (), address),
        call_ensures(default_tun_netmask, (), netmask),
        call_ensures(default_tun_mtu, (), mtu),
        call_ensures(default_skip_cert_verify, (), skip),
        call_ensures(default_alpn, (), alpn),
    ensures
        name@ == "utun7"@ && address@ == "172.16.0.1"@ && netmask@ == "255.255.255.0"@,
        mtu == 1500,
        skip,
        alpn@.len() == 1 && alpn@[0]@ == "h3"@,
{
    let t = texts(alpn@);
    assert(t.len() == 1);
    assert(t[0] == alpn@[0]@);
}

} // verus!
