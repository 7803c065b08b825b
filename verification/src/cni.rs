//! The data model: one inbound request, its multi-plugin configuration,
//! and the response shapes that delegates produce and the aggregate takes.
use vstd::prelude::*;
use vstd::string::StringExecFns;

use crate::json::jmap_model;
use crate::net::{Ipv4Cidr, Ipv4Inet};
use crate::text::lex_lt;

verus! {

/// DNS settings carried through a network configuration.
#[derive(Debug, Clone)]
pub struct DnsConfig {
    pub nameservers: Vec<Ipv4Inet>,
    pub domain: Option<String>,
    pub search: Vec<String>,
    pub options: Vec<String>,
}

pub struct DnsConfigV {
    pub nameservers: Seq<Ipv4Inet>,
    pub domain: Option<Seq<char>>,
    pub search: Seq<Seq<char>>,
    pub options: Seq<Seq<char>>,
}

/// The views of a sequence of strings.
pub open spec fn string_views(v: Seq<String>) -> Seq<Seq<char>> {
    v.map_values(|s: String| s@)
}

impl View for DnsConfig {
    type V = DnsConfigV;

    open spec fn view(&self) -> DnsConfigV {
        DnsConfigV {
            nameservers: self.nameservers@,
            domain: match self.domain {
                Some(d) => Some(d@),
                None => None,
            },
            search: string_views(self.search@),
            options: string_views(self.options@),
        }
    }
}

impl DnsConfig {
    pub open spec fn wf(self) -> bool {
        forall|i: int| 0 <= i < self.nameservers@.len() ==> self.nameservers@[i].wf()
    }
}

/// One named plugin of the configuration: the interface name it is keyed
/// by, and its opaque configuration fragment.
#[derive(Debug)]
pub struct PluginEntry {
    pub name: String,
    pub config: serde_json::Map<String, serde_json::Value>,
}

impl View for PluginEntry {
    type V = (Seq<char>, Map<Seq<char>, serde_json::Value>);

    open spec fn view(&self) -> (Seq<char>, Map<Seq<char>, serde_json::Value>) {
        (self.name@, jmap_model(self.config))
    }
}

/// Whether plugin entries are strictly sorted by name, the order they are
/// kept and invoked in.
pub open spec fn plugins_sorted(s: Seq<PluginEntry>) -> bool {
    forall|i: int, j: int| 0 <= i < j < s.len() ==> lex_lt(s[i].name@, s[j].name@)
}

/// The name-to-fragment mapping that a sequence of plugin entries holds.
pub open spec fn plugins_map(s: Seq<PluginEntry>) -> Map<
    Seq<char>,
    Map<Seq<char>, serde_json::Value>,
>
    decreases s.len(),
{
    if s.len() == 0 {
        Map::empty()
    } else {
        plugins_map(s.drop_last()).insert(s.last().name@, jmap_model(s.last().config))
    }
}

/// A sorted entry sequence indexes its own mapping: each entry is bound to
/// its fragment, and every bound name comes from some entry.
pub proof fn lemma_plugins_map_props(s: Seq<PluginEntry>)
    requires
        plugins_sorted(s),
    ensures
        forall|i: int|
            0 <= i < s.len() ==> plugins_map(s).contains_key(s[i].name@) && plugins_map(
                s,
            )[s[i].name@] == jmap_model(s[i].config),
        forall|k: Seq<char>|
            plugins_map(s).contains_key(k) ==> exists|i: int|
                0 <= i < s.len() && s[i].name@ == k,
    decreases s.len(),
{
    if s.len() > 0 {
        let t = s.drop_last();
        assert(plugins_sorted(t));
        lemma_plugins_map_props(t);
        assert forall|i: int| 0 <= i < s.len() implies plugins_map(s).contains_key(s[i].name@)
            && plugins_map(s)[s[i].name@] == jmap_model(s[i].config) by {
            if i < s.len() - 1 {
                assert(lex_lt(s[i].name@, s.last().name@));
                crate::text::lemma_lex_lt_irreflexive(s[i].name@);
                assert(s[i].name@ != s.last().name@) by {
                    if s[i].name@ == s.last().name@ {
                        assert(lex_lt(s[i].name@, s[i].name@));
                    }
                }
                assert(t[i] == s[i]);
            }
        }
        assert forall|k: Seq<char>| plugins_map(s).contains_key(k) implies exists|i: int|
            0 <= i < s.len() && s[i].name@ == k by {
            if k == s.last().name@ {
                assert(s[s.len() - 1].name@ == k);
            } else {
                assert(plugins_map(t).contains_key(k));
                let i = choose|i: int| 0 <= i < t.len() && t[i].name@ == k;
                assert(t[i] == s[i]);
                assert(s[i].name@ == k);
            }
        }
    }
}

/// The plugin order is canonical: two sorted entry sequences holding the
/// same name-to-fragment mapping are the same sequence, entry for entry —
/// so the invocation order does not depend on how the mapping was written
/// down.
pub proof fn lemma_sorted_plugins_canonical(s1: Seq<PluginEntry>, s2: Seq<PluginEntry>)
    requires
        plugins_sorted(s1),
        plugins_sorted(s2),
        plugins_map(s1) == plugins_map(s2),
    ensures
        s1.len() == s2.len(),
        forall|i: int|
            0 <= i < s1.len() ==> s1[i].name@ == s2[i].name@ && jmap_model(s1[i].config)
                == jmap_model(s2[i].config),
    decreases s1.len(),
{
    lemma_plugins_map_props(s1);
    lemma_plugins_map_props(s2);
    if s1.len() == 0 {
        if s2.len() > 0 {
            assert(plugins_map(s2).contains_key(s2.last().name@));
        }
    } else if s2.len() == 0 {
        assert(plugins_map(s1).contains_key(s1.last().name@));
    } else {
        let a = s1.last();
        let b = s2.last();
        assert(a.name@ == b.name@) by {
            assert(plugins_map(s2).contains_key(a.name@));
            let j = choose|j: int| 0 <= j < s2.len() && s2[j].name@ == a.name@;
            assert(plugins_map(s1).contains_key(b.name@));
            let i = choose|i: int| 0 <= i < s1.len() && s1[i].name@ == b.name@;
            // The last entry carries the greatest name on either side.
            if j < s2.len() - 1 && i < s1.len() - 1 {
                assert(lex_lt(s2[j].name@, b.name@));
                assert(lex_lt(s1[i].name@, a.name@));
                crate::text::lemma_lex_lt_asymmetric(a.name@, b.name@);
            } else if j == s2.len() - 1 {
                assert(s2[j] == b);
            } else {
                assert(s1[i] == a);
            }
        }
        let t1 = s1.drop_last();
        let t2 = s2.drop_last();
        assert(plugins_sorted(t1));
        assert(plugins_sorted(t2));
        lemma_plugins_map_props(t1);
        lemma_plugins_map_props(t2);
        assert(!plugins_map(t1).contains_key(a.name@)) by {
            if plugins_map(t1).contains_key(a.name@) {
                let i = choose|i: int| 0 <= i < t1.len() && t1[i].name@ == a.name@;
                assert(s1[i] == t1[i]);
                assert(lex_lt(s1[i].name@, a.name@));
                crate::text::lemma_lex_lt_irreflexive(a.name@);
            }
        }
        assert(!plugins_map(t2).contains_key(b.name@)) by {
            if plugins_map(t2).contains_key(b.name@) {
                let j = choose|j: int| 0 <= j < t2.len() && t2[j].name@ == b.name@;
                assert(s2[j] == t2[j]);
                assert(lex_lt(s2[j].name@, b.name@));
                crate::text::lemma_lex_lt_irreflexive(b.name@);
            }
        }
        assert(plugins_map(t1) =~= plugins_map(t2)) by {
            assert(plugins_map(t1) =~= plugins_map(s1).remove(a.name@));
            assert(plugins_map(t2) =~= plugins_map(s2).remove(b.name@));
        }
        lemma_sorted_plugins_canonical(t1, t2);
        assert(jmap_model(a.config) == plugins_map(s1)[a.name@]);
        assert(jmap_model(b.config) == plugins_map(s2)[b.name@]);
        assert forall|i: int|
            0 <= i < s1.len() implies s1[i].name@ == s2[i].name@ && jmap_model(s1[i].config)
            == jmap_model(s2[i].config) by {
            if i < s1.len() - 1 {
                assert(t1[i] == s1[i]);
                assert(t2[i] == s2[i]);
            }
        }
    }
}

/// The top-level network configuration read from the caller.
#[derive(Debug)]
pub struct CniConfig {
    pub cni_version: String,
    pub plugin_type: String,
    pub name: String,
    pub filter: Vec<String>,
    pub plugins: Vec<PluginEntry>,
    pub dns: Option<DnsConfig>,
}

pub struct CniConfigV {
    pub cni_version: Seq<char>,
    pub plugin_type: Seq<char>,
    pub name: Seq<char>,
    pub filter: Seq<Seq<char>>,
    pub plugins: Seq<(Seq<char>, Map<Seq<char>, serde_json::Value>)>,
    pub dns: Option<DnsConfigV>,
}

impl View for CniConfig {
    type V = CniConfigV;

    open spec fn view(&self) -> CniConfigV {
        CniConfigV {
            cni_version: self.cni_version@,
            plugin_type: self.plugin_type@,
            name: self.name@,
            filter: string_views(self.filter@),
            plugins: self.plugins@.map_values(|p: PluginEntry| p@),
            dns: match self.dns {
                Some(d) => Some(d@),
                None => None,
            },
        }
    }
}

impl CniConfig {
    pub open spec fn wf(self) -> bool {
        &&& plugins_sorted(self.plugins@)
        &&& match self.dns {
            Some(d) => d.wf(),
            None => true,
        }
    }
}

/// One inbound CNI request: the command, the identifiers handed over in
/// the environment, and the parsed configuration.
#[derive(Debug)]
pub struct CniRequest {
    pub command: String,
    pub container_id: String,
    pub netns: String,
    pub ifname: String,
    pub args: Option<String>,
    pub path: String,
    pub config: CniConfig,
}

/// A network interface reported by a delegate.
#[derive(Debug, Clone, PartialEq, Eq)]
pub struct Interface {
    pub name: String,
    pub mac: String,
    pub sandbox: Option<String>,
}

pub struct InterfaceV {
    pub name: Seq<char>,
    pub mac: Seq<char>,
    pub sandbox: Option<Seq<char>>,
}

impl View for Interface {
    type V = InterfaceV;

    open spec fn view(&self) -> InterfaceV {
        InterfaceV {
            name: self.name@,
            mac: self.mac@,
            sandbox: match self.sandbox {
                Some(s) => Some(s@),
                None => None,
            },
        }
    }
}

/// One address assignment reported by a delegate.
#[derive(Debug, Clone, PartialEq, Eq)]
pub struct IpResponse {
    pub version: String,
    pub address: Ipv4Inet,
    pub gateway: Option<Ipv4Inet>,
    pub interface: Option<u32>,
}

pub struct IpResponseV {
    pub version: Seq<char>,
    pub address: Ipv4Inet,
    pub gateway: Option<Ipv4Inet>,
    pub interface: Option<u32>,
}

impl View for IpResponse {
    type V = IpResponseV;

    open spec fn view(&self) -> IpResponseV {
        IpResponseV {
            version: self.version@,
            address: self.address,
            gateway: self.gateway,
            interface: self.interface,
        }
    }
}

/// One route reported by a delegate.
#[derive(Debug, Clone, Copy, PartialEq, Eq)]
pub struct Route {
    pub dst: Ipv4Cidr,
    pub gw: Option<Ipv4Inet>,
}

/// A delegate's response, and equally the shape of the aggregate that is
/// sent back to the caller.
#[derive(Debug, Clone, PartialEq, Eq)]
pub struct CniResponse {
    pub cni_version: String,
    pub interfaces: Vec<Interface>,
    pub ips: Vec<IpResponse>,
    pub routes: Vec<Route>,
}

pub struct CniResponseV {
    pub cni_version: Seq<char>,
    pub interfaces: Seq<InterfaceV>,
    pub ips: Seq<IpResponseV>,
    pub routes: Seq<Route>,
}

impl View for CniResponse {
    type V = CniResponseV;

    open spec fn view(&self) -> CniResponseV {
        CniResponseV {
            cni_version: self.cni_version@,
            interfaces: self.interfaces@.map_values(|x: Interface| x@),
            ips: self.ips@.map_values(|x: IpResponse| x@),
            routes: self.routes@,
        }
    }
}

/// An IPAM-style response: addresses and routes with optional DNS.
#[derive(Debug, Clone)]
pub struct IpamResponse {
    pub cni_version: String,
    pub ips: Vec<IpResponse>,
    pub routes: Vec<Route>,
    pub dns: Option<DnsConfig>,
}

impl IpamResponse {
    /// Bundle addresses, routes and DNS under the fixed IPAM protocol
    /// version string.
    pub fn new(ips: Vec<IpResponse>, routes: Vec<Route>, dns: Option<DnsConfig>) -> (r:
        IpamResponse)
        ensures
            r.cni_version@ == "v0.4.0"@,
            r.ips == ips,
            r.routes == routes,
            r.dns == dns,
    {
        IpamResponse { cni_version: String::from_str("v0.4.0"), ips, routes, dns }
    }
}

/// Configuration for a consul-backed IPAM plugin.
#[derive(Debug, Clone)]
pub struct ConsulIpamConfig {
    pub plugin_type: String,
    pub subnet: Ipv4Cidr,
    pub gateway: Ipv4Inet,
    pub routes: Vec<Route>,
}

/// Everything that can end a request early, each fatal for the whole run.
#[derive(Debug)]
pub enum CniError {
    /// A required environment variable is unset; holds the variable name.
    MissingEnvironment { var: String },
    /// The input body does not parse into the configuration shape.
    MalformedConfig,
    /// A plugin fragment has no string `type` field.
    UnresolvedPluginType { plugin: String },
    /// A delegate exited non-zero; holds its captured output as diagnostic.
    DelegateFailed { plugin: String, output: String },
    /// A delegate's output does not parse into the response shape.
    MalformedDelegateResponse { plugin: String },
}

} // verus!
