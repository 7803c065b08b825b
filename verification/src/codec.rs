//! Shape checking between JSON values and the data model. A spec function
//! per shape says exactly which values parse and to what; the executable
//! readers and builders are proved against those functions, so turning a
//! value into data and data back into a value are inverse to each other.
use vstd::prelude::*;
use vstd::string::StringExecFns;

use crate::cni::{
    plugins_map, plugins_sorted, string_views, CniConfig, CniResponse, CniResponseV, DnsConfig,
    DnsConfigV, Interface, InterfaceV, IpResponse, IpResponseV, PluginEntry, Route,
};
use crate::cni::{lemma_plugins_map_props, lemma_sorted_plugins_canonical, CniError};
use crate::json::{
    jmap_clone, jmap_entries, jmap_get, jmap_model, jmap_new, jmap_insert, jv_arr, jv_as_array,
    jv_as_object, jv_as_str, jv_as_u64, jv_is_null, jv_null, jv_null_check, jv_obj, jv_of_array,
    jv_of_object, jv_of_string, jv_of_u64, jv_str, jv_u64,
};
use crate::text::lex_lt;
use crate::net::{cidr_of_text, cidr_ok, inet_of_text, Ipv4Cidr, Ipv4Inet};
use crate::net::{format_cidr, format_inet, parse_cidr, parse_inet};

verus! {

/// The string a required field of an object holds, if present and a string.
pub open spec fn spec_req_str(m: Map<Seq<char>, serde_json::Value>, k: Seq<char>) -> Option<
    Seq<char>,
> {
    if m.contains_key(k) {
        jv_str(m[k])
    } else {
        None
    }
}

/// An optional string field: absent or null reads as nothing, a string
/// reads as itself, anything else does not parse.
pub open spec fn spec_opt_str(m: Map<Seq<char>, serde_json::Value>, k: Seq<char>) -> Option<
    Option<Seq<char>>,
> {
    if !m.contains_key(k) {
        Some(None)
    } else if jv_is_null(m[k]) {
        Some(None)
    } else {
        match jv_str(m[k]) {
            Some(s) => Some(Some(s)),
            None => None,
        }
    }
}

/// The elements a required array field holds.
pub open spec fn spec_req_arr(m: Map<Seq<char>, serde_json::Value>, k: Seq<char>) -> Option<
    Seq<serde_json::Value>,
> {
    if m.contains_key(k) {
        jv_arr(m[k])
    } else {
        None
    }
}

/// A required address field: a string in the address/prefix form.
pub open spec fn spec_req_inet(m: Map<Seq<char>, serde_json::Value>, k: Seq<char>) -> Option<
    Ipv4Inet,
> {
    match spec_req_str(m, k) {
        None => None,
        Some(s) => match inet_of_text(s) {
            Some(t) => Some(Ipv4Inet { a: t.0, b: t.1, c: t.2, d: t.3, prefix_len: t.4 }),
            None => None,
        },
    }
}

/// An optional address field.
pub open spec fn spec_opt_inet(m: Map<Seq<char>, serde_json::Value>, k: Seq<char>) -> Option<
    Option<Ipv4Inet>,
> {
    if !m.contains_key(k) {
        Some(None)
    } else if jv_is_null(m[k]) {
        Some(None)
    } else {
        match jv_str(m[k]) {
            None => None,
            Some(s) => match inet_of_text(s) {
                Some(t) => Some(
                    Some(Ipv4Inet { a: t.0, b: t.1, c: t.2, d: t.3, prefix_len: t.4 }),
                ),
                None => None,
            },
        }
    }
}

/// A required network field: a string naming a network.
pub open spec fn spec_req_cidr(m: Map<Seq<char>, serde_json::Value>, k: Seq<char>) -> Option<
    Ipv4Cidr,
> {
    match spec_req_str(m, k) {
        None => None,
        Some(s) => match cidr_of_text(s) {
            Some(t) => Some(Ipv4Cidr { a: t.0, b: t.1, c: t.2, d: t.3, prefix_len: t.4 }),
            None => None,
        },
    }
}

/// An optional unsigned field that must fit in 32 bits.
pub open spec fn spec_opt_u32(m: Map<Seq<char>, serde_json::Value>, k: Seq<char>) -> Option<
    Option<u32>,
> {
    if !m.contains_key(k) {
        Some(None)
    } else if jv_is_null(m[k]) {
        Some(None)
    } else {
        match jv_u64(m[k]) {
            Some(n) => if n <= u32::MAX as u64 {
                Some(Some(n as u32))
            } else {
                None
            },
            None => None,
        }
    }
}

/// The interface a JSON value describes, if it has the interface shape.
pub open spec fn spec_interface_of_value(v: serde_json::Value) -> Option<InterfaceV> {
    match jv_obj(v) {
        None => None,
        Some(m) => match (spec_req_str(m, "name"@), spec_req_str(m, "mac"@), spec_opt_str(
            m,
            "sandbox"@,
        )) {
            (Some(name), Some(mac), Some(sandbox)) => Some(InterfaceV { name, mac, sandbox }),
            _ => None,
        },
    }
}

/// The address assignment a JSON value describes.
pub open spec fn spec_ip_of_value(v: serde_json::Value) -> Option<IpResponseV> {
    match jv_obj(v) {
        None => None,
        Some(m) => match (spec_req_str(m, "version"@), spec_req_inet(m, "address"@), spec_opt_inet(
            m,
            "gateway"@,
        ), spec_opt_u32(m, "interface"@)) {
            (Some(version), Some(address), Some(gateway), Some(interface)) => Some(
                IpResponseV { version, address, gateway, interface },
            ),
            _ => None,
        },
    }
}

/// The route a JSON value describes.
pub open spec fn spec_route_of_value(v: serde_json::Value) -> Option<Route> {
    match jv_obj(v) {
        None => None,
        Some(m) => match (spec_req_cidr(m, "dst"@), spec_opt_inet(m, "gw"@)) {
            (Some(dst), Some(gw)) => Some(Route { dst, gw }),
            _ => None,
        },
    }
}

pub open spec fn spec_interfaces_of(a: Seq<serde_json::Value>) -> Option<Seq<InterfaceV>>
    decreases a.len(),
{
    if a.len() == 0 {
        Some(Seq::empty())
    } else {
        match (spec_interface_of_value(a[0]), spec_interfaces_of(a.skip(1))) {
            (Some(x), Some(r)) => Some(seq![x] + r),
            _ => None,
        }
    }
}

pub open spec fn spec_ips_of(a: Seq<serde_json::Value>) -> Option<Seq<IpResponseV>>
    decreases a.len(),
{
    if a.len() == 0 {
        Some(Seq::empty())
    } else {
        match (spec_ip_of_value(a[0]), spec_ips_of(a.skip(1))) {
            (Some(x), Some(r)) => Some(seq![x] + r),
            _ => None,
        }
    }
}

pub open spec fn spec_routes_of(a: Seq<serde_json::Value>) -> Option<Seq<Route>>
    decreases a.len(),
{
    if a.len() == 0 {
        Some(Seq::empty())
    } else {
        match (spec_route_of_value(a[0]), spec_routes_of(a.skip(1))) {
            (Some(x), Some(r)) => Some(seq![x] + r),
            _ => None,
        }
    }
}

/// The delegate response a JSON value describes, if it has the response
/// shape: a version string and the three arrays.
pub open spec fn spec_response_of_value(v: serde_json::Value) -> Option<CniResponseV> {
    match jv_obj(v) {
        None => None,
        Some(m) => match (spec_req_str(m, "cniVersion"@), spec_req_arr(m, "interfaces"@),
        spec_req_arr(m, "ips"@), spec_req_arr(m, "routes"@)) {
            (Some(ver), Some(ia), Some(pa), Some(ra)) => match (spec_interfaces_of(ia), spec_ips_of(
                pa,
            ), spec_routes_of(ra)) {
                (Some(i), Some(p), Some(r)) => Some(
                    CniResponseV { cni_version: ver, interfaces: i, ips: p, routes: r },
                ),
                _ => None,
            },
            _ => None,
        },
    }
}

proof fn lemma_skip1<T>(a: Seq<T>, i: int)
    requires
        0 <= i < a.len(),
    ensures
        a.skip(i).skip(1) =~= a.skip(i + 1),
{
}

/// Read a required string field.
fn req_str_field(m: &serde_json::Map<String, serde_json::Value>, k: &str) -> (r: Option<String>)
    ensures
        match r {
            Some(s) => spec_req_str(jmap_model(*m), k@) == Some(s@),
            None => spec_req_str(jmap_model(*m), k@) is None,
        },
{
    match jmap_get(m, k) {
        None => None,
        Some(v) => match jv_as_str(v) {
            None => None,
            Some(s) => Some(String::from_str(s)),
        },
    }
}

/// Read an optional string field; absent and null both read as nothing.
fn opt_str_field(m: &serde_json::Map<String, serde_json::Value>, k: &str) -> (r: Option<
    Option<String>,
>)
    ensures
        match r {
            Some(o) => spec_opt_str(jmap_model(*m), k@) == Some(
                match o {
                    Some(s) => Some(s@),
                    None => None,
                },
            ),
            None => spec_opt_str(jmap_model(*m), k@) is None,
        },
{
    match jmap_get(m, k) {
        None => Some(None),
        Some(v) => {
            if jv_null_check(v) {
                Some(None)
            } else {
                match jv_as_str(v) {
                    None => None,
                    Some(s) => Some(Some(String::from_str(s))),
                }
            }
        },
    }
}

/// Read a required address field.
fn req_inet_field(m: &serde_json::Map<String, serde_json::Value>, k: &str) -> (r: Option<
    Ipv4Inet,
>)
    ensures
        match r {
            Some(x) => spec_req_inet(jmap_model(*m), k@) == Some(x) && x.wf(),
            None => spec_req_inet(jmap_model(*m), k@) is None,
        },
{
    match jmap_get(m, k) {
        None => None,
        Some(v) => match jv_as_str(v) {
            None => None,
            Some(s) => parse_inet(s),
        },
    }
}

/// Read an optional address field.
fn opt_inet_field(m: &serde_json::Map<String, serde_json::Value>, k: &str) -> (r: Option<
    Option<Ipv4Inet>,
>)
    ensures
        match r {
            Some(o) => spec_opt_inet(jmap_model(*m), k@) == Some(o) && (o matches Some(x) ==> x.wf()),
            None => spec_opt_inet(jmap_model(*m), k@) is None,
        },
{
    match jmap_get(m, k) {
        None => Some(None),
        Some(v) => {
            if jv_null_check(v) {
                Some(None)
            } else {
                match jv_as_str(v) {
                    None => None,
                    Some(s) => match parse_inet(s) {
                        None => None,
                        Some(x) => Some(Some(x)),
                    },
                }
            }
        },
    }
}

/// Read a required network field.
fn req_cidr_field(m: &serde_json::Map<String, serde_json::Value>, k: &str) -> (r: Option<
    Ipv4Cidr,
>)
    ensures
        match r {
            Some(x) => spec_req_cidr(jmap_model(*m), k@) == Some(x) && x.wf(),
            None => spec_req_cidr(jmap_model(*m), k@) is None,
        },
{
    match jmap_get(m, k) {
        None => None,
        Some(v) => match jv_as_str(v) {
            None => None,
            Some(s) => parse_cidr(s),
        },
    }
}

/// Read an optional 32-bit unsigned field.
fn opt_u32_field(m: &serde_json::Map<String, serde_json::Value>, k: &str) -> (r: Option<
    Option<u32>,
>)
    ensures
        match r {
            Some(o) => spec_opt_u32(jmap_model(*m), k@) == Some(o),
            None => spec_opt_u32(jmap_model(*m), k@) is None,
        },
{
    match jmap_get(m, k) {
        None => Some(None),
        Some(v) => {
            if jv_null_check(v) {
                Some(None)
            } else {
                match jv_as_u64(v) {
                    None => None,
                    Some(n) => {
                        if n <= u32::MAX as u64 {
                            Some(Some(n as u32))
                        } else {
                            None
                        }
                    },
                }
            }
        },
    }
}

/// Read one interface out of a JSON value.
pub fn interface_from_value(v: &serde_json::Value) -> (r: Option<Interface>)
    ensures
        match r {
            Some(x) => spec_interface_of_value(*v) == Some(x@),
            None => spec_interface_of_value(*v) is None,
        },
{
    match jv_as_object(v) {
        None => None,
        Some(m) => {
            let name = match req_str_field(m, "name") {
                None => { return None; },
                Some(s) => s,
            };
            let mac = match req_str_field(m, "mac") {
                None => { return None; },
                Some(s) => s,
            };
            let sandbox = match opt_str_field(m, "sandbox") {
                None => { return None; },
                Some(o) => o,
            };
            Some(Interface { name, mac, sandbox })
        },
    }
}

/// Read one address assignment out of a JSON value.
pub fn ip_from_value(v: &serde_json::Value) -> (r: Option<IpResponse>)
    ensures
        match r {
            Some(x) => spec_ip_of_value(*v) == Some(x@) && x.address.wf() && (x.gateway matches Some(g) ==> g.wf()),
            None => spec_ip_of_value(*v) is None,
        },
{
    match jv_as_object(v) {
        None => None,
        Some(m) => {
            let version = match req_str_field(m, "version") {
                None => { return None; },
                Some(s) => s,
            };
            let address = match req_inet_field(m, "address") {
                None => { return None; },
                Some(x) => x,
            };
            let gateway = match opt_inet_field(m, "gateway") {
                None => { return None; },
                Some(o) => o,
            };
            let interface = match opt_u32_field(m, "interface") {
                None => { return None; },
                Some(o) => o,
            };
            Some(IpResponse { version, address, gateway, interface })
        },
    }
}

/// Read one route out of a JSON value.
pub fn route_from_value(v: &serde_json::Value) -> (r: Option<Route>)
    ensures
        match r {
            Some(x) => spec_route_of_value(*v) == Some(x) && x.dst.wf() && (x.gw matches Some(g) ==> g.wf()),
            None => spec_route_of_value(*v) is None,
        },
{
    match jv_as_object(v) {
        None => None,
        Some(m) => {
            let dst = match req_cidr_field(m, "dst") {
                None => { return None; },
                Some(x) => x,
            };
            let gw = match opt_inet_field(m, "gw") {
                None => { return None; },
                Some(o) => o,
            };
            Some(Route { dst, gw })
        },
    }
}

/// The views of a sequence of interfaces.
pub open spec fn interface_views(v: Seq<Interface>) -> Seq<InterfaceV> {
    v.map_values(|x: Interface| x@)
}

/// The views of a sequence of address assignments.
pub open spec fn ip_views(v: Seq<IpResponse>) -> Seq<IpResponseV> {
    v.map_values(|x: IpResponse| x@)
}

fn interfaces_from_values(a: &Vec<serde_json::Value>, i: usize) -> (r: Option<Vec<Interface>>)
    requires
        i <= a@.len(),
    ensures
        match r {
            Some(v) => spec_interfaces_of(a@.skip(i as int)) == Some(interface_views(v@)),
            None => spec_interfaces_of(a@.skip(i as int)) is None,
        },
    decreases a@.len() - i,
{
    if i == a.len() {
        let out: Vec<Interface> = Vec::new();
        proof {
            assert(a@.skip(i as int) =~= Seq::<serde_json::Value>::empty());
            assert(interface_views(out@) =~= Seq::<InterfaceV>::empty());
        }
        Some(out)
    } else {
        proof {
            lemma_skip1(a@, i as int);
            assert(a@.skip(i as int)[0] == a@[i as int]);
        }
        match interface_from_value(&a[i]) {
            None => None,
            Some(x) => match interfaces_from_values(a, i + 1) {
                None => None,
                Some(mut rest) => {
                    let ghost prev = rest@;
                    rest.insert(0, x);
                    proof {
                        assert(rest@.skip(1) =~= prev);
                        assert(interface_views(rest@) =~= seq![x@] + interface_views(prev));
                    }
                    Some(rest)
                },
            },
        }
    }
}

fn ips_from_values(a: &Vec<serde_json::Value>, i: usize) -> (r: Option<Vec<IpResponse>>)
    requires
        i <= a@.len(),
    ensures
        match r {
            Some(v) => spec_ips_of(a@.skip(i as int)) == Some(ip_views(v@)),
            None => spec_ips_of(a@.skip(i as int)) is None,
        },
    decreases a@.len() - i,
{
    if i == a.len() {
        let out: Vec<IpResponse> = Vec::new();
        proof {
            assert(a@.skip(i as int) =~= Seq::<serde_json::Value>::empty());
            assert(ip_views(out@) =~= Seq::<IpResponseV>::empty());
        }
        Some(out)
    } else {
        proof {
            lemma_skip1(a@, i as int);
            assert(a@.skip(i as int)[0] == a@[i as int]);
        }
        match ip_from_value(&a[i]) {
            None => None,
            Some(x) => match ips_from_values(a, i + 1) {
                None => None,
                Some(mut rest) => {
                    let ghost prev = rest@;
                    rest.insert(0, x);
                    proof {
                        assert(rest@.skip(1) =~= prev);
                        assert(ip_views(rest@) =~= seq![x@] + ip_views(prev));
                    }
                    Some(rest)
                },
            },
        }
    }
}

fn routes_from_values(a: &Vec<serde_json::Value>, i: usize) -> (r: Option<Vec<Route>>)
    requires
        i <= a@.len(),
    ensures
        match r {
            Some(v) => spec_routes_of(a@.skip(i as int)) == Some(v@),
            None => spec_routes_of(a@.skip(i as int)) is None,
        },
    decreases a@.len() - i,
{
    if i == a.len() {
        let out: Vec<Route> = Vec::new();
        proof {
            assert(a@.skip(i as int) =~= Seq::<serde_json::Value>::empty());
            assert(out@ =~= Seq::<Route>::empty());
        }
        Some(out)
    } else {
        proof {
            lemma_skip1(a@, i as int);
            assert(a@.skip(i as int)[0] == a@[i as int]);
        }
        match route_from_value(&a[i]) {
            None => None,
            Some(x) => match routes_from_values(a, i + 1) {
                None => None,
                Some(mut rest) => {
                    let ghost prev = rest@;
                    rest.insert(0, x);
                    proof {
                        assert(rest@.skip(1) =~= prev);
                        assert(rest@ =~= seq![x] + prev);
                    }
                    Some(rest)
                },
            },
        }
    }
}

/// Read a whole delegate response out of a JSON value.
pub fn response_from_value(v: &serde_json::Value) -> (r: Option<CniResponse>)
    ensures
        match r {
            Some(x) => spec_response_of_value(*v) == Some(x@),
            None => spec_response_of_value(*v) is None,
        },
{
    match jv_as_object(v) {
        None => None,
        Some(m) => {
            let cni_version = match req_str_field(m, "cniVersion") {
                None => { return None; },
                Some(s) => s,
            };
            let ia = match jmap_get(m, "interfaces") {
                None => { return None; },
                Some(x) => x,
            };
            let ia = match jv_as_array(ia) {
                None => { return None; },
                Some(x) => x,
            };
            let pa = match jmap_get(m, "ips") {
                None => { return None; },
                Some(x) => x,
            };
            let pa = match jv_as_array(pa) {
                None => { return None; },
                Some(x) => x,
            };
            let ra = match jmap_get(m, "routes") {
                None => { return None; },
                Some(x) => x,
            };
            let ra = match jv_as_array(ra) {
                None => { return None; },
                Some(x) => x,
            };
            proof {
                assert(ia@.skip(0) =~= ia@);
                assert(pa@.skip(0) =~= pa@);
                assert(ra@.skip(0) =~= ra@);
            }
            let interfaces = match interfaces_from_values(ia, 0) {
                None => { return None; },
                Some(x) => x,
            };
            let ips = match ips_from_values(pa, 0) {
                None => { return None; },
                Some(x) => x,
            };
            let routes = match routes_from_values(ra, 0) {
                None => { return None; },
                Some(x) => x,
            };
            Some(CniResponse { cni_version, interfaces, ips, routes })
        },
    }
}

/// Whether an address assignment holds only printable addresses.
pub open spec fn ip_ok(x: IpResponseV) -> bool {
    &&& x.address.wf()
    &&& match x.gateway {
        Some(g) => g.wf(),
        None => true,
    }
}

pub open spec fn ips_ok(s: Seq<IpResponseV>) -> bool {
    forall|j: int| 0 <= j < s.len() ==> ip_ok(s[j])
}

/// Whether a route holds only printable networks and addresses.
pub open spec fn route_ok(x: Route) -> bool {
    &&& cidr_ok(x.dst.a, x.dst.b, x.dst.c, x.dst.d, x.dst.prefix_len)
    &&& match x.gw {
        Some(g) => g.wf(),
        None => true,
    }
}

pub open spec fn routes_ok(s: Seq<Route>) -> bool {
    forall|j: int| 0 <= j < s.len() ==> route_ok(s[j])
}

/// Turn one interface into the JSON value it parses back from.
pub fn interface_to_value(x: &Interface) -> (v: serde_json::Value)
    ensures
        spec_interface_of_value(v) == Some(x@),
{
    proof {
        reveal_strlit("name");
        reveal_strlit("mac");
        reveal_strlit("sandbox");
    }
    let mut m = jmap_new();
    jmap_insert(&mut m, String::from_str("name"), jv_of_string(x.name.clone()));
    jmap_insert(&mut m, String::from_str("mac"), jv_of_string(x.mac.clone()));
    match &x.sandbox {
        Some(s) => {
            jmap_insert(&mut m, String::from_str("sandbox"), jv_of_string(s.clone()));
        },
        None => {},
    }
    proof {
        let mm = jmap_model(m);
        assert("name"@.len() == 4 && "mac"@.len() == 3 && "sandbox"@.len() == 7);
        assert(spec_req_str(mm, "name"@) == Some(x.name@));
        assert(spec_req_str(mm, "mac"@) == Some(x.mac@));
        assert(spec_opt_str(mm, "sandbox"@) == Some(x@.sandbox));
    }
    jv_of_object(m)
}

/// Turn one address assignment into the JSON value it parses back from;
/// nothing if one of its addresses cannot be printed.
pub fn ip_to_value(x: &IpResponse) -> (v: Option<serde_json::Value>)
    ensures
        match v {
            Some(v) => spec_ip_of_value(v) == Some(x@),
            None => !ip_ok(x@),
        },
{
    proof {
        reveal_strlit("version");
        reveal_strlit("address");
        reveal_strlit("gateway");
        reveal_strlit("interface");
    }
    if x.address.prefix_len > 32 {
        return None;
    }
    let mut m = jmap_new();
    jmap_insert(&mut m, String::from_str("version"), jv_of_string(x.version.clone()));
    jmap_insert(&mut m, String::from_str("address"), jv_of_string(format_inet(&x.address)));
    match &x.gateway {
        Some(g) => {
            if g.prefix_len > 32 {
                return None;
            }
            jmap_insert(&mut m, String::from_str("gateway"), jv_of_string(format_inet(g)));
        },
        None => {},
    }
    match x.interface {
        Some(n) => {
            jmap_insert(&mut m, String::from_str("interface"), jv_of_u64(n as u64));
        },
        None => {},
    }
    proof {
        let mm = jmap_model(m);
        assert("version"@.len() == 7 && "address"@.len() == 7 && "gateway"@.len() == 7
            && "interface"@.len() == 9);
        assert("version"@[0] == 'v' && "address"@[0] == 'a' && "gateway"@[0] == 'g');
        assert(spec_req_str(mm, "version"@) == Some(x.version@));
        assert(Ipv4Inet {
            a: x.address.a,
            b: x.address.b,
            c: x.address.c,
            d: x.address.d,
            prefix_len: x.address.prefix_len,
        } == x.address);
        assert(spec_req_inet(mm, "address"@) == Some(x.address));
        assert(spec_opt_inet(mm, "gateway"@) == Some(x@.gateway));
        assert(spec_opt_u32(mm, "interface"@) == Some(x@.interface));
    }
    Some(jv_of_object(m))
}

/// Turn one route into the JSON value it parses back from; nothing if its
/// network or gateway cannot be printed.
pub fn route_to_value(x: &Route) -> (v: Option<serde_json::Value>)
    ensures
        match v {
            Some(v) => spec_route_of_value(v) == Some(*x),
            None => !route_ok(*x),
        },
{
    proof {
        reveal_strlit("dst");
        reveal_strlit("gw");
    }
    let dst = match format_cidr(&x.dst) {
        Some(s) => s,
        None => { return None; },
    };
    let mut m = jmap_new();
    jmap_insert(&mut m, String::from_str("dst"), jv_of_string(dst));
    match &x.gw {
        Some(g) => {
            if g.prefix_len > 32 {
                return None;
            }
            jmap_insert(&mut m, String::from_str("gw"), jv_of_string(format_inet(g)));
        },
        None => {},
    }
    proof {
        let mm = jmap_model(m);
        assert("dst"@.len() == 3 && "gw"@.len() == 2);
        assert(Ipv4Cidr {
            a: x.dst.a,
            b: x.dst.b,
            c: x.dst.c,
            d: x.dst.d,
            prefix_len: x.dst.prefix_len,
        } == x.dst);
        assert(spec_req_cidr(mm, "dst"@) == Some(x.dst));
        assert(spec_opt_inet(mm, "gw"@) == Some(x.gw));
    }
    Some(jv_of_object(m))
}

fn interfaces_to_values(v: &Vec<Interface>, i: usize) -> (r: Vec<serde_json::Value>)
    requires
        i <= v@.len(),
    ensures
        spec_interfaces_of(r@) == Some(interface_views(v@.skip(i as int))),
    decreases v@.len() - i,
{
    if i == v.len() {
        let out: Vec<serde_json::Value> = Vec::new();
        proof {
            assert(out@ =~= Seq::<serde_json::Value>::empty());
            assert(interface_views(v@.skip(i as int)) =~= Seq::<InterfaceV>::empty());
        }
        out
    } else {
        let x = interface_to_value(&v[i]);
        let mut rest = interfaces_to_values(v, i + 1);
        let ghost prev = rest@;
        rest.insert(0, x);
        proof {
            assert(rest@.skip(1) =~= prev);
            assert(rest@[0] == x);
            assert(interface_views(v@.skip(i as int)) =~= seq![v@[i as int]@]
                + interface_views(v@.skip(i as int + 1)));
        }
        rest
    }
}

fn ips_to_values(v: &Vec<IpResponse>, i: usize) -> (r: Option<Vec<serde_json::Value>>)
    requires
        i <= v@.len(),
    ensures
        match r {
            Some(r) => spec_ips_of(r@) == Some(ip_views(v@.skip(i as int))),
            None => !ips_ok(ip_views(v@.skip(i as int))),
        },
    decreases v@.len() - i,
{
    if i == v.len() {
        let out: Vec<serde_json::Value> = Vec::new();
        proof {
            assert(out@ =~= Seq::<serde_json::Value>::empty());
            assert(ip_views(v@.skip(i as int)) =~= Seq::<IpResponseV>::empty());
        }
        Some(out)
    } else {
        proof {
            assert(ip_views(v@.skip(i as int)) =~= seq![v@[i as int]@]
                + ip_views(v@.skip(i as int + 1)));
        }
        let x = match ip_to_value(&v[i]) {
            Some(x) => x,
            None => {
                proof {
                    assert(ip_views(v@.skip(i as int))[0] == v@[i as int]@);
                }
                return None;
            },
        };
        match ips_to_values(v, i + 1) {
            Some(mut rest) => {
                let ghost prev = rest@;
                rest.insert(0, x);
                proof {
                    assert(rest@.skip(1) =~= prev);
                    assert(rest@[0] == x);
                }
                Some(rest)
            },
            None => {
                proof {
                    let s1 = ip_views(v@.skip(i as int + 1));
                    let s0 = ip_views(v@.skip(i as int));
                    assert(exists|j: int| 0 <= j < s1.len() && !ip_ok(s1[j])) by {
                        if forall|j: int| 0 <= j < s1.len() ==> ip_ok(#[trigger] s1[j]) {
                            assert(ips_ok(s1));
                        }
                    }
                    let j = choose|j: int| 0 <= j < s1.len() && !ip_ok(s1[j]);
                    assert(s0[j + 1] == s1[j]);
                    assert(!ip_ok(s0[j + 1]));
                }
                None
            },
        }
    }
}

fn routes_to_values(v: &Vec<Route>, i: usize) -> (r: Option<Vec<serde_json::Value>>)
    requires
        i <= v@.len(),
    ensures
        match r {
            Some(r) => spec_routes_of(r@) == Some(v@.skip(i as int)),
            None => !routes_ok(v@.skip(i as int)),
        },
    decreases v@.len() - i,
{
    if i == v.len() {
        let out: Vec<serde_json::Value> = Vec::new();
        proof {
            assert(out@ =~= Seq::<serde_json::Value>::empty());
            assert(v@.skip(i as int) =~= Seq::<Route>::empty());
        }
        Some(out)
    } else {
        proof {
            assert(v@.skip(i as int) =~= seq![v@[i as int]] + v@.skip(i as int + 1));
        }
        let x = match route_to_value(&v[i]) {
            Some(x) => x,
            None => {
                proof {
                    assert(v@.skip(i as int)[0] == v@[i as int]);
                }
                return None;
            },
        };
        match routes_to_values(v, i + 1) {
            Some(mut rest) => {
                let ghost prev = rest@;
                rest.insert(0, x);
                proof {
                    assert(rest@.skip(1) =~= prev);
                    assert(rest@[0] == x);
                }
                Some(rest)
            },
            None => {
                proof {
                    let s1 = v@.skip(i as int + 1);
                    let s0 = v@.skip(i as int);
                    assert(exists|j: int| 0 <= j < s1.len() && !route_ok(s1[j])) by {
                        if forall|j: int| 0 <= j < s1.len() ==> route_ok(#[trigger] s1[j]) {
                            assert(routes_ok(s1));
                        }
                    }
                    let j = choose|j: int| 0 <= j < s1.len() && !route_ok(s1[j]);
                    assert(s0[j + 1] == s1[j]);
                    assert(!route_ok(s0[j + 1]));
                }
                None
            },
        }
    }
}

/// Turn a whole response into the JSON value it parses back from; nothing
/// if one of its addresses or networks cannot be printed.
pub fn response_to_value(x: &CniResponse) -> (r: Option<serde_json::Value>)
    ensures
        match r {
            Some(v) => spec_response_of_value(v) == Some(x@),
            None => !(ips_ok(x@.ips) && routes_ok(x@.routes)),
        },
{
    proof {
        reveal_strlit("cniVersion");
        reveal_strlit("interfaces");
        reveal_strlit("ips");
        reveal_strlit("routes");
        assert(x.interfaces@.skip(0) =~= x.interfaces@);
        assert(x.ips@.skip(0) =~= x.ips@);
        assert(x.routes@.skip(0) =~= x.routes@);
    }
    let ia = interfaces_to_values(&x.interfaces, 0);
    let pa = match ips_to_values(&x.ips, 0) {
        Some(a) => a,
        None => { return None; },
    };
    let ra = match routes_to_values(&x.routes, 0) {
        Some(a) => a,
        None => { return None; },
    };
    let ghost iav = ia@;
    let ghost pav = pa@;
    let ghost rav = ra@;
    let mut m = jmap_new();
    jmap_insert(&mut m, String::from_str("cniVersion"), jv_of_string(x.cni_version.clone()));
    jmap_insert(&mut m, String::from_str("interfaces"), jv_of_array(ia));
    jmap_insert(&mut m, String::from_str("ips"), jv_of_array(pa));
    jmap_insert(&mut m, String::from_str("routes"), jv_of_array(ra));
    proof {
        let mm = jmap_model(m);
        assert("cniVersion"@.len() == 10 && "interfaces"@.len() == 10 && "ips"@.len() == 3
            && "routes"@.len() == 6);
        assert("cniVersion"@[0] == 'c' && "interfaces"@[0] == 'i');
        assert(spec_req_str(mm, "cniVersion"@) == Some(x.cni_version@));
        assert(spec_req_arr(mm, "interfaces"@) == Some(iav));
        assert(spec_req_arr(mm, "ips"@) == Some(pav));
        assert(spec_req_arr(mm, "routes"@) == Some(rav));
    }
    Some(jv_of_object(m))
}

/// The strings an array of JSON values holds, if every element is one.
pub open spec fn spec_strings_of(a: Seq<serde_json::Value>) -> Option<Seq<Seq<char>>>
    decreases a.len(),
{
    if a.len() == 0 {
        Some(Seq::empty())
    } else {
        match (jv_str(a[0]), spec_strings_of(a.skip(1))) {
            (Some(x), Some(r)) => Some(seq![x] + r),
            _ => None,
        }
    }
}

/// The addresses an array of JSON values holds, if every element is a
/// string in the address/prefix form.
pub open spec fn spec_inets_of(a: Seq<serde_json::Value>) -> Option<Seq<Ipv4Inet>>
    decreases a.len(),
{
    if a.len() == 0 {
        Some(Seq::empty())
    } else {
        let rest = spec_inets_of(a.skip(1));
        match jv_str(a[0]) {
            None => None,
            Some(s) => match (inet_of_text(s), rest) {
                (Some(t), Some(r)) => Some(
                    seq![Ipv4Inet { a: t.0, b: t.1, c: t.2, d: t.3, prefix_len: t.4 }] + r,
                ),
                _ => None,
            },
        }
    }
}

/// An array field that reads as empty when absent.
pub open spec fn spec_arr_or_empty(m: Map<Seq<char>, serde_json::Value>, k: Seq<char>) -> Option<
    Seq<serde_json::Value>,
> {
    if !m.contains_key(k) {
        Some(Seq::empty())
    } else {
        jv_arr(m[k])
    }
}

/// The DNS settings a JSON value describes.
pub open spec fn spec_dns_of_value(v: serde_json::Value) -> Option<DnsConfigV> {
    match jv_obj(v) {
        None => None,
        Some(m) => match (spec_arr_or_empty(m, "nameservers"@), spec_opt_str(m, "domain"@),
        spec_arr_or_empty(m, "search"@), spec_arr_or_empty(m, "options"@)) {
            (Some(na), Some(domain), Some(sa), Some(oa)) => match (spec_inets_of(na),
            spec_strings_of(sa), spec_strings_of(oa)) {
                (Some(nameservers), Some(search), Some(options)) => Some(
                    DnsConfigV { nameservers, domain, search, options },
                ),
                _ => None,
            },
            _ => None,
        },
    }
}

/// An optional DNS field: absent or null reads as nothing.
pub open spec fn spec_opt_dns(m: Map<Seq<char>, serde_json::Value>) -> Option<Option<DnsConfigV>> {
    if !m.contains_key("dns"@) {
        Some(None)
    } else if jv_is_null(m["dns"@]) {
        Some(None)
    } else {
        match spec_dns_of_value(m["dns"@]) {
            Some(d) => Some(Some(d)),
            None => None,
        }
    }
}

/// The name-to-fragment mapping a plugins object holds, if every plugin's
/// value is itself an object.
pub open spec fn plugins_model_of(pm: Map<Seq<char>, serde_json::Value>) -> Option<
    Map<Seq<char>, Map<Seq<char>, serde_json::Value>>,
> {
    if forall|k: Seq<char>| #[trigger] pm.contains_key(k) ==> jv_obj(pm[k]) is Some {
        Some(Map::new(|k: Seq<char>| pm.contains_key(k), |k: Seq<char>| jv_obj(pm[k])->Some_0))
    } else {
        None
    }
}

/// What a configuration amounts to once the order of its plugin entries
/// is forgotten: every field by value, the plugins as a mapping.
pub struct ConfigMapV {
    pub cni_version: Seq<char>,
    pub plugin_type: Seq<char>,
    pub name: Seq<char>,
    pub filter: Seq<Seq<char>>,
    pub plugins: Map<Seq<char>, Map<Seq<char>, serde_json::Value>>,
    pub dns: Option<DnsConfigV>,
}

pub open spec fn config_map_view(c: CniConfig) -> ConfigMapV {
    ConfigMapV {
        cni_version: c.cni_version@,
        plugin_type: c.plugin_type@,
        name: c.name@,
        filter: string_views(c.filter@),
        plugins: plugins_map(c.plugins@),
        dns: match c.dns {
            Some(d) => Some(d@),
            None => None,
        },
    }
}

/// The configuration a JSON value describes, if it has the configuration
/// shape: the three required strings, the filter list, the plugins object
/// and optional DNS settings.
pub open spec fn spec_config_of_value(v: serde_json::Value) -> Option<ConfigMapV> {
    match jv_obj(v) {
        None => None,
        Some(m) => match (spec_req_str(m, "cniVersion"@), spec_req_str(m, "type"@), spec_req_str(
            m,
            "name"@,
        ), spec_req_arr(m, "filter"@)) {
            (Some(ver), Some(ty), Some(name), Some(fa)) => match spec_strings_of(fa) {
                None => None,
                Some(filter) => if !m.contains_key("plugins"@) {
                    None
                } else {
                    match jv_obj(m["plugins"@]) {
                        None => None,
                        Some(pm) => match (plugins_model_of(pm), spec_opt_dns(m)) {
                            (Some(plugins), Some(dns)) => Some(
                                ConfigMapV {
                                    cni_version: ver,
                                    plugin_type: ty,
                                    name,
                                    filter,
                                    plugins,
                                    dns,
                                },
                            ),
                            _ => None,
                        },
                    }
                },
            },
            _ => None,
        },
    }
}

fn strings_from_values(a: &Vec<serde_json::Value>, i: usize) -> (r: Option<Vec<String>>)
    requires
        i <= a@.len(),
    ensures
        match r {
            Some(v) => spec_strings_of(a@.skip(i as int)) == Some(string_views(v@)),
            None => spec_strings_of(a@.skip(i as int)) is None,
        },
    decreases a@.len() - i,
{
    if i == a.len() {
        let out: Vec<String> = Vec::new();
        proof {
            assert(a@.skip(i as int) =~= Seq::<serde_json::Value>::empty());
            assert(string_views(out@) =~= Seq::<Seq<char>>::empty());
        }
        Some(out)
    } else {
        proof {
            lemma_skip1(a@, i as int);
            assert(a@.skip(i as int)[0] == a@[i as int]);
        }
        match jv_as_str(&a[i]) {
            None => None,
            Some(x) => {
                let x = String::from_str(x);
                match strings_from_values(a, i + 1) {
                    None => None,
                    Some(mut rest) => {
                        let ghost prev = rest@;
                        rest.insert(0, x);
                        proof {
                            assert(rest@.skip(1) =~= prev);
                            assert(string_views(rest@) =~= seq![x@] + string_views(prev));
                        }
                        Some(rest)
                    },
                }
            },
        }
    }
}

fn inets_from_values(a: &Vec<serde_json::Value>, i: usize) -> (r: Option<Vec<Ipv4Inet>>)
    requires
        i <= a@.len(),
    ensures
        match r {
            Some(v) => spec_inets_of(a@.skip(i as int)) == Some(v@) && (forall|j: int|
                0 <= j < v@.len() ==> v@[j].wf()),
            None => spec_inets_of(a@.skip(i as int)) is None,
        },
    decreases a@.len() - i,
{
    if i == a.len() {
        let out: Vec<Ipv4Inet> = Vec::new();
        proof {
            assert(a@.skip(i as int) =~= Seq::<serde_json::Value>::empty());
            assert(out@ =~= Seq::<Ipv4Inet>::empty());
        }
        Some(out)
    } else {
        proof {
            lemma_skip1(a@, i as int);
            assert(a@.skip(i as int)[0] == a@[i as int]);
        }
        match jv_as_str(&a[i]) {
            None => None,
            Some(x) => match parse_inet(x) {
                None => None,
                Some(x) => match inets_from_values(a, i + 1) {
                    None => None,
                    Some(mut rest) => {
                        let ghost prev = rest@;
                        rest.insert(0, x);
                        proof {
                            assert(rest@.skip(1) =~= prev);
                            assert(rest@ =~= seq![x] + prev);
                        }
                        Some(rest)
                    },
                },
            },
        }
    }
}

/// Read an array field that defaults to empty when absent.
fn arr_or_empty_field<'a>(
    m: &'a serde_json::Map<String, serde_json::Value>,
    k: &str,
    empty: &'a Vec<serde_json::Value>,
) -> (r: Option<&'a Vec<serde_json::Value>>)
    requires
        empty@.len() == 0,
    ensures
        match r {
            Some(a) => spec_arr_or_empty(jmap_model(*m), k@) == Some(a@),
            None => spec_arr_or_empty(jmap_model(*m), k@) is None,
        },
{
    match jmap_get(m, k) {
        None => {
            proof {
                assert(empty@ =~= Seq::<serde_json::Value>::empty());
            }
            Some(empty)
        },
        Some(v) => jv_as_array(v),
    }
}

/// Read DNS settings out of a JSON value.
pub fn dns_from_value(v: &serde_json::Value) -> (r: Option<DnsConfig>)
    ensures
        match r {
            Some(d) => spec_dns_of_value(*v) == Some(d@) && d.wf(),
            None => spec_dns_of_value(*v) is None,
        },
{
    match jv_as_object(v) {
        None => None,
        Some(m) => {
            let empty: Vec<serde_json::Value> = Vec::new();
            let na = match arr_or_empty_field(m, "nameservers", &empty) {
                None => { return None; },
                Some(a) => a,
            };
            let domain = match opt_str_field(m, "domain") {
                None => { return None; },
                Some(o) => o,
            };
            let sa = match arr_or_empty_field(m, "search", &empty) {
                None => { return None; },
                Some(a) => a,
            };
            let oa = match arr_or_empty_field(m, "options", &empty) {
                None => { return None; },
                Some(a) => a,
            };
            proof {
                assert(na@.skip(0) =~= na@);
                assert(sa@.skip(0) =~= sa@);
                assert(oa@.skip(0) =~= oa@);
            }
            let nameservers = match inets_from_values(na, 0) {
                None => { return None; },
                Some(x) => x,
            };
            let search = match strings_from_values(sa, 0) {
                None => { return None; },
                Some(x) => x,
            };
            let options = match strings_from_values(oa, 0) {
                None => { return None; },
                Some(x) => x,
            };
            Some(DnsConfig { nameservers, domain, search, options })
        },
    }
}

/// Read a whole network configuration out of a JSON value. The plugin
/// entries come out strictly sorted by name, whatever order the document
/// wrote them in.
#[verifier::loop_isolation(false)]
pub fn config_from_value(v: &serde_json::Value) -> (r: Result<CniConfig, CniError>)
    ensures
        match r {
            Ok(c) => c.wf() && spec_config_of_value(*v) == Some(config_map_view(c)),
            Err(e) => spec_config_of_value(*v) is None && e is MalformedConfig,
        },
{
    let m = match jv_as_object(v) {
        None => { return Err(CniError::MalformedConfig); },
        Some(m) => m,
    };
    let cni_version = match req_str_field(m, "cniVersion") {
        None => { return Err(CniError::MalformedConfig); },
        Some(s) => s,
    };
    let plugin_type = match req_str_field(m, "type") {
        None => { return Err(CniError::MalformedConfig); },
        Some(s) => s,
    };
    let name = match req_str_field(m, "name") {
        None => { return Err(CniError::MalformedConfig); },
        Some(s) => s,
    };
    let fa = match jmap_get(m, "filter") {
        None => { return Err(CniError::MalformedConfig); },
        Some(x) => x,
    };
    let fa = match jv_as_array(fa) {
        None => { return Err(CniError::MalformedConfig); },
        Some(x) => x,
    };
    proof {
        assert(fa@.skip(0) =~= fa@);
    }
    let filter = match strings_from_values(fa, 0) {
        None => { return Err(CniError::MalformedConfig); },
        Some(x) => x,
    };
    let pv = match jmap_get(m, "plugins") {
        None => { return Err(CniError::MalformedConfig); },
        Some(x) => x,
    };
    let pobj = match jv_as_object(pv) {
        None => { return Err(CniError::MalformedConfig); },
        Some(x) => x,
    };
    let ghost pm = jmap_model(*pobj);
    let entries = jmap_entries(pobj);
    let ghost ev = entries@;
    let mut plugins: Vec<PluginEntry> = Vec::new();
    let mut idx: usize = 0;
    while idx < entries.len()
        invariant
            idx <= ev.len(),
            entries@ == ev,
            pm == jmap_model(*pobj),
            forall|i: int|
                0 <= i < ev.len() ==> pm.contains_key(ev[i].0@) && ev[i].1 == pm[ev[i].0@],
            forall|k: Seq<char>|
                pm.contains_key(k) ==> exists|i: int| 0 <= i < ev.len() && ev[i].0@ == k,
            forall|i: int, j: int| 0 <= i < j < ev.len() ==> lex_lt(ev[i].0@, ev[j].0@),
            plugins@.len() == idx,
            forall|i: int|
                0 <= i < idx ==> plugins@[i].name@ == ev[i].0@ && jv_obj(ev[i].1) == Some(
                    jmap_model(plugins@[i].config),
                ),
        decreases ev.len() - idx,
    {
        let entry = &entries[idx];
        let fm = match jv_as_object(&entry.1) {
            None => {
                proof {
                    assert(pm.contains_key(ev[idx as int].0@) && jv_obj(pm[ev[idx as int].0@])
                        is None);
                    assert(plugins_model_of(pm) is None);
                }
                return Err(CniError::MalformedConfig);
            },
            Some(x) => x,
        };
        let config = jmap_clone(fm);
        let pname = entry.0.clone();
        plugins.push(PluginEntry { name: pname, config });
        idx += 1;
    }
    let ghost ps = plugins@;
    proof {
        assert(plugins_sorted(ps)) by {
            assert forall|i: int, j: int| 0 <= i < j < ps.len() implies lex_lt(
                ps[i].name@,
                ps[j].name@,
            ) by {
                assert(ps[i].name@ == ev[i].0@ && ps[j].name@ == ev[j].0@);
            }
        }
        assert(plugins_model_of(pm) is Some) by {
            assert forall|k: Seq<char>| #[trigger] pm.contains_key(k) implies jv_obj(pm[k])
                is Some by {
                let i = choose|i: int| 0 <= i < ev.len() && ev[i].0@ == k;
                assert(jv_obj(ev[i].1) is Some);
            }
        }
        lemma_plugins_map_props(ps);
        assert(plugins_map(ps) =~= plugins_model_of(pm)->Some_0) by {
            assert forall|k: Seq<char>| #[trigger] plugins_map(ps).contains_key(k) implies
                pm.contains_key(k) && plugins_map(ps)[k] == jv_obj(pm[k])->Some_0 by {
                let i = choose|i: int| 0 <= i < ps.len() && ps[i].name@ == k;
                assert(ps[i].name@ == ev[i].0@);
            }
            assert forall|k: Seq<char>| #[trigger] pm.contains_key(k) implies plugins_map(
                ps,
            ).contains_key(k) by {
                let i = choose|i: int| 0 <= i < ev.len() && ev[i].0@ == k;
                assert(ps[i].name@ == k);
            }
        }
    }
    let dns = match jmap_get(m, "dns") {
        None => None,
        Some(dv) => {
            if jv_null_check(dv) {
                None
            } else {
                match dns_from_value(dv) {
                    None => {
                        proof {
                            assert(jmap_model(*m).contains_key("dns"@));
                            assert(spec_opt_dns(jmap_model(*m)) is None);
                        }
                        return Err(CniError::MalformedConfig);
                    },
                    Some(d) => Some(d),
                }
            }
        },
    };
    Ok(CniConfig { cni_version, plugin_type, name, filter, plugins, dns })
}

fn strings_to_values(v: &Vec<String>, i: usize) -> (r: Vec<serde_json::Value>)
    requires
        i <= v@.len(),
    ensures
        spec_strings_of(r@) == Some(string_views(v@.skip(i as int))),
    decreases v@.len() - i,
{
    if i == v.len() {
        let out: Vec<serde_json::Value> = Vec::new();
        proof {
            assert(out@ =~= Seq::<serde_json::Value>::empty());
            assert(string_views(v@.skip(i as int)) =~= Seq::<Seq<char>>::empty());
        }
        out
    } else {
        let x = jv_of_string(v[i].clone());
        let mut rest = strings_to_values(v, i + 1);
        let ghost prev = rest@;
        rest.insert(0, x);
        proof {
            assert(rest@.skip(1) =~= prev);
            assert(rest@[0] == x);
            assert(string_views(v@.skip(i as int)) =~= seq![v@[i as int]@] + string_views(
                v@.skip(i as int + 1),
            ));
        }
        rest
    }
}

fn inets_to_values(v: &Vec<Ipv4Inet>, i: usize) -> (r: Vec<serde_json::Value>)
    requires
        i <= v@.len(),
        forall|j: int| 0 <= j < v@.len() ==> v@[j].wf(),
    ensures
        spec_inets_of(r@) == Some(v@.skip(i as int)),
    decreases v@.len() - i,
{
    if i == v.len() {
        let out: Vec<serde_json::Value> = Vec::new();
        proof {
            assert(out@ =~= Seq::<serde_json::Value>::empty());
            assert(v@.skip(i as int) =~= Seq::<Ipv4Inet>::empty());
        }
        out
    } else {
        let x = jv_of_string(format_inet(&v[i]));
        let mut rest = inets_to_values(v, i + 1);
        let ghost prev = rest@;
        rest.insert(0, x);
        proof {
            assert(rest@.skip(1) =~= prev);
            assert(rest@[0] == x);
            assert(Ipv4Inet {
                a: v@[i as int].a,
                b: v@[i as int].b,
                c: v@[i as int].c,
                d: v@[i as int].d,
                prefix_len: v@[i as int].prefix_len,
            } == v@[i as int]);
            assert(v@.skip(i as int) =~= seq![v@[i as int]] + v@.skip(i as int + 1));
        }
        rest
    }
}

/// Turn DNS settings into the JSON value they parse back from.
pub fn dns_to_value(d: &DnsConfig) -> (r: serde_json::Value)
    requires
        d.wf(),
    ensures
        spec_dns_of_value(r) == Some(d@),
        !jv_is_null(r),
{
    proof {
        reveal_strlit("nameservers");
        reveal_strlit("domain");
        reveal_strlit("search");
        reveal_strlit("options");
        assert("nameservers"@.len() == 11 && "domain"@.len() == 6 && "search"@.len() == 6
            && "options"@.len() == 7);
        assert("domain"@[0] == 'd' && "search"@[0] == 's');
        assert(d.nameservers@.skip(0) =~= d.nameservers@);
        assert(d.search@.skip(0) =~= d.search@);
        assert(d.options@.skip(0) =~= d.options@);
    }
    let na = inets_to_values(&d.nameservers, 0);
    let sa = strings_to_values(&d.search, 0);
    let oa = strings_to_values(&d.options, 0);
    let ghost nav = na@;
    let ghost sav = sa@;
    let ghost oav = oa@;
    let mut m = jmap_new();
    jmap_insert(&mut m, String::from_str("nameservers"), jv_of_array(na));
    match &d.domain {
        Some(s) => {
            jmap_insert(&mut m, String::from_str("domain"), jv_of_string(s.clone()));
        },
        None => {
            jmap_insert(&mut m, String::from_str("domain"), jv_null());
        },
    }
    jmap_insert(&mut m, String::from_str("search"), jv_of_array(sa));
    jmap_insert(&mut m, String::from_str("options"), jv_of_array(oa));
    proof {
        let mm = jmap_model(m);
        assert(spec_arr_or_empty(mm, "nameservers"@) == Some(nav));
        assert(spec_opt_str(mm, "domain"@) == Some(d@.domain));
        assert(spec_arr_or_empty(mm, "search"@) == Some(sav));
        assert(spec_arr_or_empty(mm, "options"@) == Some(oav));
    }
    jv_of_object(m)
}

/// Turn a whole network configuration into the JSON value it parses back
/// from.
pub fn config_to_value(c: &CniConfig) -> (r: serde_json::Value)
    requires
        c.wf(),
    ensures
        spec_config_of_value(r) == Some(config_map_view(*c)),
{
    proof {
        reveal_strlit("cniVersion");
        reveal_strlit("type");
        reveal_strlit("name");
        reveal_strlit("filter");
        reveal_strlit("plugins");
        reveal_strlit("dns");
        assert("cniVersion"@.len() == 10 && "type"@.len() == 4 && "name"@.len() == 4
            && "filter"@.len() == 6 && "plugins"@.len() == 7 && "dns"@.len() == 3);
        assert("type"@[0] == 't' && "name"@[0] == 'n');
        assert(c.filter@.skip(0) =~= c.filter@);
    }
    let fa = strings_to_values(&c.filter, 0);
    let ghost fav = fa@;

    // The plugins object: one entry per plugin, in order.
    let mut pobj = jmap_new();
    let mut idx: usize = 0;
    let ghost ps = c.plugins@;
    proof {
        lemma_plugins_map_props(ps);
    }
    while idx < c.plugins.len()
        invariant
            idx <= ps.len(),
            c.plugins@ == ps,
            c.wf(),
            forall|k: Seq<char>|
                #[trigger] jmap_model(pobj).contains_key(k) ==> exists|i: int|
                    0 <= i < idx && ps[i].name@ == k,
            forall|i: int|
                0 <= i < idx ==> jmap_model(pobj).contains_key(ps[i].name@) && jv_obj(
                    jmap_model(pobj)[ps[i].name@],
                ) == Some(jmap_model(ps[i].config)),
        decreases ps.len() - idx,
    {
        let entry = &c.plugins[idx];
        let fragment = jmap_clone(&entry.config);
        let ghost before = jmap_model(pobj);
        jmap_insert(&mut pobj, entry.name.clone(), jv_of_object(fragment));
        proof {
            assert forall|i: int| 0 <= i < idx + 1 implies jmap_model(pobj).contains_key(
                ps[i].name@,
            ) && jv_obj(jmap_model(pobj)[ps[i].name@]) == Some(jmap_model(ps[i].config)) by {
                if i < idx {
                    assert(ps[i].name@ != ps[idx as int].name@) by {
                        assert(lex_lt(ps[i].name@, ps[idx as int].name@));
                        crate::text::lemma_lex_lt_irreflexive(ps[i].name@);
                    }
                }
            }
        }
        idx += 1;
    }
    proof {
        assert(plugins_model_of(jmap_model(pobj)) is Some) by {
            assert forall|k: Seq<char>| #[trigger] jmap_model(pobj).contains_key(k) implies jv_obj(
                jmap_model(pobj)[k],
            ) is Some by {
                let i = choose|i: int| 0 <= i < ps.len() && ps[i].name@ == k;
            }
        }
        assert(plugins_model_of(jmap_model(pobj))->Some_0 =~= plugins_map(ps)) by {
            assert forall|k: Seq<char>| #[trigger] jmap_model(pobj).contains_key(k) implies
                plugins_map(ps).contains_key(k) && jv_obj(jmap_model(pobj)[k])->Some_0
                == plugins_map(ps)[k] by {
                let i = choose|i: int| 0 <= i < ps.len() && ps[i].name@ == k;
            }
            assert forall|k: Seq<char>| #[trigger] plugins_map(ps).contains_key(k) implies
                jmap_model(pobj).contains_key(k) by {
                let i = choose|i: int| 0 <= i < ps.len() && ps[i].name@ == k;
            }
        }
    }
    let pv = jv_of_object(pobj);
    let ghost pvv = pv;

    let mut m = jmap_new();
    jmap_insert(&mut m, String::from_str("cniVersion"), jv_of_string(c.cni_version.clone()));
    jmap_insert(&mut m, String::from_str("type"), jv_of_string(c.plugin_type.clone()));
    jmap_insert(&mut m, String::from_str("name"), jv_of_string(c.name.clone()));
    jmap_insert(&mut m, String::from_str("filter"), jv_of_array(fa));
    jmap_insert(&mut m, String::from_str("plugins"), pv);
    match &c.dns {
        Some(d) => {
            let dv = dns_to_value(d);
            jmap_insert(&mut m, String::from_str("dns"), dv);
        },
        None => {},
    }
    proof {
        let mm = jmap_model(m);
        assert(spec_req_str(mm, "cniVersion"@) == Some(c.cni_version@));
        assert(spec_req_str(mm, "type"@) == Some(c.plugin_type@));
        assert(spec_req_str(mm, "name"@) == Some(c.name@));
        assert(spec_req_arr(mm, "filter"@) == Some(fav));
        assert(mm.contains_key("plugins"@) && mm["plugins"@] == pvv);
        assert(spec_opt_dns(mm) == Some(config_map_view(*c).dns));
    }
    jv_of_object(m)
}

/// Law: the round trip through a JSON document is the identity on
/// well-formed configurations. Turning a configuration into a value keeps
/// exactly its fields (the ensures of `config_to_value`), parsing a value
/// recovers exactly those fields (the ensures of `config_from_value`), and
/// this lemma closes the loop: two well-formed configurations that amount
/// to the same document are equal field for field, plugin entry for
/// plugin entry.
pub proof fn lemma_config_round_trip(c1: CniConfig, c2: CniConfig)
    requires
        c1.wf(),
        c2.wf(),
        config_map_view(c1) == config_map_view(c2),
    ensures
        c1@ == c2@,
{
    lemma_sorted_plugins_canonical(c1.plugins@, c2.plugins@);
    assert(c1@.plugins =~= c2@.plugins) by {
        assert forall|i: int| 0 <= i < c1@.plugins.len() implies c1@.plugins[i]
            == c2@.plugins[i] by {
            assert(c1.plugins@[i].name@ == c2.plugins@[i].name@);
            assert(jmap_model(c1.plugins@[i].config) == jmap_model(c2.plugins@[i].config));
        }
    }
}

} // verus!
