use cni_multi::cni::{CniConfig, CniError, CniRequest, CniResponse, Interface, IpResponse, IpamResponse, Route};
use cni_multi::codec::{config_from_value, config_to_value, dns_from_value, ip_from_value, response_from_value, response_to_value, route_from_value};
use cni_multi::engine::{absorb_delegate_output, build_sub_request, classify_delegate_output, merge_response, new_aggregate, parse_config, prepare_invocation, render_response, resolve_plugin_type, should_emit};
use cni_multi::net::{host_ip_text, Ipv4Cidr, Ipv4Inet};
use cni_multi::text::{str_eq, str_lt};

fn inet(a: u8, b: u8, c: u8, d: u8, prefix_len: u8) -> Ipv4Inet {
    Ipv4Inet { a, b, c, d, prefix_len }
}

fn cidr(a: u8, b: u8, c: u8, d: u8, prefix_len: u8) -> Ipv4Cidr {
    Ipv4Cidr { a, b, c, d, prefix_len }
}

fn iface(name: &str, mac: &str) -> Interface {
    Interface { name: name.to_string(), mac: mac.to_string(), sandbox: None }
}

fn ip(addr: Ipv4Inet) -> IpResponse {
    IpResponse { version: "4".to_string(), address: addr, gateway: None, interface: None }
}

fn resp(interfaces: Vec<Interface>, ips: Vec<IpResponse>, routes: Vec<Route>) -> CniResponse {
    CniResponse { cni_version: "0.4.0".to_string(), interfaces, ips, routes }
}

fn fragment(plugin_type: &str) -> serde_json::Map<String, serde_json::Value> {
    let mut m = serde_json::Map::new();
    m.insert(
        "type".to_string(),
        serde_json::Value::String(plugin_type.to_string()),
    );
    m
}

fn request(command: &str, config: CniConfig) -> CniRequest {
    CniRequest {
        command: command.to_string(),
        container_id: "c1".to_string(),
        netns: "/var/run/netns/x".to_string(),
        ifname: "eth0".to_string(),
        args: None,
        path: "/opt/cni/bin".to_string(),
        config,
    }
}

fn empty_config() -> CniConfig {
    CniConfig {
        cni_version: "0.4.0".to_string(),
        plugin_type: "multi".to_string(),
        name: "net".to_string(),
        filter: Vec::new(),
        plugins: Vec::new(),
        dns: None,
    }
}

const CONFIG_TEXT: &str = "{\"cniVersion\":\"0.4.0\",\"type\":\"multi\",\"name\":\"net\",\"filter\":[\"mgmt0\"],\"plugins\":{\"b\":{\"type\":\"bridge\"},\"a\":{\"type\":\"ipam\",\"mtu\":1500}},\"dns\":{\"nameservers\":[\"8.8.8.8/32\"],\"domain\":\"example.org\",\"search\":[\"example.org\"],\"options\":[]}}";

#[test]
fn filter_excludes_only_filtered_addresses() {
    let filter = vec!["mgmt0".to_string()];
    let a = resp(
        vec![iface("eth0", "aa:bb:cc:dd:ee:01")],
        vec![ip(inet(10, 0, 0, 2, 24))],
        vec![Route { dst: cidr(0, 0, 0, 0, 0), gw: Some(inet(10, 0, 0, 1, 32)) }],
    );
    let b = resp(
        vec![iface("mgmt0", "aa:bb:cc:dd:ee:02")],
        vec![ip(inet(192, 168, 1, 5, 24))],
        vec![Route { dst: cidr(192, 168, 0, 0, 16), gw: None }],
    );
    let mut agg = new_aggregate();
    merge_response(&mut agg, "eth0", a, &filter);
    merge_response(&mut agg, "mgmt0", b, &filter);
    assert_eq!(agg.interfaces.len(), 2);
    assert_eq!(agg.interfaces[0].name, "eth0");
    assert_eq!(agg.interfaces[1].name, "mgmt0");
    assert_eq!(agg.ips, vec![ip(inet(10, 0, 0, 2, 24))]);
    assert_eq!(agg.routes.len(), 2);
}

#[test]
fn plugin_order_is_lexicographic() {
    let config = parse_config(CONFIG_TEXT).unwrap();
    assert_eq!(config.plugins.len(), 2);
    assert_eq!(config.plugins[0].name, "a");
    assert_eq!(config.plugins[1].name, "b");
}

#[test]
fn plugin_order_ignores_document_order() {
    let reordered = "{\"cniVersion\":\"0.4.0\",\"type\":\"multi\",\"name\":\"net\",\"filter\":[\"mgmt0\"],\"plugins\":{\"a\":{\"type\":\"ipam\",\"mtu\":1500},\"b\":{\"type\":\"bridge\"}},\"dns\":{\"nameservers\":[\"8.8.8.8/32\"],\"domain\":\"example.org\",\"search\":[\"example.org\"],\"options\":[]}}";
    let c1 = parse_config(CONFIG_TEXT).unwrap();
    let c2 = parse_config(reordered).unwrap();
    assert_eq!(c1.plugins.len(), c2.plugins.len());
    for (p1, p2) in c1.plugins.iter().zip(c2.plugins.iter()) {
        assert_eq!(p1.name, p2.name);
        assert_eq!(p1.config, p2.config);
    }
}

#[test]
fn teardown_produces_no_output() {
    let r = classify_delegate_output("DEL", "eth0", false, "anything at all");
    assert!(matches!(r, Ok(None)));
    let r = classify_delegate_output("DEL", "eth0", true, "{\"ok\":true}");
    assert!(matches!(r, Ok(None)));
    let agg = new_aggregate();
    let out = render_response("DEL", &agg).unwrap();
    assert!(out.is_none());
    assert!(!should_emit("DEL"));
}

#[test]
fn failing_delegate_aborts_request() {
    let r = classify_delegate_output("ADD", "eth0", false, "bridge: no such device");
    match r {
        Err(CniError::DelegateFailed { plugin, output }) => {
            assert_eq!(plugin, "eth0");
            assert_eq!(output, "bridge: no such device");
        },
        other => panic!("expected a delegate failure, got {:?}", other),
    }
    assert!(should_emit("ADD"));
}

#[test]
fn missing_type_field_is_unresolved() {
    let empty = serde_json::Map::new();
    let r = resolve_plugin_type("eth0", &empty);
    assert!(matches!(r, Err(CniError::UnresolvedPluginType { .. })));

    let mut numeric = serde_json::Map::new();
    numeric.insert(
        "type".to_string(),
        serde_json::Value::Number(serde_json::Number::from(7u64)),
    );
    let r = resolve_plugin_type("eth0", &numeric);
    assert!(matches!(r, Err(CniError::UnresolvedPluginType { .. })));

    let req = request("ADD", empty_config());
    let r = prepare_invocation("eth0", &empty, &req);
    match r {
        Err(CniError::UnresolvedPluginType { plugin }) => assert_eq!(plugin, "eth0"),
        other => panic!("expected an unresolved plugin type, got {:?}", other),
    }
}

#[test]
fn config_round_trip_is_identity() {
    let c1 = parse_config(CONFIG_TEXT).unwrap();
    let v = config_to_value(&c1);
    let text = serde_json::to_string(&v).unwrap();
    let v2: serde_json::Value = serde_json::from_str(&text).unwrap();
    let c2 = config_from_value(&v2).unwrap();
    assert_eq!(c2.cni_version, c1.cni_version);
    assert_eq!(c2.plugin_type, c1.plugin_type);
    assert_eq!(c2.name, c1.name);
    assert_eq!(c2.filter, c1.filter);
    assert_eq!(c2.plugins.len(), c1.plugins.len());
    for (p1, p2) in c1.plugins.iter().zip(c2.plugins.iter()) {
        assert_eq!(p1.name, p2.name);
        assert_eq!(p1.config, p2.config);
    }
    let d1 = c1.dns.as_ref().unwrap();
    let d2 = c2.dns.as_ref().unwrap();
    assert_eq!(d1.nameservers, d2.nameservers);
    assert_eq!(d1.domain, d2.domain);
    assert_eq!(d1.search, d2.search);
    assert_eq!(d1.options, d2.options);
}

#[test]
fn empty_aggregate_is_still_emitted() {
    let agg = new_aggregate();
    let out = render_response("ADD", &agg).unwrap().unwrap();
    assert_eq!(
        out,
        "{\"cniVersion\":\"0.4.0\",\"interfaces\":[],\"ips\":[],\"routes\":[]}"
    );
}

#[test]
fn sub_request_carries_name_and_version() {
    let mut frag = fragment("bridge");
    frag.insert(
        "mtu".to_string(),
        serde_json::Value::Number(serde_json::Number::from(1500u64)),
    );
    let sub = build_sub_request(&frag, "net", "0.4.0");
    assert_eq!(sub.get("name").unwrap().as_str(), Some("net"));
    assert_eq!(sub.get("cniVersion").unwrap().as_str(), Some("0.4.0"));
    assert_eq!(sub.get("type").unwrap().as_str(), Some("bridge"));
    assert_eq!(sub.get("mtu").unwrap().as_u64(), Some(1500));
}

#[test]
fn invocation_resolves_executable_under_search_path() {
    let frag = fragment("bridge");
    let req = request("ADD", empty_config());
    let inv = prepare_invocation("eth0", &frag, &req).unwrap();
    assert_eq!(inv.plugin_name, "eth0");
    assert_eq!(inv.exec_path, "/opt/cni/bin/bridge");
    let sent: serde_json::Value = serde_json::from_str(&inv.payload).unwrap();
    assert_eq!(sent["type"].as_str(), Some("bridge"));
    assert_eq!(sent["name"].as_str(), Some("net"));
    assert_eq!(sent["cniVersion"].as_str(), Some("0.4.0"));
}

#[test]
fn successful_delegate_output_parses() {
    let text = "{\"cniVersion\":\"0.4.0\",\"interfaces\":[{\"name\":\"eth0\",\"mac\":\"aa:bb:cc:dd:ee:01\"}],\"ips\":[{\"version\":\"4\",\"address\":\"10.0.0.2/24\",\"gateway\":\"10.0.0.1\"}],\"routes\":[{\"dst\":\"0.0.0.0/0\",\"gw\":\"10.0.0.1\"}]}";
    let r = classify_delegate_output("ADD", "eth0", true, text).unwrap().unwrap();
    assert_eq!(r.cni_version, "0.4.0");
    assert_eq!(r.interfaces, vec![iface("eth0", "aa:bb:cc:dd:ee:01")]);
    assert_eq!(r.ips.len(), 1);
    assert_eq!(r.ips[0].address, inet(10, 0, 0, 2, 24));
    assert_eq!(r.ips[0].gateway, Some(inet(10, 0, 0, 1, 32)));
    assert_eq!(r.routes, vec![Route { dst: cidr(0, 0, 0, 0, 0), gw: Some(inet(10, 0, 0, 1, 32)) }]);

    let r = classify_delegate_output("ADD", "eth0", true, "not json at all");
    match r {
        Err(CniError::MalformedDelegateResponse { plugin }) => assert_eq!(plugin, "eth0"),
        other => panic!("expected a malformed response error, got {:?}", other),
    }
}

#[test]
fn response_round_trip_is_identity() {
    let original = resp(
        vec![Interface {
            name: "eth0".to_string(),
            mac: "aa:bb:cc:dd:ee:01".to_string(),
            sandbox: Some("/var/run/netns/x".to_string()),
        }],
        vec![IpResponse {
            version: "4".to_string(),
            address: inet(10, 0, 0, 2, 24),
            gateway: Some(inet(10, 0, 0, 1, 32)),
            interface: Some(0),
        }],
        vec![Route { dst: cidr(10, 1, 0, 0, 16), gw: None }],
    );
    let v = response_to_value(&original).unwrap();
    let back = response_from_value(&v).unwrap();
    assert_eq!(back, original);
}

fn ip_value(address: &str) -> serde_json::Value {
    let mut m = serde_json::Map::new();
    m.insert("version".to_string(), serde_json::Value::String("4".to_string()));
    m.insert("address".to_string(), serde_json::Value::String(address.to_string()));
    serde_json::Value::Object(m)
}

fn route_value(dst: &str) -> serde_json::Value {
    let mut m = serde_json::Map::new();
    m.insert("dst".to_string(), serde_json::Value::String(dst.to_string()));
    serde_json::Value::Object(m)
}

#[test]
fn address_text_forms() {
    assert_eq!(ip_from_value(&ip_value("10.0.0.2/24")).unwrap().address, inet(10, 0, 0, 2, 24));
    assert_eq!(ip_from_value(&ip_value("10.0.0.2")).unwrap().address, inet(10, 0, 0, 2, 32));
    assert!(ip_from_value(&ip_value("300.0.0.1/24")).is_none());
    assert!(ip_from_value(&ip_value("10.0.0.2/33")).is_none());
    assert_eq!(route_from_value(&route_value("10.1.0.0/16")).unwrap().dst, cidr(10, 1, 0, 0, 16));
    assert!(route_from_value(&route_value("10.1.0.1/16")).is_none());
}

#[test]
fn host_address_gets_fixed_suffix() {
    assert_eq!(host_ip_text(&cidr(10, 0, 0, 1, 32)), Some("10.0.0.1/22".to_string()));
    assert_eq!(host_ip_text(&cidr(10, 1, 0, 0, 16)), Some("10.1.0.0/16".to_string()));
}

#[test]
fn ipam_response_uses_fixed_version() {
    let r = IpamResponse::new(vec![ip(inet(10, 0, 0, 2, 24))], Vec::new(), None);
    assert_eq!(r.cni_version, "v0.4.0");
    assert_eq!(r.ips.len(), 1);
    assert!(r.routes.is_empty());
    assert!(r.dns.is_none());
}

#[test]
fn oversized_interface_index_is_rejected() {
    let big: serde_json::Value = serde_json::from_str(
        "{\"version\":\"4\",\"address\":\"10.0.0.2/24\",\"interface\":4294967296}",
    )
    .unwrap();
    assert!(ip_from_value(&big).is_none());
    let fine: serde_json::Value = serde_json::from_str(
        "{\"version\":\"4\",\"address\":\"10.0.0.2/24\",\"interface\":3}",
    )
    .unwrap();
    assert_eq!(ip_from_value(&fine).unwrap().interface, Some(3));
}

#[test]
fn dns_defaults_and_null_domain() {
    let v: serde_json::Value =
        serde_json::from_str("{\"nameservers\":[\"8.8.8.8/32\"],\"domain\":null}").unwrap();
    let d = dns_from_value(&v).unwrap();
    assert_eq!(d.nameservers, vec![inet(8, 8, 8, 8, 32)]);
    assert!(d.domain.is_none());
    assert!(d.search.is_empty());
    assert!(d.options.is_empty());
    let bad: serde_json::Value =
        serde_json::from_str("{\"nameservers\":[\"not-an-address\"]}").unwrap();
    assert!(dns_from_value(&bad).is_none());
}

#[test]
fn malformed_configuration_is_rejected() {
    assert!(matches!(parse_config("not json"), Err(CniError::MalformedConfig)));
    assert!(matches!(parse_config("{}"), Err(CniError::MalformedConfig)));
    let missing_filter = "{\"cniVersion\":\"0.4.0\",\"type\":\"multi\",\"name\":\"net\",\"plugins\":{}}";
    assert!(matches!(parse_config(missing_filter), Err(CniError::MalformedConfig)));
    let plugin_not_object = "{\"cniVersion\":\"0.4.0\",\"type\":\"multi\",\"name\":\"net\",\"filter\":[],\"plugins\":{\"a\":7}}";
    assert!(matches!(parse_config(plugin_not_object), Err(CniError::MalformedConfig)));
}

#[test]
fn absorb_merges_or_aborts() {
    let filter = vec!["mgmt0".to_string()];
    let mut agg = new_aggregate();
    let good = "{\"cniVersion\":\"0.4.0\",\"interfaces\":[{\"name\":\"eth0\",\"mac\":\"aa:bb:cc:dd:ee:01\"}],\"ips\":[{\"version\":\"4\",\"address\":\"10.0.0.2/24\"}],\"routes\":[]}";
    absorb_delegate_output(&mut agg, "ADD", "eth0", &filter, true, good).unwrap();
    assert_eq!(agg.interfaces.len(), 1);
    assert_eq!(agg.ips.len(), 1);

    // The same response from a filtered plugin keeps its interface but
    // drops its address.
    absorb_delegate_output(&mut agg, "ADD", "mgmt0", &filter, true, good).unwrap();
    assert_eq!(agg.interfaces.len(), 2);
    assert_eq!(agg.ips.len(), 1);

    // A failing delegate aborts and leaves the aggregate unchanged.
    let r = absorb_delegate_output(&mut agg, "ADD", "eth1", &filter, false, "boom");
    assert!(matches!(r, Err(CniError::DelegateFailed { .. })));
    assert_eq!(agg.interfaces.len(), 2);

    // During teardown everything is ignored.
    absorb_delegate_output(&mut agg, "DEL", "eth1", &filter, false, "boom").unwrap();
    assert_eq!(agg.interfaces.len(), 2);
    assert_eq!(agg.ips.len(), 1);
}

#[test]
fn string_order_and_equality() {
    assert!(str_lt("a", "b"));
    assert!(!str_lt("b", "a"));
    assert!(!str_lt("a", "a"));
    assert!(str_lt("a", "ab"));
    assert!(str_eq("plugin", "plugin"));
    assert!(!str_eq("plugin", "plugins"));
}
