//! The delegation engine: building one sub-request per configured plugin,
//! classifying what came back from the delegate process, folding results
//! into the aggregate under the filter rule, and deciding whether the
//! aggregate is emitted at all. Spawning the delegate itself is a side
//! effect the caller performs between `prepare_invocation` and
//! `classify_delegate_output`.
use vstd::prelude::*;
use vstd::string::StringExecFns;

use crate::cni::{
    string_views, CniConfig, CniError, CniRequest, CniResponse, CniResponseV, InterfaceV,
    IpResponseV, Route,
};
use crate::codec::{
    config_from_value, config_map_view, ips_ok, response_from_value, response_to_value,
    routes_ok, spec_config_of_value, spec_response_of_value, ConfigMapV,
};
use crate::json::{
    jmap_get, jmap_model, jmap_clone, jmap_insert, jv_as_str, jv_of_string, jv_str, json_text,
    map_json_text, map_to_text, text_to_value, value_of_text, value_to_text,
};
use crate::text::{seq_has_string, str_eq, vec_has_str};

verus! {

/// Whether a command is the teardown command.
pub open spec fn is_teardown(command: Seq<char>) -> bool {
    command == "DEL"@
}

/// The plugin type a configuration fragment names, if it carries a string
/// `type` field.
pub open spec fn fragment_type(frag: Map<Seq<char>, serde_json::Value>) -> Option<Seq<char>> {
    if frag.contains_key("type"@) {
        jv_str(frag["type"@])
    } else {
        None
    }
}

/// Resolve the `type` field of a plugin's configuration fragment, the name
/// of the delegate executable. A fragment without a string `type` field
/// fails with the unresolved-plugin-type error before anything is run.
pub fn resolve_plugin_type(
    plugin_name: &str,
    fragment: &serde_json::Map<String, serde_json::Value>,
) -> (r: Result<String, CniError>)
    ensures
        match r {
            Ok(t) => fragment_type(jmap_model(*fragment)) == Some(t@),
            Err(e) => fragment_type(jmap_model(*fragment)) is None && (e matches
                CniError::UnresolvedPluginType { plugin } && plugin@ == plugin_name@),
        },
{
    match jmap_get(fragment, "type") {
        None => Err(CniError::UnresolvedPluginType { plugin: String::from_str(plugin_name) }),
        Some(v) => match jv_as_str(v) {
            None => Err(
                CniError::UnresolvedPluginType { plugin: String::from_str(plugin_name) },
            ),
            Some(t) => Ok(String::from_str(t)),
        },
    }
}

/// How a delegate's sub-request relates to the plugin's own fragment: the
/// fragment's entries, with the network name and the protocol version laid
/// over them.
pub open spec fn sub_request_ok(
    frag: Map<Seq<char>, serde_json::Value>,
    sub: Map<Seq<char>, serde_json::Value>,
    name: Seq<char>,
    version: Seq<char>,
) -> bool {
    &&& sub.contains_key("name"@) && jv_str(sub["name"@]) == Some(name)
    &&& sub.contains_key("cniVersion"@) && jv_str(sub["cniVersion"@]) == Some(version)
    &&& forall|k: Seq<char>|
        #[trigger] sub.contains_key(k) ==> frag.contains_key(k) || k == "name"@ || k
            == "cniVersion"@
    &&& forall|k: Seq<char>|
        #[trigger] frag.contains_key(k) ==> sub.contains_key(k) && (k != "name"@ && k
            != "cniVersion"@ ==> sub[k] == frag[k])
}

/// Build the sub-request for one delegate: the plugin's fragment with the
/// shared network name and protocol version written in.
pub fn build_sub_request(
    fragment: &serde_json::Map<String, serde_json::Value>,
    name: &str,
    version: &str,
) -> (r: serde_json::Map<String, serde_json::Value>)
    ensures
        sub_request_ok(jmap_model(*fragment), jmap_model(r), name@, version@),
{
    let mut sub = jmap_clone(fragment);
    jmap_insert(&mut sub, String::from_str("name"), jv_of_string(String::from_str(name)));
    jmap_insert(
        &mut sub,
        String::from_str("cniVersion"),
        jv_of_string(String::from_str(version)),
    );
    proof {
        reveal_strlit("name");
        reveal_strlit("cniVersion");
        assert("name"@.len() == 4 && "cniVersion"@.len() == 10);
    }
    sub
}

/// Everything the caller needs to run one delegate: which plugin it is,
/// the executable to spawn, the sub-request object and its serialized
/// form to write to the child.
#[derive(Debug)]
pub struct Invocation {
    pub plugin_name: String,
    pub exec_path: String,
    pub sub_request: serde_json::Map<String, serde_json::Value>,
    pub payload: String,
}

/// Prepare one delegate invocation: resolve the executable under the
/// request's search path and serialize the sub-request. A fragment with a
/// string `type` field always yields an invocation; one without never
/// does, and no process is spawned for it.
pub fn prepare_invocation(
    plugin_name: &str,
    fragment: &serde_json::Map<String, serde_json::Value>,
    req: &CniRequest,
) -> (r: Result<Invocation, CniError>)
    ensures
        fragment_type(jmap_model(*fragment)) is Some ==> r is Ok,
        match r {
            Ok(inv) => {
                &&& inv.plugin_name@ == plugin_name@
                &&& fragment_type(jmap_model(*fragment)) matches Some(t) && inv.exec_path@
                    == req.path@ + "/"@ + t
                &&& sub_request_ok(
                    jmap_model(*fragment),
                    jmap_model(inv.sub_request),
                    req.config.name@,
                    req.config.cni_version@,
                )
                &&& inv.payload@ == map_json_text(inv.sub_request)
            },
            Err(e) => fragment_type(jmap_model(*fragment)) is None && (e matches
                CniError::UnresolvedPluginType { plugin } && plugin@ == plugin_name@),
        },
{
    let plugin_type = match resolve_plugin_type(plugin_name, fragment) {
        Ok(t) => t,
        Err(e) => { return Err(e); },
    };
    let mut exec_path = String::from_str(req.path.as_str());
    exec_path.append("/");
    exec_path.append(plugin_type.as_str());
    let sub_request = build_sub_request(
        fragment,
        req.config.name.as_str(),
        req.config.cni_version.as_str(),
    );
    let payload = map_to_text(&sub_request);
    Ok(Invocation { plugin_name: String::from_str(plugin_name), exec_path, sub_request, payload })
}

/// The delegate response a piece of output text describes, if it is a
/// JSON document of the response shape.
pub open spec fn spec_response_of_text(s: Seq<char>) -> Option<CniResponseV> {
    match value_of_text(s) {
        None => None,
        Some(v) => spec_response_of_value(v),
    }
}

/// Classify what came back from one delegate. For the teardown command
/// nothing is inspected: the call contributes no response, whatever the
/// delegate did. Otherwise a non-zero exit fails the whole request with
/// the delegate's output as diagnostic, and output that does not parse as
/// a response fails it too.
pub fn classify_delegate_output(
    command: &str,
    plugin_name: &str,
    exit_ok: bool,
    output: &str,
) -> (r: Result<Option<CniResponse>, CniError>)
    ensures
        is_teardown(command@) <==> (r matches Ok(o) && o is None),
        match r {
            Ok(o) => match o {
                None => is_teardown(command@),
                Some(resp) => !is_teardown(command@) && exit_ok && spec_response_of_text(output@)
                    == Some(resp@),
            },
            Err(e) => !is_teardown(command@) && match e {
                CniError::DelegateFailed { plugin, output: echoed } => !exit_ok && plugin@
                    == plugin_name@ && echoed@ == output@,
                CniError::MalformedDelegateResponse { plugin } => exit_ok && plugin@
                    == plugin_name@ && spec_response_of_text(output@) is None,
                _ => false,
            },
        },
{
    if str_eq(command, "DEL") {
        return Ok(None);
    }
    if !exit_ok {
        return Err(
            CniError::DelegateFailed {
                plugin: String::from_str(plugin_name),
                output: String::from_str(output),
            },
        );
    }
    let value = match text_to_value(output) {
        Ok(v) => v,
        Err(_) => {
            return Err(
                CniError::MalformedDelegateResponse { plugin: String::from_str(plugin_name) },
            );
        },
    };
    match response_from_value(&value) {
        Some(resp) => Ok(Some(resp)),
        None => Err(
            CniError::MalformedDelegateResponse { plugin: String::from_str(plugin_name) },
        ),
    }
}

/// The empty aggregate a request starts from, already carrying the fixed
/// protocol version of the final response.
pub fn new_aggregate() -> (r: CniResponse)
    ensures
        r.cni_version@ == "0.4.0"@,
        r.interfaces@.len() == 0,
        r.ips@.len() == 0,
        r.routes@.len() == 0,
{
    CniResponse {
        cni_version: String::from_str("0.4.0"),
        interfaces: Vec::new(),
        ips: Vec::new(),
        routes: Vec::new(),
    }
}

/// Fold one delegate's response into the aggregate: interfaces and routes
/// are always appended; addresses are appended only when the plugin is not
/// named in the filter list.
pub fn merge_response(
    agg: &mut CniResponse,
    plugin_name: &str,
    resp: CniResponse,
    filter: &Vec<String>,
)
    ensures
        final(agg).cni_version == old(agg).cni_version,
        final(agg).interfaces@ == old(agg).interfaces@ + resp.interfaces@,
        seq_has_string(filter@, plugin_name@) ==> final(agg).ips@ == old(agg).ips@,
        !seq_has_string(filter@, plugin_name@) ==> final(agg).ips@ == old(agg).ips@ + resp.ips@,
        final(agg).routes@ == old(agg).routes@ + resp.routes@,
{
    let mut resp = resp;
    agg.interfaces.append(&mut resp.interfaces);
    if !vec_has_str(filter, plugin_name) {
        agg.ips.append(&mut resp.ips);
    }
    agg.routes.append(&mut resp.routes);
}

/// Whether the aggregate is emitted for this command: every command but
/// teardown answers with a response body.
pub fn should_emit(command: &str) -> (r: bool)
    ensures
        r == !is_teardown(command@),
{
    !str_eq(command, "DEL")
}

/// Turn the finished aggregate into the single line of output, or nothing
/// for the teardown command. An aggregate whose addresses and networks are
/// all printable is always emitted, as the printed form of a JSON value
/// that parses back to exactly this aggregate.
pub fn render_response(command: &str, agg: &CniResponse) -> (r: Result<Option<String>, CniError>)
    ensures
        !is_teardown(command@) && ips_ok(agg@.ips) && routes_ok(agg@.routes) ==> r is Ok,
        match r {
            Ok(o) => match o {
                None => is_teardown(command@),
                Some(s) => !is_teardown(command@) && exists|v: serde_json::Value|
                    spec_response_of_value(v) == Some(agg@) && s@ == json_text(v),
            },
            Err(e) => !is_teardown(command@) && !(ips_ok(agg@.ips) && routes_ok(agg@.routes))
                && e is MalformedConfig,
        },
        is_teardown(command@) <==> (r matches Ok(o) && o is None),
{
    if !should_emit(command) {
        return Ok(None);
    }
    let value = match response_to_value(agg) {
        Some(v) => v,
        None => { return Err(CniError::MalformedConfig); },
    };
    let s = value_to_text(&value);
    proof {
        assert(spec_response_of_value(value) == Some(agg@) && s@ == json_text(value));
    }
    Ok(Some(s))
}

/// The configuration a piece of input text describes, if it is a JSON
/// document of the configuration shape.
pub open spec fn spec_config_of_text(s: Seq<char>) -> Option<ConfigMapV> {
    match value_of_text(s) {
        None => None,
        Some(v) => spec_config_of_value(v),
    }
}

/// Parse the request body: the input text must be one JSON document of
/// the configuration shape, anything else is the malformed-configuration
/// error.
pub fn parse_config(text: &str) -> (r: Result<CniConfig, CniError>)
    ensures
        match r {
            Ok(c) => c.wf() && spec_config_of_text(text@) == Some(config_map_view(c)),
            Err(e) => spec_config_of_text(text@) is None && e is MalformedConfig,
        },
{
    let value = match text_to_value(text) {
        Ok(v) => v,
        Err(_) => { return Err(CniError::MalformedConfig); },
    };
    config_from_value(&value)
}

/// How an aggregate changes when one response is folded in: interfaces
/// and routes are concatenated, addresses only when the plugin is not
/// filtered, and the version is untouched.
pub open spec fn merged(
    before: CniResponseV,
    after: CniResponseV,
    resp: CniResponseV,
    filtered: bool,
) -> bool {
    &&& after.cni_version == before.cni_version
    &&& after.interfaces == before.interfaces + resp.interfaces
    &&& after.ips == if filtered {
        before.ips
    } else {
        before.ips + resp.ips
    }
    &&& after.routes == before.routes + resp.routes
}

/// Take one delegate's outcome: classify it, and fold the response it
/// contributed, if any, into the aggregate. For the teardown command the
/// aggregate never changes; a failing or babbling delegate leaves it
/// unchanged and aborts the request.
pub fn absorb_delegate_output(
    agg: &mut CniResponse,
    command: &str,
    plugin_name: &str,
    filter: &Vec<String>,
    exit_ok: bool,
    output: &str,
) -> (r: Result<(), CniError>)
    ensures
        match r {
            Ok(u) => spec_absorb(
                old(agg)@,
                command@,
                plugin_name@,
                string_views(filter@),
                exit_ok,
                output@,
            ) == Some(final(agg)@),
            Err(e) => spec_absorb(
                old(agg)@,
                command@,
                plugin_name@,
                string_views(filter@),
                exit_ok,
                output@,
            ) is None,
        },
        match r {
            Ok(u) => if is_teardown(command@) {
                *final(agg) == *old(agg)
            } else {
                exit_ok && (spec_response_of_text(output@) matches Some(rv) && merged(
                    old(agg)@,
                    final(agg)@,
                    rv,
                    seq_has_string(filter@, plugin_name@),
                ))
            },
            Err(e) => *final(agg) == *old(agg) && !is_teardown(command@) && match e {
                CniError::DelegateFailed { plugin, output: echoed } => !exit_ok && plugin@
                    == plugin_name@ && echoed@ == output@,
                CniError::MalformedDelegateResponse { plugin } => exit_ok && plugin@
                    == plugin_name@ && spec_response_of_text(output@) is None,
                _ => false,
            },
        },
{
    proof {
        lemma_string_views_membership(filter@, plugin_name@);
    }
    match classify_delegate_output(command, plugin_name, exit_ok, output) {
        Ok(None) => Ok(()),
        Ok(Some(resp)) => {
            let ghost rv = resp@;
            let ghost before = agg@;
            merge_response(agg, plugin_name, resp, filter);
            proof {
                assert(agg@.interfaces =~= before.interfaces + rv.interfaces);
                assert(agg@.routes =~= before.routes + rv.routes);
                if !seq_has_string(filter@, plugin_name@) {
                    assert(agg@.ips =~= before.ips + rv.ips);
                } else {
                    assert(agg@.ips =~= before.ips);
                }
            }
            Ok(())
        },
        Err(e) => Err(e),
    }
}

/// A string is among the views of a string vector exactly when some
/// element of the vector reads as it.
proof fn lemma_string_views_membership(v: Seq<String>, s: Seq<char>)
    ensures
        seq_has_string(v, s) == string_views(v).contains(s),
{
    if seq_has_string(v, s) {
        let j = choose|j: int| 0 <= j < v.len() && v[j]@ == s;
        assert(string_views(v)[j] == s);
    }
    if string_views(v).contains(s) {
        let j = choose|j: int| 0 <= j < string_views(v).len() && string_views(v)[j] == s;
        assert(v[j]@ == s);
    }
}

/// One step of a run, over views: what one delegate's outcome does to the
/// aggregate. Nothing during teardown; abort on a non-zero exit or output
/// that is no response; otherwise the merge under the filter rule.
pub open spec fn spec_absorb(
    agg: CniResponseV,
    command: Seq<char>,
    plugin: Seq<char>,
    filter: Seq<Seq<char>>,
    exit_ok: bool,
    output: Seq<char>,
) -> Option<CniResponseV> {
    if is_teardown(command) {
        Some(agg)
    } else if !exit_ok {
        None
    } else {
        match spec_response_of_text(output) {
            None => None,
            Some(rv) => Some(
                CniResponseV {
                    cni_version: agg.cni_version,
                    interfaces: agg.interfaces + rv.interfaces,
                    ips: if filter.contains(plugin) {
                        agg.ips
                    } else {
                        agg.ips + rv.ips
                    },
                    routes: agg.routes + rv.routes,
                },
            ),
        }
    }
}

/// A whole run, over views: the delegates' outcomes folded into the
/// aggregate one plugin at a time, in order, stopping at the first abort.
pub open spec fn spec_run(
    agg: CniResponseV,
    command: Seq<char>,
    plugins: Seq<Seq<char>>,
    filter: Seq<Seq<char>>,
    outcomes: Seq<(bool, Seq<char>)>,
) -> Option<CniResponseV>
    decreases plugins.len(),
{
    if plugins.len() == 0 || outcomes.len() == 0 {
        Some(agg)
    } else {
        match spec_absorb(agg, command, plugins[0], filter, outcomes[0].0, outcomes[0].1) {
            None => None,
            Some(next) => spec_run(next, command, plugins.skip(1), filter, outcomes.skip(1)),
        }
    }
}

/// All the interfaces a sequence of responses contributes, in order.
pub open spec fn all_interfaces(rs: Seq<CniResponseV>) -> Seq<InterfaceV>
    decreases rs.len(),
{
    if rs.len() == 0 {
        Seq::empty()
    } else {
        rs[0].interfaces + all_interfaces(rs.skip(1))
    }
}

/// All the routes a sequence of responses contributes, in order.
pub open spec fn all_routes(rs: Seq<CniResponseV>) -> Seq<Route>
    decreases rs.len(),
{
    if rs.len() == 0 {
        Seq::empty()
    } else {
        rs[0].routes + all_routes(rs.skip(1))
    }
}

/// The addresses a sequence of responses contributes, in order, with the
/// addresses of plugins named in the filter left out.
pub open spec fn unfiltered_ips(
    rs: Seq<CniResponseV>,
    names: Seq<Seq<char>>,
    filter: Seq<Seq<char>>,
) -> Seq<IpResponseV>
    decreases rs.len(),
{
    if rs.len() == 0 || names.len() == 0 {
        Seq::empty()
    } else {
        (if filter.contains(names[0]) {
            Seq::empty()
        } else {
            rs[0].ips
        }) + unfiltered_ips(rs.skip(1), names.skip(1), filter)
    }
}

/// Law: during teardown a whole run leaves the aggregate exactly as it
/// was, whatever the delegates did — no outcome is ever folded in.
pub proof fn lemma_teardown_run_unchanged(
    agg: CniResponseV,
    command: Seq<char>,
    plugins: Seq<Seq<char>>,
    filter: Seq<Seq<char>>,
    outcomes: Seq<(bool, Seq<char>)>,
)
    requires
        is_teardown(command),
    ensures
        spec_run(agg, command, plugins, filter, outcomes) == Some(agg),
    decreases plugins.len(),
{
    if plugins.len() > 0 && outcomes.len() > 0 {
        lemma_teardown_run_unchanged(agg, command, plugins.skip(1), filter, outcomes.skip(1));
    }
}

/// Law: if any delegate of a non-teardown run exits non-zero, the run
/// yields no aggregate at all — nothing is ever emitted.
pub proof fn lemma_failing_delegate_never_emitted(
    agg: CniResponseV,
    command: Seq<char>,
    plugins: Seq<Seq<char>>,
    filter: Seq<Seq<char>>,
    outcomes: Seq<(bool, Seq<char>)>,
    k: int,
)
    requires
        !is_teardown(command),
        plugins.len() == outcomes.len(),
        0 <= k < outcomes.len(),
        !outcomes[k].0,
    ensures
        spec_run(agg, command, plugins, filter, outcomes) is None,
    decreases plugins.len(),
{
    if k > 0 {
        let step = spec_absorb(agg, command, plugins[0], filter, outcomes[0].0, outcomes[0].1);
        if step is Some {
            assert(outcomes.skip(1)[k - 1] == outcomes[k]);
            lemma_failing_delegate_never_emitted(
                step->Some_0,
                command,
                plugins.skip(1),
                filter,
                outcomes.skip(1),
                k - 1,
            );
        }
    }
}

/// Law: a non-teardown run in which every delegate exits zero and answers
/// with a response yields the aggregate whose interfaces and routes are
/// the concatenation of every delegate's, in plugin order, and whose
/// addresses are the concatenation over the plugins not named in the
/// filter — filtered plugins keep their interfaces and routes, only their
/// addresses are left out. The version string is never touched.
pub proof fn lemma_run_concatenates(
    agg: CniResponseV,
    command: Seq<char>,
    plugins: Seq<Seq<char>>,
    filter: Seq<Seq<char>>,
    outcomes: Seq<(bool, Seq<char>)>,
    responses: Seq<CniResponseV>,
)
    requires
        !is_teardown(command),
        plugins.len() == outcomes.len(),
        responses.len() == outcomes.len(),
        forall|k: int|
            0 <= k < outcomes.len() ==> (#[trigger] outcomes[k]).0 && spec_response_of_text(
                outcomes[k].1,
            ) == Some(responses[k]),
    ensures
        spec_run(agg, command, plugins, filter, outcomes) matches Some(fin)
            && fin.cni_version == agg.cni_version && fin.interfaces == agg.interfaces
            + all_interfaces(responses) && fin.ips == agg.ips + unfiltered_ips(
            responses,
            plugins,
            filter,
        ) && fin.routes == agg.routes + all_routes(responses),
    decreases plugins.len(),
{
    if plugins.len() == 0 {
        assert(agg.interfaces + all_interfaces(responses) =~= agg.interfaces);
        assert(agg.ips + unfiltered_ips(responses, plugins, filter) =~= agg.ips);
        assert(agg.routes + all_routes(responses) =~= agg.routes);
    } else {
        assert(outcomes[0].0 && spec_response_of_text(outcomes[0].1) == Some(responses[0]));
        let next = spec_absorb(
            agg,
            command,
            plugins[0],
            filter,
            outcomes[0].0,
            outcomes[0].1,
        )->Some_0;
        assert forall|k: int|
            0 <= k < outcomes.skip(1).len() implies (#[trigger] outcomes.skip(1)[k]).0
            && spec_response_of_text(outcomes.skip(1)[k].1) == Some(responses.skip(1)[k]) by {
            assert(outcomes.skip(1)[k] == outcomes[k + 1]);
            assert(responses.skip(1)[k] == responses[k + 1]);
        }
        lemma_run_concatenates(
            next,
            command,
            plugins.skip(1),
            filter,
            outcomes.skip(1),
            responses.skip(1),
        );
        let fin = spec_run(agg, command, plugins, filter, outcomes)->Some_0;
        assert(fin.interfaces =~= agg.interfaces + all_interfaces(responses)) by {
            assert(fin.interfaces == (agg.interfaces + responses[0].interfaces)
                + all_interfaces(responses.skip(1)));
        }
        assert(fin.routes =~= agg.routes + all_routes(responses)) by {
            assert(fin.routes == (agg.routes + responses[0].routes) + all_routes(
                responses.skip(1),
            ));
        }
        assert(fin.ips =~= agg.ips + unfiltered_ips(responses, plugins, filter)) by {
            if filter.contains(plugins[0]) {
                assert(fin.ips == agg.ips + unfiltered_ips(
                    responses.skip(1),
                    plugins.skip(1),
                    filter,
                ));
                assert(unfiltered_ips(responses, plugins, filter) =~= Seq::<
                    IpResponseV,
                >::empty() + unfiltered_ips(responses.skip(1), plugins.skip(1), filter));
            } else {
                assert(fin.ips == (agg.ips + responses[0].ips) + unfiltered_ips(
                    responses.skip(1),
                    plugins.skip(1),
                    filter,
                ));
            }
        }
    }
}

} // verus!
