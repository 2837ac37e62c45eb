use vstd::prelude::*;

use crate::broker;
use crate::broker::TOKEN_BYTES;
use crate::hard_tools;
use crate::hard_tools::{HardToolsError, HardToolsFault, HttpStatus, RequestPlan, RpcCall, Service};
use crate::json;
use crate::json::Member;
use crate::manifest::broker::{self as urls, BrokerCfg, BrokerUrlError};
use crate::manifest::error::{ManifestError, ManifestFault, Refusal};
use crate::manifest::frozen;
use crate::manifest::frozen::{FrozenLocation, FrozenSource};
use crate::manifest::hard_tools as services;
use crate::manifest::hard_tools::{HardToolCfg, HardToolConfigError};
use crate::manifest::inject;
use crate::manifest::inject::{Destination, InjectStep};
use crate::manifest::methods;
use crate::manifest::methods::ComponentSite;
use crate::manifest::types::{
    CompositeManifest, Direction, Manifest, OpaqueTable, ResolvedComponent, WorkflowType, Workspace,
};
use crate::manifest::validate;
use crate::manifest::validate::TableVerdicts;
use crate::numeral;
use crate::paths;
use crate::server;
use crate::server::{ApprovalRoute, BlockingTool, DistressArgs};
use crate::startup;
use crate::startup::{KubeTarget, SpokeReport};
use crate::telemetry;
use crate::telemetry::CallOutcome;
use crate::text;
use crate::trace;
use crate::trace::{RemoteParent, TraceSources};

verus! {

/// What the launcher sets is what the broker's process reads. Where the agent's environment does not
/// name the variable, the process binds the configured address, exposes the build tools exactly where
/// they are configured, and finds the configured services exactly where there are any.
pub proof fn broker_reads_what_the_launcher_set(
    cfg: &BrokerCfg,
    token: &str,
    sandbox_name: &str,
    control_port: Option<u16>,
    agent_env: &Vec<(String, String)>,
    env: Vec<(String, String)>,
    bind: Option<String>,
    bound: String,
    build: Option<String>,
    builds: bool,
    raw: Option<String>,
    config: Option<String>,
)
    requires
        call_ensures(broker::child_env, (cfg, token, sandbox_name, control_port, agent_env), env),
        !broker::names_key(text::pairs(agent_env@), "BROKER_BIND"@),
        !broker::names_key(text::pairs(agent_env@), "BROKER_BUILD"@),
        !broker::names_key(text::pairs(agent_env@), "BROKER_HARD_TOOLS"@),
        text::text_opt(bind) == broker::env_value(text::pairs(env@), "BROKER_BIND"@),
        text::text_opt(build) == broker::env_value(text::pairs(env@), "BROKER_BUILD"@),
        text::text_opt(raw) == broker::env_value(text::pairs(env@), "BROKER_HARD_TOOLS"@),
        call_ensures(startup::bind_address, (bind,), bound),
        call_ensures(startup::switched_on, (&build,), builds),
        call_ensures(startup::hard_tools_config, (raw,), config),
    ensures
        bound@ == cfg.bind@,
        builds == cfg.build,
        config is Some <==> cfg.hard_tool@.len() > 0,
        config matches Some(list) ==> list@ == services::services_json(cfg.hard_tool@),
{
    broker::broker_sees_its_configuration(
        *cfg,
        token@,
        sandbox_name@,
        control_port,
        text::pairs(agent_env@),
    );
    reveal_strlit("[");
    let list = services::services_json(cfg.hard_tool@);
    assert(list[0] == '[');
    assert(!text::white_space(list[0]));
    assert(!text::blank(list));
}

/// The broker is guarded by the token it is given, whatever the agent's environment holds.
pub proof fn broker_reads_its_token(
    cfg: &BrokerCfg,
    token: &str,
    sandbox_name: &str,
    control_port: Option<u16>,
    agent_env: &Vec<(String, String)>,
    env: Vec<(String, String)>,
    value: Option<String>,
    guard: Option<String>,
)
    requires
        token@.len() > 0,
        call_ensures(broker::child_env, (cfg, token, sandbox_name, control_port, agent_env), env),
        text::text_opt(value) == broker::env_value(text::pairs(env@), "BROKER_TOKEN"@),
        call_ensures(broker::operator_token, (value,), guard),
    ensures
        guard matches Some(text) && text@ == token@,
{
    broker::broker_is_started_with_its_token(
        *cfg,
        token@,
        sandbox_name@,
        control_port,
        text::pairs(agent_env@),
    );
}

/// One port throughout: the launcher probes it on loopback, and the sandbox is sent to it on the
/// driver's host, which the allowlist entry then names.
pub proof fn broker_is_probed_and_reached_on_its_port(
    cfg: &BrokerCfg,
    bind: &str,
    listen: Seq<char>,
    spelled: Seq<char>,
    port: u16,
    host: &str,
    probe: String,
    url: String,
    address: &str,
    allowed: Result<String, BrokerUrlError>,
)
    requires
        cfg.url is None,
        bind@ == cfg.bind@,
        cfg.bind@ == listen + ":"@ + spelled,
        numeral::port_of(spelled) == Some(port),
        urls::whole_host(host@),
        call_ensures(broker::probe_addr, (bind,), probe),
        call_ensures(urls::resolve_broker_url, (cfg, host), url),
        address@ == url@,
        call_ensures(urls::broker_endpoint_from_url, (address,), allowed),
    ensures
        probe@ == "127.0.0.1:"@ + spelled,
        url@ == "http://"@ + host@ + ":"@ + spelled + "/mcp"@,
        allowed matches Ok(entry) && entry@ == host@ + ":"@ + numeral::decimal(port as nat)
            + ":full"@,
{
    if spelled.contains(':') {
        let i = choose|i: int| 0 <= i < spelled.len() && spelled[i] == ':';
        numeral::other_characters_are_no_port(spelled, i);
    }
    broker::ports_agree(listen, spelled, host@);
    reveal_strlit("/mcp");
    urls::every_port_is_accepted(false, host@, spelled, port, "/mcp"@);
    assert(urls::scheme_text(false) == "http://"@);
}

/// Which URLs name an endpoint. With a host and a port text that reads as a port, either scheme and
/// any path: that host and that port. Without a port text: the port of the scheme.
pub proof fn every_well_formed_url_names_its_endpoint(
    secure: bool,
    host: Seq<char>,
    spelled: Seq<char>,
    port: u16,
    path: Seq<char>,
    url: &str,
    r: Result<String, BrokerUrlError>,
    bare: &str,
    s: Result<String, BrokerUrlError>,
)
    requires
        urls::whole_host(host),
        numeral::port_of(spelled) == Some(port),
        path.len() > 0 ==> path[0] == '/',
        url@ == (if secure {
            "https://"@
        } else {
            "http://"@
        }) + host + ":"@ + spelled + path,
        bare@ == (if secure {
            "https://"@
        } else {
            "http://"@
        }) + host + path,
        call_ensures(urls::broker_endpoint_from_url, (url,), r),
        call_ensures(urls::broker_endpoint_from_url, (bare,), s),
    ensures
        r matches Ok(entry) && entry@ == host + ":"@ + numeral::decimal(port as nat) + ":full"@,
        host.len() > 0 ==> (s matches Ok(entry) && entry@ == host + (if secure {
            ":443:full"@
        } else {
            ":80:full"@
        })),
        host.len() == 0 ==> s is Err,
{
    urls::every_port_is_accepted(secure, host, spelled, port, path);
    if host.len() > 0 {
        urls::url_without_a_port_names_the_port_of_its_scheme(secure, host, path);
    } else {
        assert(bare@ =~= urls::scheme_text(secure) + path);
        urls::refused_urls_lack_a_scheme_or_an_authority(bare@);
    }
}

/// A manifest at any depth below its workspace is found there, under the path that it was joined
/// with.
pub proof fn manifest_below_its_workspace_is_located(
    cwd: &str,
    workspace: &str,
    names: Seq<Seq<char>>,
    rel: &str,
    joined: String,
    manifest: &str,
    r: Option<FrozenLocation>,
)
    requires
        names.len() > 0,
        paths::plain_names(names),
        rel@ == text::join(names, "/"@),
        call_ensures(paths::join_path, (workspace, rel), joined),
        manifest@ == joined@,
        call_ensures(frozen::frozen_manifest_location, (cwd, manifest, workspace), r),
    ensures
        r matches Some(place) && place.rel@ == rel@ && place.repo_dir@ == paths::path_text(
            paths::resolved(cwd@, workspace@),
        ),
{
    frozen::manifest_at_any_depth_is_frozen(cwd@, workspace@, names);
}

/// Validation succeeds exactly where nothing is wrong with the manifest.
pub proof fn validation_succeeds_where_nothing_is_wrong(
    m: &Manifest,
    verdicts: &TableVerdicts,
    r: Result<(), Refusal>,
)
    requires
        call_ensures(Manifest::validate, (m, verdicts), r),
    ensures
        r is Ok <==> {
            &&& m.repo.url is Some <==> m.repo.path is None
            &&& validate::broker_in_order(m.agent)
            &&& validate::workspace_in_order(m.workspace)
            &&& verdicts.search is None
            &&& m.workflow is Some ==> verdicts.workflow is None
            &&& verdicts.builds is None
            &&& verdicts.preflight is None
            &&& m.judge matches Some(judge) ==> {
                &&& verdicts.selftest is None
                &&& judge.objective@ != "task"@
                &&& m.workflow matches Some(w) ==> w.workflow_type != WorkflowType::Playbook
            }
            &&& m.judge is None ==> {
                &&& m.search is None
                &&& m.preflight is None
                &&& m.workflow matches Some(w) ==> w.workflow_type == WorkflowType::Playbook
            }
        },
{
    validate::manifest_is_accepted_exactly_when_nothing_is_wrong(*m, *verdicts);
}

/// Validation of a composite succeeds exactly where nothing is wrong with it.
pub proof fn composite_validation_succeeds_where_nothing_is_wrong(
    m: &CompositeManifest,
    verdicts: &TableVerdicts,
    r: Result<(), Refusal>,
)
    requires
        call_ensures(CompositeManifest::validate, (m, verdicts), r),
    ensures
        r is Ok <==> {
            &&& m.components@.len() >= 2
            &&& forall|i: int, j: int|
                0 <= i < j < m.components@.len() ==> (#[trigger] m.components@[i]).domain@ != (
                #[trigger] m.components@[j]).domain@
            &&& m.workspace.carry_forward@.len() == 0
            &&& m.workspace.artifact@.len() == 0
            &&& validate::broker_in_order(m.agent)
            &&& verdicts.search is None
            &&& m.workflow is Some ==> verdicts.workflow is None
            &&& verdicts.selftest is None
            &&& verdicts.builds is None
            &&& verdicts.preflight is None
            &&& m.judge.objective@ != "task"@
            &&& m.workflow matches Some(w) ==> w.workflow_type != WorkflowType::Playbook
        },
{
    validate::composite_is_accepted_exactly_when_nothing_is_wrong(*m, *verdicts);
}

/// The request for a listing asks the service for its tools: the body's method is the one in the
/// headers, and no tool is named.
pub proof fn listing_is_asked_for(
    service: &Service,
    id: u64,
    client_version: &str,
    plan: RequestPlan,
)
    requires
        call_ensures(
            hard_tools::plan_request,
            (service, id, &RpcCall::ListTools, client_version),
            plan,
        ),
    ensures
        plan.url@ == service.url@,
        text::text_opt(plan.bearer_token) == text::text_opt(service.bearer_token),
        hard_tools::header(text::pairs(plan.headers@), "mcp-method"@) == Some("tools/list"@),
        hard_tools::header(text::pairs(plan.headers@), "mcp-name"@) is None,
        ({
            let params = seq![
                (
                    "_meta"@,
                    json::object_of(hard_tools::client_members("2026-07-28"@, client_version@)),
                ),
            ];
            plan.body@ == json::object_of(
                seq![
                    ("jsonrpc"@, json::json_string("2.0"@)),
                    ("id"@, numeral::decimal(id as nat)),
                    ("method"@, json::json_string("tools/list"@)),
                    ("params"@, json::object_of(params)),
                ],
            )
        }),
{
    let call = RpcCall::ListTools;
    hard_tools::request_says_what_its_headers_say(id, call@, client_version@);
    let params = seq![
        (
            "_meta"@,
            json::object_of(hard_tools::client_members("2026-07-28"@, client_version@)),
        ),
    ];
    let headers = hard_tools::request_headers(call@);
    assert(hard_tools::header(headers, "mcp-method"@)->0 == "tools/list"@);
    assert(hard_tools::header(headers, "mcp-protocol-version"@)->0 == "2026-07-28"@);
    assert(hard_tools::param_members(call@, "2026-07-28"@, client_version@) == params);
    assert(hard_tools::request_body(id, call@, client_version@) == json::object_of(
        seq![
            ("jsonrpc"@, json::json_string("2.0"@)),
            ("id"@, numeral::decimal(id as nat)),
            ("method"@, json::json_string("tools/list"@)),
            ("params"@, json::object_of(params)),
        ],
    ));
}

/// A token with white space around it is sent without it.
pub proof fn token_is_sent_trimmed(
    service: &str,
    variable: &Option<String>,
    value: &Option<String>,
    before: Seq<char>,
    token: Seq<char>,
    after: Seq<char>,
    r: Result<Option<String>, HardToolsError>,
)
    requires
        text::blank(before),
        text::blank(after),
        token.len() > 0,
        !text::white_space(token[0]),
        !text::white_space(token.last()),
        variable is Some,
        text::text_opt(*value) == Some(before + token + after),
        call_ensures(hard_tools::resolve_bearer_token, (service, variable, value), r),
    ensures
        r matches Ok(Some(sent)) && sent@ == token,
{
    hard_tools::token_is_the_value_without_white_space(
        service@,
        text::text_opt(*variable)->0,
        None,
        before,
        token,
        after,
    );
}

/// The parent of a call is the one that the first source to name one names, asked alone.
pub proof fn first_source_with_a_parent_is_taken(
    sources: &TraceSources,
    meta: Option<RemoteParent>,
    header: Option<RemoteParent>,
    turn: Option<RemoteParent>,
    env: Option<RemoteParent>,
    r: Option<RemoteParent>,
)
    requires
        call_ensures(
            trace::extract_parent,
            (&sources.meta.traceparent, &sources.meta.tracestate),
            meta,
        ),
        call_ensures(
            trace::extract_parent,
            (&sources.header.traceparent, &sources.header.tracestate),
            header,
        ),
        call_ensures(
            trace::extract_parent,
            (&sources.turn.traceparent, &sources.turn.tracestate),
            turn,
        ),
        call_ensures(
            trace::extract_parent,
            (&sources.env.traceparent, &sources.env.tracestate),
            env,
        ),
        call_ensures(trace::parent_context, (sources,), r),
    ensures
        ({
            let expected = if meta is Some {
                meta
            } else if header is Some {
                header
            } else if turn is Some {
                turn
            } else {
                env
            };
            match (expected, r) {
                (Some(parent), Some(taken)) => taken@ == parent@ && taken.remote,
                (None, None) => true,
                _ => false,
            }
        }),
{
}

/// Work that was lost is answered with an error, and the span is marked as failed, whatever was lost
/// and why; work that came back is answered as it came.
pub proof fn lost_work_marks_the_span(
    tool: &BlockingTool,
    error: String,
    reply: String,
    text: &str,
    attrs: Vec<(String, String)>,
    done: String,
    came: String,
)
    requires
        call_ensures(BlockingTool::reply, (tool, Err::<String, String>(error)), reply),
        text@ == reply@,
        call_ensures(telemetry::reply_attrs, (text,), attrs),
        call_ensures(BlockingTool::reply, (tool, Ok::<String, String>(done)), came),
    ensures
        text::pairs(attrs@) == seq![("status"@, "error"@), ("otel.status_code"@, "ERROR"@)],
        came@ == done@,
{
    server::error_reply_marks_the_span(
        reply@,
        tool.task() + " task failed: "@ + error@,
        text::pairs(attrs@),
    );
}

/// Approvals go over the control bridge exactly where the environment says `control`.
pub proof fn approvals_are_routed_as_asked(
    approval: &Option<String>,
    fork: Option<String>,
    base: Option<String>,
    r: ApprovalRoute,
)
    requires
        call_ensures(server::choose_approval, (approval, fork, base), r),
    ensures
        r is Control <==> (approval matches Some(value) && value@ == "control"@),
        r matches ApprovalRoute::DraftPr { repo, base: branch } ==> {
            &&& repo@ == (match fork {
                Some(name) => name@,
                None => "wseaton/llm-d-router"@,
            })
            &&& branch@ == (match base {
                Some(name) => name@,
                None => "main"@,
            })
        },
{
}

/// A directory at the destination is refused by its path, a link is always replaced, and what is
/// missing is copied.
pub proof fn inject_goes_by_what_it_finds(
    dst: &str,
    same_file: bool,
    is_dir: bool,
    onto_entry: Result<InjectStep, ManifestError>,
    onto_link: Result<InjectStep, ManifestError>,
    onto_nothing: Result<InjectStep, ManifestError>,
)
    requires
        call_ensures(
            inject::apply_inject,
            (dst, (Destination::Entry { is_dir, is_symlink: false }), same_file),
            onto_entry,
        ),
        call_ensures(
            inject::apply_inject,
            (dst, (Destination::Entry { is_dir, is_symlink: true }), same_file),
            onto_link,
        ),
        call_ensures(inject::apply_inject, (dst, Destination::Missing, same_file), onto_nothing),
    ensures
        onto_link == Ok::<InjectStep, ManifestError>(InjectStep::Replace),
        onto_nothing == Ok::<InjectStep, ManifestError>(InjectStep::Copy),
        same_file ==> onto_entry == Ok::<InjectStep, ManifestError>(InjectStep::Done),
        !same_file && !is_dir ==> onto_entry == Ok::<InjectStep, ManifestError>(
            InjectStep::Replace,
        ),
        !same_file && is_dir ==> (onto_entry matches Err(e) && e@ == ManifestFault::InjectDestIsDir(
            dst@,
        )),
{
}

/// The composite's own deploy target counts for the components that it names, and their own for the
/// others.
pub proof fn composite_decides_where_it_names_the_component(
    m: &CompositeManifest,
    c: &ResolvedComponent,
    r: Option<OpaqueTable>,
)
    requires
        call_ensures(CompositeManifest::deploy_for, (m, c), r),
    ensures
        m.deploy@.contains_key(c.name@) ==> (r matches Some(table) && table.text@
            == m.deploy@[c.name@].text@),
        !m.deploy@.contains_key(c.name@) ==> match (r, c.manifest.deploy) {
            (Some(table), Some(own)) => table.text@ == own.text@,
            (None, None) => true,
            _ => false,
        },
{
}

/// A judge that says `lower` or `higher` is understood so, and no other word is understood.
pub proof fn direction_is_read_from_its_word(value: &str, r: Result<Direction, ManifestError>)
    requires
        call_ensures(methods::parse_direction, (value,), r),
    ensures
        r == Ok::<Direction, ManifestError>(Direction::Lower) <==> value@ == "lower"@,
        r == Ok::<Direction, ManifestError>(Direction::Higher) <==> value@ == "higher"@,
        r matches Err(e) ==> e@ == ManifestFault::BadDirection(value@),
{
    methods::two_texts_name_a_direction(value@);
}

/// A minted token has two hexadecimal digits for each byte, which spell it.
pub proof fn minted_token_spells_its_entropy(
    entropy: &[u8; TOKEN_BYTES],
    token: String,
    i: int,
)
    requires
        call_ensures(broker::mint_token, (entropy,), token),
        0 <= i < 24,
    ensures
        token@.len() == 48,
        16 * numeral::digit_value(token@[2 * i]) + numeral::digit_value(token@[2 * i + 1])
            == entropy@[i],
{
    numeral::hex_spells_each_byte(entropy@, i);
}

/// A response is read for the request with its id: the result is taken as it came where there is one
/// and neither an error nor a failed status, and an error of the service is reported with the status.
pub proof fn response_gives_its_result(
    id: u64,
    status: HttpStatus,
    members: &Vec<Member>,
    r: Result<String, HardToolsError>,
)
    requires
        call_ensures(hard_tools::read_envelope, (id, status, members), r),
    ensures
        ({
            let all = json::members_model(members@);
            let answers = json::lookup(all, "id"@) matches Some(m) && m.kind
                == json::KindModel::Number(Some(id));
            let error = json::lookup(all, "error"@);
            let result = json::lookup(all, "result"@);
            &&& r is Ok <==> answers && error is None && 200 <= status@ <= 299 && result is Some
            &&& r matches Ok(text) ==> text@ == (result->0).json
            &&& r matches Err(e) ==> (if !answers {
                e@ == HardToolsFault::ResponseIdMismatch(id)
            } else if error is Some {
                e@ == HardToolsFault::Rpc(status@, (error->0).json)
            } else if !(200 <= status@ <= 299) {
                e@ == HardToolsFault::Http(status@)
            } else {
                e@ == HardToolsFault::MissingResult
            })
        }),
{
    hard_tools::response_is_read_for_its_request(id, status@, json::members_model(members@));
}

/// Services are accepted exactly where the broker that they need is enabled and each of them is in
/// order.
pub proof fn services_are_accepted_where_in_order(
    list: &Vec<HardToolCfg>,
    broker_enabled: bool,
    r: Result<(), HardToolConfigError>,
)
    requires
        call_ensures(services::validate, (list, broker_enabled), r),
    ensures
        r is Ok <==> {
            &&& list@.len() > 0 ==> broker_enabled
            &&& forall|i: int| 0 <= i < list@.len() ==> #[trigger] services::service_in_order(list@, i)
        },
{
    services::services_in_order_are_accepted(list@, broker_enabled);
}

/// What is recorded of a reply: the scalars under the recorded keys, cut to 256 characters, and the
/// mark of a failure exactly where the status is one.
pub proof fn reply_is_recorded_by_its_scalars(
    members: &Vec<Member>,
    attrs: Vec<(String, String)>,
    key: Seq<char>,
    value: Seq<char>,
)
    requires
        call_ensures(telemetry::attrs_of_members, (members,), attrs),
        key != "otel.status_code"@,
    ensures
        ({
            let all = json::members_model(members@);
            let found = json::lookup(all, key);
            let status = json::lookup(all, "status"@);
            &&& text::pairs(attrs@).contains((key, value)) <==> telemetry::recorded_key(key) && (found
                matches Some(m) && {
                let whole = match m.kind {
                    json::KindModel::Text(text) => text,
                    json::KindModel::Bool => m.json,
                    json::KindModel::Number(_) => m.json,
                    _ => Seq::empty(),
                };
                whole.len() > 0 && value == (if whole.len() <= 256 {
                    whole
                } else {
                    whole.take(256)
                })
            })
            &&& text::pairs(attrs@).contains(("otel.status_code"@, "ERROR"@)) <==> (status matches Some(
                m,
            ) && (m.kind == json::KindModel::Text("error"@) || m.kind == json::KindModel::Text(
                "job_failed"@,
            )))
        }),
{
    telemetry::scalars_under_recorded_keys_are_recorded(
        json::members_model(members@),
        key,
        value,
    );
    telemetry::failed_replies_are_marked(json::members_model(members@));
}

/// Everything that is carried forward and every artifact's path is carried, and nothing else.
pub proof fn declared_paths_are_carried(workspace: &Workspace, r: Vec<String>, path: Seq<char>)
    requires
        call_ensures(Workspace::carried_paths, (workspace,), r),
    ensures
        text::texts(workspace.carry_forward@).is_prefix_of(text::texts(r@)),
        text::texts(r@).contains(path) <==> text::texts(workspace.carry_forward@).contains(path)
            || exists|i: int|
            0 <= i < workspace.artifact@.len() && (#[trigger] workspace.artifact@[i]).path@ == path,
{
    crate::manifest::types::carried_paths_are_those_declared(
        text::texts(workspace.carry_forward@),
        workspace.artifact@,
    );
}

/// The components of a composite are looked for beside it and checked out below its workspace.
pub proof fn components_are_found_beside_the_composite(
    cwd: Seq<char>,
    m: &CompositeManifest,
    above: Seq<Seq<char>>,
    name: Seq<char>,
    manifest_dir: &str,
    r: Option<Vec<ComponentSite>>,
    i: int,
)
    requires
        above.len() > 0,
        paths::plain(above),
        paths::plain_name(name),
        manifest_dir@ == paths::joined(paths::path_text(above), name),
        0 <= i < m.components@.len(),
        paths::plain_name(m.components@[i].domain@),
        m.components@[i].workspace_dir matches Some(dir) ==> paths::plain_name(dir@),
        call_ensures(CompositeManifest::component_sites, (m, manifest_dir), r),
    ensures
        r matches Some(sites) && sites@.len() == m.components@.len() && {
            let component = m.components@[i];
            let site = sites@[i];
            let domains = paths::resolved(cwd, paths::path_text(above));
            let base = paths::resolved(cwd, paths::joined(manifest_dir@, m.workspace.dir@));
            &&& site.name@ == component.domain@
            &&& paths::resolved(cwd, site.domain_dir@) == domains.push(component.domain@)
            &&& paths::resolved(cwd, site.manifest_path@) == domains.push(component.domain@).push(
                "crucible.toml"@,
            )
            &&& paths::resolved(cwd, site.workspace@) == base.push(
                match component.workspace_dir {
                    Some(dir) => dir@,
                    None => component.domain@,
                },
            )
        },
{
    let domains = paths::path_text(above);
    methods::domains_are_beside_the_composite(above, name);
    methods::component_lies_in_its_domain(cwd, *m, manifest_dir@, domains, i);
    let sites = r->0;
    assert(methods::site_models(sites@)[i] == sites@[i]@);
    assert(methods::site_models(sites@).len() == sites@.len());
}

/// Each inject leads from the manifest's directory to the workspace, in order, as frozen as it was.
pub proof fn injects_lead_to_the_workspace(
    cwd: Seq<char>,
    m: &Manifest,
    manifest_dir: &str,
    workspace: &str,
    r: Vec<(String, String, bool)>,
    i: int,
    from: Seq<Seq<char>>,
    to: Seq<Seq<char>>,
)
    requires
        0 <= i < m.workspace.inject@.len(),
        from.len() > 0,
        to.len() > 0,
        paths::plain_names(from),
        paths::plain_names(to),
        m.workspace.inject@[i].src@ == text::join(from, "/"@),
        m.workspace.inject@[i].dst@ == text::join(to, "/"@),
        call_ensures(Manifest::resolved_injects, (m, manifest_dir, workspace), r),
    ensures
        r@.len() == m.workspace.inject@.len(),
        paths::resolved(cwd, r@[i].0@) == paths::resolved(cwd, manifest_dir@) + from,
        paths::resolved(cwd, r@[i].1@) == paths::resolved(cwd, workspace@) + to,
        r@[i].2 == m.workspace.inject@[i].frozen,
{
    methods::inject_leads_from_the_manifest_to_the_workspace(
        cwd,
        manifest_dir@,
        workspace@,
        m.workspace.inject@[i],
        from,
        to,
    );
    let models = methods::inject_models(r@);
    assert(models.len() == r@.len());
    assert(models.len() == m.workspace.inject@.len());
    assert(models[i] == (r@[i].0@, r@[i].1@, r@[i].2));
}

/// A trimmed text is the text without the white space around it.
pub proof fn trim_takes_white_space_away(
    before: Seq<char>,
    kept: Seq<char>,
    after: Seq<char>,
    s: &str,
    r: String,
)
    requires
        text::blank(before),
        text::blank(after),
        kept.len() > 0 ==> !text::white_space(kept[0]) && !text::white_space(kept.last()),
        s@ == before + kept + after,
        call_ensures(text::trim, (s,), r),
    ensures
        r@ == kept,
{
    text::trimming_takes_only_the_white_space_around(before, kept, after);
}

/// A path of names leads below the directory that it is joined with.
pub proof fn joined_names_are_resolved_below(
    cwd: &str,
    dir: &str,
    names: Seq<Seq<char>>,
    rel: &str,
    joined: String,
    path: &str,
    above: Vec<String>,
    below: Vec<String>,
)
    requires
        names.len() > 0,
        paths::plain_names(names),
        rel@ == text::join(names, "/"@),
        call_ensures(paths::join_path, (dir, rel), joined),
        path@ == joined@,
        call_ensures(paths::absolute, (cwd, dir), above),
        call_ensures(paths::absolute, (cwd, path), below),
    ensures
        text::texts(below@) == text::texts(above@) + names,
{
    paths::names_lead_below(cwd@, dir@, names);
}

/// The operator hears of a manifest that is read from a commit, with the commit, and of one that
/// cannot be; not of one outside its workspace.
pub proof fn operator_hears_of_the_choice(
    manifest_path: &str,
    workspace: &str,
    source: &FrozenSource,
    r: Option<String>,
)
    requires
        call_ensures(frozen::notice, (manifest_path, workspace, source), r),
    ensures
        r is None <==> source is Outside,
        r matches Some(notice) ==> text::mentions(notice@, manifest_path@),
        (*source matches FrozenSource::Head { sha, .. }) ==> (r matches Some(notice) && (
        *source matches FrozenSource::Head { sha, .. } && text::mentions(notice@, sha@))),
{
    frozen::operator_is_told_what_was_chosen(manifest_path@, workspace@, *source);
}

/// A probe's result is printed as it came and is no failure; a failed probe is, and the line says
/// which spoke and tier it was and what went wrong.
pub proof fn probe_is_reported(
    outcome: Result<String, String>,
    spoke: &str,
    tier: &str,
    r: SpokeReport,
)
    requires
        call_ensures(startup::run_spoke_smoke, (outcome, spoke, tier), r),
    ensures
        r.failed <==> outcome is Err,
        outcome matches Ok(result) ==> r.line@ == result@,
        outcome matches Err(error) ==> r.line@ == json::object_of(
            seq![
                ("status"@, json::json_string("error"@)),
                ("spoke"@, json::json_string(spoke@)),
                ("tier"@, json::json_string(tier@)),
                ("error"@, json::json_string(error@)),
            ],
        ),
{
    if let Err(error) = outcome {
        startup::failed_probe_is_reported_in_full(spoke@, tier@, error@);
    }
}

/// A scored manifest, of either shape, improves in the direction that its judge's word is read as; a
/// task has none.
pub proof fn judge_gives_the_direction(
    m: &Manifest,
    composite: &CompositeManifest,
    word: &str,
    read: Result<Direction, ManifestError>,
    r: Result<Direction, ManifestError>,
    s: Result<Direction, ManifestError>,
)
    requires
        m.judge matches Some(judge) ==> judge.direction@ == word@,
        composite.judge.direction@ == word@,
        call_ensures(methods::parse_direction, (word,), read),
        call_ensures(Manifest::direction, (m,), r),
        call_ensures(CompositeManifest::direction, (composite,), s),
    ensures
        m.judge is None ==> (r matches Err(e) && e@ == ManifestFault::NoJudge),
        m.judge is Some ==> (read is Ok <==> r is Ok),
        m.judge is Some && r is Ok ==> r == read,
        read is Ok <==> s is Ok,
        s is Ok ==> s == read,
{
}

/// The workspace of a manifest is its directory's path with the named directory behind it.
pub proof fn workspace_is_named_from_the_manifest(
    m: &Manifest,
    path: &str,
    dir: String,
    base: &str,
    named: &str,
    expected: String,
    r: String,
)
    requires
        call_ensures(paths::manifest_dir, (path,), dir),
        base@ == dir@,
        named@ == m.workspace.dir@,
        call_ensures(paths::join_path, (base, named), expected),
        call_ensures(Manifest::workspace_path, (m, path), r),
    ensures
        r@ == expected@,
{
}

/// A call for help without a reason is refused, and the refusal is recorded as a failure; one with a
/// reason is let through.
pub proof fn call_for_help_needs_a_reason(
    args: &DistressArgs,
    r: Option<String>,
    reply: &str,
    attrs: Vec<(String, String)>,
)
    requires
        call_ensures(server::distress_refusal, (args,), r),
        r matches Some(text) ==> reply@ == text@,
        call_ensures(telemetry::reply_attrs, (reply,), attrs),
    ensures
        r is Some <==> text::blank(args.reason@),
        r is Some ==> text::pairs(attrs@) == seq![
            ("status"@, "error"@),
            ("otel.status_code"@, "ERROR"@),
        ],
{
    if r is Some {
        server::error_reply_marks_the_span(
            reply@,
            "reason must be non-empty: say what the operator has to fix"@,
            text::pairs(attrs@),
        );
    }
}

/// The ambient cluster is meant exactly where no option is given; any option is kept as it is.
pub proof fn any_option_names_the_cluster(
    kubeconfig: Option<String>,
    context: Option<String>,
    proxy_url: Option<String>,
    r: KubeTarget,
)
    requires
        call_ensures(startup::spoke_target, (kubeconfig, context, proxy_url), r),
    ensures
        r is Ambient <==> kubeconfig is None && context is None && proxy_url is None,
        r matches KubeTarget::Kubeconfig { path, context: c, proxy_url: p } ==> path == kubeconfig
            && c == context && p == proxy_url,
{
}

/// A failed call of a service's tool is answered with its causes, word for word, and never fails
/// itself; a call that succeeded is answered as the service answered.
pub proof fn agent_is_told_the_causes<T>(
    service: &str,
    result: T,
    causes: String,
    r: Result<T, String>,
    s: Result<T, String>,
)
    requires
        call_ensures(hard_tools::routed_reply::<T>, (service, Ok::<T, String>(result)), r),
        call_ensures(hard_tools::routed_reply::<T>, (service, Err::<T, String>(causes)), s),
    ensures
        r == Ok::<T, String>(result),
        s matches Err(text) && text::mentions(text@, causes@) && text::mentions(
            text@,
            text::debug_text(service@),
        ),
{
    let head = "nm-hard-tools service "@;
    let name = text::debug_text(service@);
    let middle = " failed: "@;
    text::lemma_mentions(head + name + middle, causes@, Seq::empty());
    text::lemma_mentions(head, name, middle + causes@);
    assert(head + name + middle + causes@ == head + name + (middle + causes@));
}

/// An error of the protocol is recorded as a failure with its message, cut to what fits.
pub proof fn protocol_error_is_recorded(message: String, r: Vec<(String, String)>)
    requires
        call_ensures(
            telemetry::record_outcome,
            (&(CallOutcome::ProtocolError { message }),),
            r,
        ),
    ensures
        r@.len() == 2,
        r@[0].0@ == "otel.status_code"@ && r@[0].1@ == "ERROR"@,
        r@[1].0@ == "status"@,
        r@[1].1@.len() <= 256,
        r@[1].1@.is_prefix_of("protocol_error: "@ + message@),
        message@.len() <= 240 ==> r@[1].1@ == "protocol_error: "@ + message@,
{
    let status = "protocol_error: "@ + message@;
    let outcome = CallOutcome::ProtocolError { message };
    reveal_strlit("protocol_error: ");
    telemetry::every_outcome_is_recorded(outcome);
    telemetry::capped_value_is_a_bounded_prefix(status);
    let model = telemetry::outcome_model(outcome);
    assert(text::pairs(r@) == model);
    assert(text::pairs(r@).len() == r@.len());
    assert(text::pairs(r@)[0] == model[0]);
    assert(text::pairs(r@)[1] == model[1]);
}

/// A status is a number from 100 to 999, and a success from 200 to 299.
pub proof fn two_hundreds_are_success(
    code: u16,
    r: Option<HttpStatus>,
    status: &HttpStatus,
    success: bool,
)
    requires
        call_ensures(HttpStatus::from_u16, (code,), r),
        r matches Some(made) ==> *status == made,
        call_ensures(HttpStatus::is_success, (status,), success),
    ensures
        r is Some <==> 100 <= code <= 999,
        r is Some ==> (success <==> 200 <= code <= 299),
{
}

/// The broker's process is told its name, the sandbox's name and where the control bridge listens,
/// each where the agent's environment does not name the variable itself; what the agent's environment
/// names is passed on as it is, the token apart.
pub proof fn broker_is_told_who_it_serves(
    cfg: &BrokerCfg,
    token: &str,
    sandbox_name: &str,
    control_port: Option<u16>,
    agent_env: &Vec<(String, String)>,
    env: Vec<(String, String)>,
    key: Seq<char>,
)
    requires
        call_ensures(broker::child_env, (cfg, token, sandbox_name, control_port, agent_env), env),
    ensures
        ({
            let given = text::pairs(agent_env@);
            let seen = text::pairs(env@);
            &&& !broker::names_key(given, "BROKER_NAME"@) ==> broker::env_value(seen, "BROKER_NAME"@)
                == Some(cfg.name@)
            &&& !broker::names_key(given, "BROKER_SANDBOX_NAME"@) ==> broker::env_value(
                seen,
                "BROKER_SANDBOX_NAME"@,
            ) == Some(sandbox_name@)
            &&& !broker::names_key(given, "BROKER_CONTROL_ADDR"@) ==> broker::env_value(
                seen,
                "BROKER_CONTROL_ADDR"@,
            ) == (match control_port {
                Some(port) => Some("127.0.0.1:"@ + numeral::decimal(port as nat)),
                None => None,
            })
            &&& key != "BROKER_TOKEN"@ && broker::names_key(given, key) ==> broker::env_value(
                seen,
                key,
            ) == broker::env_value(given, key)
        }),
{
    let given = text::pairs(agent_env@);
    broker::broker_sees_its_configuration(*cfg, token@, sandbox_name@, control_port, given);
    if key != "BROKER_TOKEN"@ {
        broker::agent_environment_reaches_the_broker(
            *cfg,
            token@,
            sandbox_name@,
            control_port,
            given,
            key,
        );
    }
}

} // verus!
