use crucible::hard_tools::{HardTools, Service};
use crucible::names::NameMap;
use crucible::routes::ListedTool;
use crucible::server::{
    capture_reply, choose_approval, comment_reply, default_build_mode, default_jira_limit,
    default_profile_seconds, distress_refusal, distress_reply, jira_disabled,
    jira_reply, json_err, task_failed, trace_reply, watches_approval, ApprovalChannel, ApprovalEnv,
    ApprovalRoute, ApprovalState, BlockingTool, CodegenBenchmarkArgs, DistressArgs, IssueForm,
    JiraGetIssueArgs, McpServer, Severity, TaskOutcome,
};
use crucible::startup::{
    bind_address, hard_tools_config, listening_line, run_spoke_smoke, spoke_target, switched_on,
    KubeTarget,
};
use crucible::telemetry::{
    cap_attr, record_outcome, reply_attrs, span_name, CallOutcome, ATTR_VALUE_MAX,
};
use crucible::trace::{
    accept_parent, extract_parent, parent_context, Carrier, RemoteParent, TraceSources,
};

fn text(s: &str) -> Option<String> {
    Some(s.to_string())
}

fn found<'a>(attrs: &'a [(String, String)], key: &str) -> Option<&'a str> {
    attrs.iter().find(|(k, _)| k == key).map(|(_, v)| v.as_str())
}

#[test]
fn reply_attrs_extracts_the_allowlist_and_marks_failures() {
    let attrs = reply_attrs(
        r#"{"status":"built","tree_hash":"abc123","digest":"ghcr.io/example/img@sha256:def","mode":"derive","cached":false,"log":"build-1.log"}"#,
    );
    assert_eq!(found(&attrs, "status"), Some("built"));
    assert_eq!(found(&attrs, "digest"), Some("ghcr.io/example/img@sha256:def"));
    assert_eq!(found(&attrs, "tree_hash"), Some("abc123"));
    assert_eq!(found(&attrs, "mode"), Some("derive"));
    assert_eq!(found(&attrs, "cached"), Some("false"));
    // Non-allowlisted keys never leak onto the span.
    assert_eq!(found(&attrs, "log"), None);
    assert_eq!(found(&attrs, "otel.status_code"), None, "built is not an error");

    // Failure statuses carry the ERROR mark; other outcomes (rejected_kwarg etc.) don't.
    let failed = reply_attrs(r#"{"status":"job_failed","reason":"crashed","logs":["x.log"]}"#);
    assert!(failed.iter().any(|(k, v)| k == "otel.status_code" && v == "ERROR"));
    let err = reply_attrs(r#"{"status":"error","error":"boom"}"#);
    assert!(err.iter().any(|(k, v)| k == "otel.status_code" && v == "ERROR"));
    let rejected = reply_attrs(r#"{"status":"rejected_kwarg","reason":"no"}"#);
    assert!(rejected.iter().all(|(k, _)| k != "otel.status_code"));

    // Metrics objects are non-scalar and dropped; non-JSON text records nothing.
    let measured = reply_attrs(r#"{"status":"measured","metrics":{"tpot_ms":9.1},"cached":true}"#);
    assert_eq!(found(&measured, "status"), Some("measured"));
    assert_eq!(found(&measured, "cached"), Some("true"));
    assert!(reply_attrs("not json at all").is_empty());
}

#[test]
fn reply_attrs_of_other_scalars() {
    let attrs = reply_attrs(r#"{"mode":3,"digest":1.5,"status":null,"cached":"","tree_hash":["x"]}"#);
    assert_eq!(found(&attrs, "mode"), Some("3"));
    assert_eq!(found(&attrs, "digest"), Some("1.5"));
    assert_eq!(attrs.len(), 2, "null, empty and nested values are dropped: {attrs:?}");
    // The order is fixed, whatever the reply's.
    assert_eq!(attrs[0].0, "digest");
    assert!(reply_attrs("[1,2]").is_empty());
    assert!(reply_attrs("\"error\"").is_empty());
}

#[test]
fn attribute_values_are_length_capped() {
    let long = "x".repeat(1000);
    let capped = cap_attr(long);
    assert_eq!(capped.chars().count(), ATTR_VALUE_MAX);
    // A short value passes through untouched, and the cap is char-boundary safe.
    assert_eq!(cap_attr("built".into()), "built");
    let multibyte = "λ".repeat(300);
    assert_eq!(cap_attr(multibyte).chars().count(), ATTR_VALUE_MAX);
    // The cap applies to reply attrs end-to-end.
    let attrs = reply_attrs(&format!(r#"{{"status":"{}"}}"#, "s".repeat(500)));
    let status = &attrs.iter().find(|(k, _)| k == "status").unwrap().1;
    assert_eq!(status.chars().count(), ATTR_VALUE_MAX);
}

#[test]
fn error_replies_are_json_whatever_the_message() {
    for message in ["boom", "a \"quoted\"\nline", "\\", "λ\u{0}"] {
        let reply = json_err(message);
        let value: serde_json::Value = serde_json::from_str(&reply).unwrap();
        assert_eq!(value.get("status").and_then(|v| v.as_str()), Some("error"));
        assert_eq!(value.get("error").and_then(|v| v.as_str()), Some(message));
        let attrs = reply_attrs(&reply);
        assert_eq!(
            attrs,
            vec![
                ("status".to_string(), "error".to_string()),
                ("otel.status_code".to_string(), "ERROR".to_string()),
            ]
        );
    }
    assert_eq!(json_err("boom"), r#"{"status":"error","error":"boom"}"#);
}

#[test]
fn outcomes_are_recorded() {
    let complete = CallOutcome::Complete { first_text: text(r#"{"status":"built"}"#) };
    assert_eq!(record_outcome(&complete), vec![("status".to_string(), "built".to_string())]);
    assert!(record_outcome(&CallOutcome::Complete { first_text: None }).is_empty());
    assert!(record_outcome(&CallOutcome::Other).is_empty());
    let failed = record_outcome(&CallOutcome::ProtocolError { message: "e".repeat(400) });
    assert_eq!(failed[0], ("otel.status_code".to_string(), "ERROR".to_string()));
    assert_eq!(failed[1].0, "status");
    assert!(failed[1].1.starts_with("protocol_error: eee"));
    assert_eq!(failed[1].1.chars().count(), ATTR_VALUE_MAX);
    assert_eq!(span_name("build_epp"), "mcp.build_epp");
}

const META: u128 = 0x0af7651916cd43dd8448eb211c80319c;
const HEADER: u128 = 0x4bf92f3577b34da6a3ce929d0e0e4736;

fn carrier(traceparent: Option<String>) -> Carrier {
    Carrier { traceparent, tracestate: None }
}

fn w3c(trace_id: u128, span_id: &str) -> Option<String> {
    Some(format!("00-{trace_id:032x}-{span_id}-01"))
}

fn sources(meta: Option<String>, header: Option<String>) -> TraceSources {
    TraceSources {
        meta: carrier(meta),
        header: carrier(header),
        turn: carrier(text("")),
        env: carrier(None),
    }
}

#[test]
fn trace_context_arrives_by_meta_and_by_header() {
    let meta = || w3c(META, "b7ad6b7169203331");
    let header = || w3c(HEADER, "00f067aa0ba902b7");
    let id = |s: TraceSources| parent_context(&s).map(|p| p.trace_id);
    assert_eq!(id(sources(meta(), None)), Some(META));
    assert_eq!(id(sources(None, header())), Some(HEADER));
    // With both present the body wins: the spec makes it the source of truth and the header a
    // mirror an intermediary may have rewritten.
    assert_eq!(id(sources(meta(), header())), Some(META));
}

#[test]
fn trace_context_falls_back_to_the_turn_and_the_environment() {
    let mut s = sources(text("garbage"), text(" "));
    assert!(parent_context(&s).is_none());
    s.env = carrier(w3c(7, "0000000000000001"));
    assert_eq!(parent_context(&s).unwrap().trace_id, 7);
    s.turn = carrier(w3c(8, "0000000000000001"));
    assert_eq!(parent_context(&s).unwrap().trace_id, 8);
}

#[test]
fn traceparent_extraction_parses_w3c_and_degrades_on_garbage() {
    let parent = extract_parent(
        &text("00-0af7651916cd43dd8448eb211c80319c-b7ad6b7169203331-01"),
        &None,
    )
    .expect("a valid traceparent must parse");
    assert_eq!(format!("{:032x}", parent.trace_id), "0af7651916cd43dd8448eb211c80319c");
    assert!(parent.remote);

    // Malformed / blank / all-zeros values degrade to None (root spans), never an error.
    assert!(extract_parent(&text("garbage"), &None).is_none());
    assert!(extract_parent(&text("  "), &None).is_none());
    assert!(extract_parent(&None, &text("vendor=state")).is_none());
    assert!(
        extract_parent(
            &text("00-00000000000000000000000000000000-0000000000000000-01"),
            &None
        )
        .is_none(),
        "an all-zeros context is invalid"
    );
}

#[test]
fn trace_state_and_sampling_are_carried() {
    let full = extract_parent(&w3c(META, "b7ad6b7169203331"), &text("vendor=state")).unwrap();
    assert_eq!(full.trace_state, "vendor=state");
    assert_eq!(full.span_id, 0xb7ad6b7169203331);
    assert!(full.sampled);
    let bare = extract_parent(
        &text("00-0af7651916cd43dd8448eb211c80319c-b7ad6b7169203331-00"),
        &text("  "),
    )
    .unwrap();
    assert_eq!(bare.trace_state, "");
    assert!(!bare.sampled);
    let zero = RemoteParent {
        trace_id: 1,
        span_id: 0,
        sampled: true,
        remote: true,
        trace_state: String::new(),
    };
    assert!(accept_parent(zero).is_none());
}

#[test]
fn canned_replies() {
    assert_eq!(
        jira_disabled(),
        r#"{"status":"disabled","reason":"JIRA is not configured (set JIRA_URL + JIRA_USERNAME + JIRA_API_TOKEN on the loop pod)"}"#
    );
    assert_eq!(jira_reply(None), jira_disabled());
    assert_eq!(jira_reply(Some(Ok("rows".to_string()))), "rows");
    assert_eq!(jira_reply(Some(Err("x".to_string()))), json_err("x"));
    assert_eq!(
        task_failed("build", "panicked"),
        r#"{"status":"error","error":"build task failed: panicked"}"#
    );
    let lost = |tool: BlockingTool| tool.reply(Err("x".to_string()));
    for (tool, task) in [
        (BlockingTool::BuildEpp, "build"),
        (BlockingTool::DeployCandidate, "deploy"),
        (BlockingTool::DeployComposite, "deploy"),
        (BlockingTool::DeployStatus, "status"),
        (BlockingTool::Measure, "measure"),
        (BlockingTool::Profile, "profile"),
        (BlockingTool::ProfileQuery, "profile_query"),
        (BlockingTool::CodegenBuild, "build"),
        (BlockingTool::CodegenBenchmark, "benchmark"),
        (BlockingTool::CodegenLmEval, "lm_eval"),
        (BlockingTool::CodegenProfile, "profile"),
        (BlockingTool::CodegenJobs, "jobs"),
        (BlockingTool::FetchLog, "fetch_log"),
        (BlockingTool::FetchTrace, "fetch_trace"),
    ] {
        let line = format!(r#"{{"status":"error","error":"{task} task failed: x"}}"#);
        assert_eq!(lost(tool), line);
        assert_eq!(tool.reply(Ok("done".to_string())), "done");
    }
    assert_eq!(trace_reply(Ok("{}".to_string())), "{}");
    assert_eq!(trace_reply(Err("e".to_string())), r#"{"status":"error","error":"e"}"#);
    let issue = |raw| JiraGetIssueArgs { issue_key: "P-1".to_string(), raw };
    assert_eq!(issue(true).form(), IssueForm::Raw);
    assert_eq!(issue(false).form(), IssueForm::Curated { max_chars: 12_000 });
    assert_eq!(capture_reply(Ok(ApprovalState::Pending)), r#"{"state":"pending"}"#);
    assert_eq!(capture_reply(Ok(ApprovalState::Approved)), r#"{"state":"approved"}"#);
    assert_eq!(capture_reply(Ok(ApprovalState::Denied)), r#"{"state":"denied"}"#);
    assert_eq!(
        capture_reply(Err("gone".to_string())),
        r#"{"state":"error","error":"gone"}"#
    );
    assert_eq!(comment_reply("17", "http://j/B-1"), r#"{"id":"17","url":"http://j/B-1"}"#);
    assert_eq!(default_profile_seconds(), 10);
    assert_eq!(default_jira_limit(), 25);
    assert_eq!(default_build_mode(), "derive");
}

#[test]
fn distress_needs_a_reason() {
    let args = |reason: &str| DistressArgs {
        severity: Severity::Error,
        reason: reason.to_string(),
        evidence: Vec::new(),
    };
    assert_eq!(
        distress_refusal(&args(" \n")).unwrap(),
        json_err("reason must be non-empty: say what the operator has to fix")
    );
    assert!(distress_refusal(&args("disk full")).is_none());
    assert_eq!(distress_reply(TaskOutcome::Reply { text: "ok".to_string() }), "ok");
    assert_eq!(
        distress_reply(TaskOutcome::Failed { error: "e".to_string() }),
        json_err("e")
    );
    assert_eq!(
        distress_reply(TaskOutcome::Lost { error: "e".to_string() }),
        json_err("distress task failed: e")
    );
}

#[test]
fn approvals_are_routed_by_the_environment() {
    let control = choose_approval(&text("control"), text("f"), None);
    assert!(matches!(control, ApprovalRoute::Control));
    assert_eq!(control.channel(), ApprovalChannel::ControlChannel);
    match choose_approval(&text("other"), None, None) {
        ApprovalRoute::DraftPr { repo, base } => {
            assert_eq!((repo.as_str(), base.as_str()), ("wseaton/llm-d-router", "main"))
        }
        ApprovalRoute::Control => panic!("only `control` selects the bridge"),
    }
    match choose_approval(&None, text("o/r"), text("dev")) {
        ApprovalRoute::DraftPr { repo, base } => {
            assert_eq!((repo.as_str(), base.as_str()), ("o/r", "dev"))
        }
        ApprovalRoute::Control => panic!("only `control` selects the bridge"),
    }
    assert!(watches_approval(true, ApprovalChannel::DraftPr));
    assert!(!watches_approval(true, ApprovalChannel::ControlChannel));
    assert!(!watches_approval(false, ApprovalChannel::DraftPr));
}

fn env() -> ApprovalEnv {
    ApprovalEnv { approval: None, fork: None, base: None }
}

fn tool(name: &str) -> ListedTool {
    ListedTool {
        name: name.to_string(),
        description: Some(format!("about {name}")),
        definition: format!("{{\"of\":\"{name}\"}}"),
    }
}

fn own() -> Vec<ListedTool> {
    vec![tool("measure"), tool("hard_eval_ping"), tool("build_epp")]
}

fn names(server: &McpServer) -> Vec<&str> {
    server.list_tools().iter().map(|tool| tool.name.as_str()).collect()
}

#[test]
fn server_without_services_cannot_collide() {
    let server = McpServer::new(env(), true, own());
    assert!(server.degraded_headless);
    assert_eq!(names(&server), ["build_epp", "hard_eval_ping", "measure"]);
    assert_eq!(server.get_tool("measure").unwrap().definition, "{\"of\":\"measure\"}");
    assert!(server.get_tool("nope").is_none());
}

#[test]
fn server_refuses_a_service_tool_under_a_taken_name() {
    let mut services = HardTools::empty();
    let service = Service {
        name: "eval".to_string(),
        url: "http://e/mcp".to_string(),
        bearer_token: None,
    };
    services.add_service(service, vec![tool("list"), tool("ping")]);
    let err = McpServer::new_with_hard_tools(env(), false, own(), &services).unwrap_err();
    assert_eq!(err.message(), "nm-hard-tools tool name collision: hard_eval_ping");
    let own = vec![tool("zeta"), tool("distress")];
    let server = McpServer::new_with_hard_tools(env(), false, own, &services).unwrap();
    assert_eq!(names(&server), ["distress", "hard_eval_list", "hard_eval_ping", "zeta"]);
}

#[test]
fn listed_tools_are_found_with_the_same_definition() {
    let mut services = HardTools::empty();
    let service = Service {
        name: "eval".to_string(),
        url: "http://e/mcp".to_string(),
        bearer_token: None,
    };
    services.add_service(service, vec![tool("ping")]);
    let own = vec![tool("measure"), tool("distress")];
    let server = McpServer::new_with_hard_tools(env(), false, own, &services).unwrap();
    assert_eq!(names(&server), ["distress", "hard_eval_ping", "measure"]);
    for listed in server.list_tools() {
        let found = server.get_tool(&listed.name).unwrap();
        assert_eq!(found.name, listed.name);
        assert_eq!(found.description, listed.description);
        assert_eq!(found.definition, listed.definition);
    }
    let ping = server.get_tool("hard_eval_ping").unwrap();
    assert_eq!(ping.definition, "{\"of\":\"ping\"}");
    assert_eq!(ping.description.as_deref(), Some("nm-hard-tools service `eval`: about ping"));
    assert_eq!(server.get_tool("distress").unwrap().description.as_deref(), Some("about distress"));
}

#[test]
fn replies_stay_json_whatever_the_message() {
    let message = "no \"route\"\nto \\host";
    let read = |reply: String| -> serde_json::Value { serde_json::from_str(&reply).unwrap() };
    let lost = read(BlockingTool::Measure.reply(Err(message.to_string())));
    assert_eq!(lost["status"], "error");
    assert_eq!(lost["error"], format!("measure task failed: {message}"));
    assert_eq!(read(task_failed("build", message))["error"], format!("build task failed: {message}"));
    assert_eq!(read(trace_reply(Err(message.to_string())))["error"], message);
    let polled = read(capture_reply(Err(message.to_string())));
    assert_eq!((&polled["state"], &polled["error"]), (&"error".into(), &message.into()));
    let posted = read(comment_reply("1\"7", message));
    assert_eq!((&posted["id"], &posted["url"]), (&"1\"7".into(), &message.into()));
    // Each of them is recorded as a failure.
    let attrs = reply_attrs(&BlockingTool::Profile.reply(Err(message.to_string())));
    assert_eq!(found(&attrs, "otel.status_code"), Some("ERROR"));
}

#[test]
fn error_replies_escape_their_message() {
    assert_eq!(
        json_err("\u{0}\u{8}\t\n\u{b}\u{c}\r\u{1f} \"\\/\u{7f}é"),
        "{\"status\":\"error\",\"error\":\"\\u0000\\b\\t\\n\\u000b\\f\\r\\u001f \\\"\\\\/\u{7f}é\"}"
    );
}

#[test]
fn toggles_come_in_the_order_of_their_names() {
    let mut toggles: NameMap<String> = NameMap::new();
    toggles.insert("Z".to_string(), "1".to_string());
    toggles.insert("A".to_string(), "2".to_string());
    let args = CodegenBenchmarkArgs { digest: "d".to_string(), toggles, reps: None };
    assert_eq!(
        args.toggle_pairs(),
        vec![("A".to_string(), "2".to_string()), ("Z".to_string(), "1".to_string())]
    );
}

#[test]
fn startup_reads_its_variables() {
    assert_eq!(bind_address(None), "0.0.0.0:8849");
    assert_eq!(bind_address(text("h:1")), "h:1");
    for (value, on) in [(text("1"), true), (text("true"), true), (text("True"), false), (None, false)] {
        assert_eq!(switched_on(&value), on);
    }
    assert_eq!(hard_tools_config(text("[]")).as_deref(), Some("[]"));
    assert_eq!(hard_tools_config(text("  ")), None);
    assert_eq!(hard_tools_config(None), None);
    assert_eq!(
        listening_line("0.0.0.0:8849"),
        "crucible-broker listening on http://0.0.0.0:8849/mcp"
    );
    assert!(matches!(spoke_target(None, None, None), KubeTarget::Ambient));
    assert!(matches!(
        spoke_target(None, None, text("http://p")),
        KubeTarget::Kubeconfig { path: None, context: None, proxy_url: Some(p) } if p == "http://p"
    ));
    let failed = run_spoke_smoke(Err("no \"route\"".to_string()), "s", "public");
    assert!(failed.failed);
    assert_eq!(
        failed.line,
        r#"{"status":"error","spoke":"s","tier":"public","error":"no \"route\""}"#
    );
    let fine = run_spoke_smoke(Ok("{}".to_string()), "s", "public");
    assert!(!fine.failed && fine.line == "{}");
}
