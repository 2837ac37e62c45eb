use crucible::hard_tools::{
    called_result, discovered_tools, failure_text, listed_tools, next_request, plan_request, read_envelope,
    read_response, resolve_bearer_token, routed_reply, tools_among, Discovery, HardTools, HardToolsError,
    HttpStatus, RequestIds, ResponseBuffer, RpcCall, Service, MAX_RESPONSE_BYTES, PROTOCOL_VERSION,
};
use crucible::json::{JsonKind, Member};
use crucible::manifest::HardToolCfg;
use crucible::routes::{ListedTool, ToolRoutes};

fn service(token: Option<&str>) -> Service {
    Service {
        name: "eval".to_string(),
        url: "http://e/mcp".to_string(),
        bearer_token: token.map(|t| t.to_string()),
    }
}

fn status(code: u16) -> HttpStatus {
    HttpStatus::from_u16(code).unwrap()
}

#[test]
fn tools_are_exposed_under_prefixed_names() {
    let mut registry = HardTools::empty();
    registry.add_service(
        service(None),
        vec![
            ListedTool {
                name: "ping".to_string(),
                description: Some("Return pong.".to_string()),
                definition: r#"{"annotations":{"readOnlyHint":true}}"#.to_string(),
            },
            ListedTool {
                name: "plan_evaluation".to_string(),
                description: None,
                definition: "{}".to_string(),
            },
        ],
    );
    assert_eq!(registry.tools().len(), 2);
    assert_eq!(registry.tools()[0].exposed_name, "hard_eval_ping");
    assert_eq!(registry.tools()[0].upstream_name, "ping");
    assert_eq!(registry.tools()[0].description, "nm-hard-tools service `eval`: Return pong.");
    assert_eq!(
        registry.tools()[0].definition, r#"{"annotations":{"readOnlyHint":true}}"#,
        "the rest of the definition is preserved"
    );
    assert_eq!(registry.tools()[1].exposed_name, "hard_eval_plan_evaluation");
    assert_eq!(registry.tools()[1].description, "nm-hard-tools service `eval`: ");
    assert_eq!(registry.services()[registry.tools()[1].service].url, "http://e/mcp");
}

#[test]
fn colliding_names_stop_the_installation() {
    let mut registry = HardTools::empty();
    let tool = |name: &str| ListedTool {
        name: name.to_string(),
        description: None,
        definition: String::new(),
    };
    let mut first = service(None);
    first.name = "a".to_string();
    let mut second = service(None);
    second.name = "a_b".to_string();
    registry.add_service(first, vec![tool("x"), tool("b_c")]);
    registry.add_service(second, vec![tool("c")]);
    let mut routes = ToolRoutes::new();
    routes.add_route(tool("measure"));
    let err = registry.install(&mut routes).unwrap_err();
    assert!(matches!(&err, HardToolsError::ToolNameCollision { name } if name == "hard_a_b_c"));
    let names: Vec<&str> = routes.list_all().iter().map(|t| t.name.as_str()).collect();
    assert_eq!(names, ["hard_a_b_c", "hard_a_x", "measure"], "the first two stay");
    assert!(HardTools::empty().install(&mut routes).is_ok());
    assert!(routes.has_route("measure") && !routes.has_route("hard_a_b_c_"));
}

#[test]
fn bearer_tokens_are_resolved_or_refused() {
    let var = Some("TOK".to_string());
    assert_eq!(resolve_bearer_token("s", &None, &None).unwrap(), None);
    assert_eq!(
        resolve_bearer_token("s", &var, &Some(" abc\n".to_string())).unwrap().as_deref(),
        Some("abc")
    );
    assert_eq!(
        resolve_bearer_token("s", &var, &None).unwrap_err().message(),
        "nm-hard-tools service \"s\" requires environment variable \"TOK\""
    );
    assert_eq!(
        resolve_bearer_token("s", &var, &Some(" ".to_string())).unwrap_err().message(),
        "nm-hard-tools service \"s\" has an empty bearer token"
    );
}

#[test]
fn requests_carry_the_protocol() {
    let plan = plan_request(&service(Some("tok")), 7, &RpcCall::ListTools, "0.1.0");
    assert_eq!(plan.url, "http://e/mcp");
    assert_eq!(plan.bearer_token.as_deref(), Some("tok"));
    let header = |plan: &crucible::hard_tools::RequestPlan, name: &str| {
        plan.headers.iter().find(|(k, _)| k == name).map(|(_, v)| v.clone())
    };
    assert_eq!(header(&plan, "mcp-protocol-version").as_deref(), Some(PROTOCOL_VERSION));
    assert_eq!(header(&plan, "mcp-method").as_deref(), Some("tools/list"));
    assert_eq!(header(&plan, "accept").as_deref(), Some("application/json, text/event-stream"));
    assert_eq!(header(&plan, "content-type").as_deref(), Some("application/json"));
    assert_eq!(header(&plan, "mcp-name"), None);
    let body: serde_json::Value = serde_json::from_str(&plan.body).unwrap();
    assert_eq!(body["jsonrpc"], "2.0");
    assert_eq!(body["id"], 7);
    assert_eq!(body["method"], "tools/list");
    let meta = &body["params"]["_meta"];
    assert_eq!(meta["io.modelcontextprotocol/protocolVersion"], "2026-07-28");
    assert_eq!(meta["io.modelcontextprotocol/clientInfo"]["name"], "crucible-broker");
    assert_eq!(meta["io.modelcontextprotocol/clientInfo"]["version"], "0.1.0");
    assert!(meta["io.modelcontextprotocol/clientCapabilities"].as_object().unwrap().is_empty());

    let call = RpcCall::CallTool {
        name: "pi\"ng".to_string(),
        arguments: r#"{"a":[1,2]}"#.to_string(),
    };
    let plan = plan_request(&service(None), 18446744073709551615, &call, "v");
    assert_eq!(plan.bearer_token, None);
    assert_eq!(header(&plan, "mcp-method").as_deref(), Some("tools/call"));
    assert_eq!(header(&plan, "mcp-name").as_deref(), Some("pi\"ng"));
    let body: serde_json::Value = serde_json::from_str(&plan.body).unwrap();
    assert_eq!(body["id"].as_u64(), Some(18446744073709551615));
    assert_eq!(body["params"]["name"], "pi\"ng");
    assert_eq!(body["params"]["arguments"]["a"][1], 2);
    assert_eq!(
        body["params"]["_meta"]["io.modelcontextprotocol/protocolVersion"],
        PROTOCOL_VERSION
    );
}

#[test]
fn responses_are_bounded() {
    let too_large = |r: Result<ResponseBuffer, HardToolsError>| {
        matches!(r, Err(HardToolsError::ResponseTooLarge))
    };
    assert!(too_large(ResponseBuffer::start(Some(MAX_RESPONSE_BYTES as u64 + 1))));
    assert!(ResponseBuffer::start(Some(MAX_RESPONSE_BYTES as u64)).is_ok());
    let mut buffer = ResponseBuffer::start(None).unwrap();
    buffer.push_chunk(b"ab").unwrap();
    buffer.push_chunk(b"c").unwrap();
    assert_eq!(buffer.bytes(), b"abc");
    let rest = vec![0u8; MAX_RESPONSE_BYTES - 2];
    assert_eq!(
        buffer.push_chunk(&rest).unwrap_err().message(),
        "MCP response exceeds the 2097152-byte limit"
    );
    assert_eq!(buffer.bytes(), b"abc", "a refused chunk leaves nothing behind");
    buffer.push_chunk(&rest[1..]).unwrap();
    assert_eq!(buffer.bytes().len(), MAX_RESPONSE_BYTES);
}

#[test]
fn results_are_taken_from_matching_responses_only() {
    let read = |code: u16, body: &str| {
        read_response(3, status(code), &body.as_bytes().to_vec()).map_err(|e| e.message())
    };
    assert_eq!(
        read(200, r#"{"jsonrpc":"2.0","id":3,"result":{"tools":[{"name":"ping"}]}}"#).unwrap(),
        r#"{"tools":[{"name":"ping"}]}"#
    );
    for wrong in [
        r#"{"id":4,"result":1}"#,
        r#"{"id":"3","result":1}"#,
        r#"{"id":3.0,"result":1}"#,
        r#"{"result":1}"#,
        "[3]",
    ] {
        assert_eq!(
            read(200, wrong).unwrap_err(),
            "MCP JSON-RPC response id did not match request 3",
            "{wrong}"
        );
    }
    assert_eq!(
        read(500, r#"{"id":3,"error":{"code":-1,"message":"no"},"result":1}"#).unwrap_err(),
        r#"upstream returned HTTP 500 Internal Server Error: {"code":-1,"message":"no"}"#
    );
    assert_eq!(
        read(200, r#"{"id":3,"error":null}"#).unwrap_err(),
        "upstream returned HTTP 200 OK: null"
    );
    assert_eq!(read(302, r#"{"id":3,"result":1}"#).unwrap_err(), "upstream returned HTTP 302 Found");
    assert_eq!(read(200, r#"{"id":3}"#).unwrap_err(), "MCP JSON-RPC response omitted result");
    assert_eq!(read(200, "not json").unwrap_err(), "decoding MCP JSON-RPC response");
    assert!(matches!(
        read_response(3, status(200), &b"{".to_vec()),
        Err(HardToolsError::Undecodable { .. })
    ));
    assert_eq!(read(204, r#"{"id":3,"result":null}"#).unwrap(), "null");
}

#[test]
fn envelopes_are_read_from_their_members() {
    let member = |key: &str, json: &str, kind: JsonKind| Member {
        key: key.to_string(),
        json: json.to_string(),
        kind,
    };
    let id = member("id", "3", JsonKind::Number { unsigned: Some(3) });
    let members = vec![id, member("result", "[]", JsonKind::Array)];
    assert_eq!(read_envelope(3, status(299), &members).unwrap(), "[]");
    assert!(matches!(
        read_envelope(3, status(300), &members),
        Err(HardToolsError::Http { status }) if status.as_u16() == 300
    ));
    assert!(matches!(
        read_envelope(4, status(200), &members),
        Err(HardToolsError::ResponseIdMismatch { request_id: 4 })
    ));
    let tools = vec![member("tools", "[1]", JsonKind::Array)];
    assert_eq!(tools_among(&tools).unwrap(), "[1]");
}

#[test]
fn tool_lists_are_taken_from_the_result() {
    assert_eq!(listed_tools(r#"{"tools":[{"name":"ping"}]}"#).unwrap(), r#"[{"name":"ping"}]"#);
    assert_eq!(
        listed_tools(r#"{"tool":[]}"#).unwrap_err().message(),
        "tools/list result omitted tools"
    );
    assert!(matches!(listed_tools("[]"), Err(HardToolsError::MissingTools)));
    assert!(matches!(listed_tools("{"), Err(HardToolsError::Undecodable { .. })));
}

#[test]
fn statuses_have_their_range_and_phrase() {
    assert!(HttpStatus::from_u16(99).is_none());
    assert!(HttpStatus::from_u16(1000).is_none());
    assert_eq!(status(404).line(), "404 Not Found");
    assert_eq!(status(999).line(), "999 <unknown status code>");
    assert!(status(200).is_success() && status(299).is_success());
    assert!(!status(199).is_success() && !status(300).is_success());
}

#[test]
fn exposed_tools_are_forwarded_under_their_own_name() {
    let mut registry = HardTools::empty();
    registry.add_service(
        service(None),
        vec![ListedTool {
            name: "ping".to_string(),
            description: None,
            definition: "{}".to_string(),
        }],
    );
    let tool = &registry.tools()[0];
    for (given, sent) in [(Some("{\"a\":1}"), "{\"a\":1}"), (None, "{}")] {
        let call = tool.forwarded(given.map(|g| g.to_string()));
        assert!(matches!(
            &call,
            RpcCall::CallTool { name, arguments } if name == "ping" && arguments == sent
        ));
    }
    assert_eq!(routed_reply("eval", Ok::<i32, String>(7)), Ok(7));
    assert_eq!(
        routed_reply("eval", Err::<i32, String>("refused".to_string())),
        Err("nm-hard-tools service \"eval\" failed: refused".to_string())
    );
}

#[test]
fn failures_name_the_service() {
    assert_eq!(
        failure_text("eval", "POST http://e/mcp: refused"),
        "nm-hard-tools service \"eval\" failed: POST http://e/mcp: refused"
    );
}

#[test]
fn discovery_asks_the_services_in_order_and_fails_closed() {
    let config = |name: &str, env: Option<&str>| HardToolCfg {
        name: name.to_string(),
        url: format!("http://{name}/mcp"),
        bearer_token_env: env.map(|e| e.to_string()),
    };
    let mut discovery = Discovery::start(vec![config("a", None), config("b", Some("TOK"))]);
    assert_eq!(discovery.pending().unwrap().name, "a");
    let service = discovery.next_service(&None).unwrap().unwrap();
    assert_eq!((service.name.as_str(), service.url.as_str()), ("a", "http://a/mcp"));
    assert!(service.bearer_token.is_none());
    let tool = |name: &str| ListedTool {
        name: name.to_string(),
        description: None,
        definition: String::new(),
    };
    discovery.listed(service, vec![tool("x"), tool("y")]);
    assert_eq!(discovery.pending().unwrap().name, "b");
    assert!(discovery.next_service(&None).is_err(), "its token is missing");
    assert!(discovery.next_service(&Some("  ".to_string())).is_err());
    let service = discovery.next_service(&Some("t ".to_string())).unwrap().unwrap();
    assert_eq!(service.bearer_token.as_deref(), Some("t"));
    discovery.listed(service, vec![tool("x")]);
    assert!(discovery.pending().is_none());
    assert!(discovery.next_service(&None).unwrap().is_none());
    let found = discovery.finish();
    let names: Vec<&str> = found.tools().iter().map(|t| t.exposed_name.as_str()).collect();
    assert_eq!(names, ["hard_a_x", "hard_a_y", "hard_b_x"]);
    assert_eq!(found.tools()[2].service, 1);
}

#[test]
fn discovery_takes_over_the_definitions_that_a_service_lists() {
    let mut discovery = Discovery::start(vec![HardToolCfg {
        name: "eval".to_string(),
        url: "http://e/mcp".to_string(),
        bearer_token_env: None,
    }]);
    for (bad, message) in [
        ("[]", "tools/list result omitted tools"),
        ("{", "decoding MCP JSON-RPC response"),
        (r#"{"tools":[{"name":"ping"}]}"#, "decoding nm-hard-tools tool definitions"),
        (r#"{"tools":{}}"#, "decoding nm-hard-tools tool definitions"),
    ] {
        let service = discovery.next_service(&None).unwrap().unwrap();
        assert_eq!(discovery.answered(service, bad).unwrap_err().message(), message);
        assert!(discovery.pending().is_some(), "a refused answer leaves nothing behind");
    }
    let result = r#"{"tools":[{
        "name": "ping",
        "description": "Return pong.",
        "inputSchema": {"type": "object", "additionalProperties": false},
        "annotations": {"readOnlyHint": true}
    }, {"inputSchema": {}, "name": "bare"}]}"#;
    let service = discovery.next_service(&None).unwrap().unwrap();
    discovery.answered(service, result).unwrap();
    assert!(discovery.pending().is_none());
    let found = discovery.finish();
    assert_eq!(found.services()[0].name, "eval");
    assert_eq!(found.tools().len(), 2);
    let ping = &found.tools()[0];
    assert_eq!(ping.exposed_name, "hard_eval_ping");
    assert_eq!(ping.upstream_name, "ping");
    assert_eq!(ping.description, "nm-hard-tools service `eval`: Return pong.");
    let definition: serde_json::Value = serde_json::from_str(&ping.definition).unwrap();
    assert_eq!(definition["inputSchema"]["additionalProperties"], false);
    assert_eq!(definition["annotations"]["readOnlyHint"], true);
    assert_eq!(found.tools()[1].description, "nm-hard-tools service `eval`: ");
}

#[test]
fn tool_definitions_are_decoded_in_their_order() {
    let list = discovered_tools(
        r#"{"tools":[{"name":"b","inputSchema":{}},{"name":"a","description":"d","inputSchema":{"x":1}}]}"#,
    )
    .unwrap();
    let names: Vec<&str> = list.iter().map(|t| t.name.as_str()).collect();
    assert_eq!(names, ["b", "a"]);
    assert_eq!(list[0].description, None);
    assert_eq!(list[1].description.as_deref(), Some("d"));
    assert_eq!(list[0].definition, r#"{"name":"b","inputSchema":{}}"#);
    assert_eq!(list[1].definition, r#"{"name":"a","description":"d","inputSchema":{"x":1}}"#);
    assert!(matches!(
        discovered_tools(r#"{"tools":[{"name":"b","inputSchema":{}},{}]}"#),
        Err(HardToolsError::BadDefinitions { .. })
    ));
    assert!(discovered_tools(r#"{"tools":[]}"#).unwrap().is_empty());
}

#[test]
fn results_of_calls_are_decoded() {
    let answer = r#"{
        "content": [{"type": "text", "text": "pong"}],
        "structuredContent": {"value": "pong"},
        "isError": false, "unknown": 1
    }"#;
    let read: serde_json::Value = serde_json::from_str(&called_result(answer).unwrap()).unwrap();
    assert_eq!(read["structuredContent"]["value"], "pong");
    assert_eq!(read["content"][0]["text"], "pong");
    assert_eq!(read["isError"], false);
    assert!(read.get("unknown").is_none());
    for bad in ["{}", "[]", "{", r#"{"content": 1}"#] {
        let error = called_result(bad).unwrap_err();
        assert!(matches!(error, HardToolsError::BadResult { .. }), "{bad}");
        assert_eq!(error.message(), "decoding nm-hard-tools tool result");
    }
}

#[test]
fn request_ids_count_up_from_one() {
    let mut ids = RequestIds::new();
    let target = service(None);
    let (id, plan) = next_request(&target, &mut ids, &RpcCall::ListTools, "v");
    assert_eq!(id, 1);
    let body: serde_json::Value = serde_json::from_str(&plan.body).unwrap();
    assert_eq!(body["id"], 1);
    assert!(read_response(id, status(500), &b"{}".to_vec()).is_err());
    let (id, plan) = next_request(&target, &mut ids, &RpcCall::ListTools, "v");
    assert_eq!(id, 2, "a failure gives no id back");
    let body: serde_json::Value = serde_json::from_str(&plan.body).unwrap();
    assert_eq!(body["id"], 2);
    assert_eq!((ids.take(), ids.take()), (3, 4));
}
