use crucible::manifest::error::ManifestError;
use crucible::manifest::hard_tools::HardToolConfigError;
use crucible::manifest::frozen::{frozen_manifest_text, FrozenLocation};
use crucible::manifest::inject::{apply_inject, inject_parent, Destination, InjectStep};
use crucible::manifest::load::LoadError;
use crucible::manifest::methods::{component_context, parse_direction, ComponentsError};
use crucible::manifest::shape::{is_composite, names_composite};
use crucible::manifest::types::{default_backend, default_model, default_true};
use crucible::manifest::validate::{validate_carry_forward, TableVerdicts};
use crucible::manifest::workflow::{compile_context, refuse_unconsumable, ResolveError};
use crucible::manifest::{
    AgentCfg, Artifact, BrokerCfg, CodexCfg, ComponentRef, CompositeCfg, CompositeManifest,
    Direction, HardToolCfg, Harness, HarnessModels, HermesCfg, Inject, JudgeCfg, Manifest,
    OpaqueTable, PublishCfg, Refusal, Repo, ResolvedComponent, WorkflowCfg, WorkflowType,
    Workspace, WorldCfg,
};
use crucible::names::NameMap;

fn agent(backend: &str, agent_cmd: &str, goal: &str) -> AgentCfg {
    AgentCfg {
        model: default_model(&models()),
        harness: Harness::default(),
        hermes: HermesCfg::default(),
        codex: CodexCfg::default(),
        reasoning_effort: None,
        disallowed_tools: Vec::new(),
        method_prompt: None,
        goal: Some(goal.to_string()),
        goal_file: None,
        seed_diff: None,
        toolbox_dir: None,
        toolbox_exclude: Vec::new(),
        backend: backend.to_string(),
        sandbox_image: None,
        agent_cmd: Some(agent_cmd.to_string()),
        env: NameMap::new(),
        relay: Vec::new(),
        openshell: None,
        broker: BrokerCfg::default(),
    }
}

fn models() -> HarnessModels {
    HarnessModels {
        claude: "model-a".to_string(),
        hermes: "model-b".to_string(),
        codex: "model-c".to_string(),
    }
}

fn judge(measure_cmd: &str, direction: &str, objective: &str) -> JudgeCfg {
    JudgeCfg {
        measure_cmd: measure_cmd.to_string(),
        direction: direction.to_string(),
        tiebreak_direction: None,
        objective: objective.to_string(),
        selftest: None,
    }
}

fn world() -> WorldCfg {
    WorldCfg { apply_cmd: None, snapshot_cmd: None, restore_cmd: None }
}

fn manifest(judge: Option<JudgeCfg>) -> Manifest {
    Manifest {
        repo: Repo { url: None, path: Some(".".to_string()), git_ref: None },
        workspace: Workspace::default(),
        agent: agent("command", "true", "g"),
        judge,
        world: world(),
        deploy: None,
        search: None,
        workflow: None,
        publish: None,
        build: NameMap::new(),
        measure: None,
        preflight: None,
    }
}

fn composite(domains: &[(&str, Option<&str>)]) -> CompositeManifest {
    CompositeManifest {
        composite: CompositeCfg { name: "x".to_string() },
        workspace: Workspace::default(),
        components: domains
            .iter()
            .map(|(domain, fork)| ComponentRef {
                domain: domain.to_string(),
                workspace_dir: None,
                pr_repo: fork.map(|f| f.to_string()),
            })
            .collect(),
        agent: agent("local", "", "g"),
        judge: judge("m", "higher", "score"),
        world: world(),
        deploy: NameMap::new(),
        search: None,
        workflow: None,
        build: NameMap::new(),
        measure: None,
        preflight: None,
    }
}

fn table(text: &str) -> Option<OpaqueTable> {
    Some(OpaqueTable { text: text.to_string() })
}

fn inline(workflow_type: WorkflowType) -> Option<WorkflowCfg> {
    Some(WorkflowCfg {
        workflow_type,
        file: None,
        graph: Some("t".to_string()),
        resolved_from: None,
    })
}

fn named(workflow_type: WorkflowType, file: &str) -> Option<WorkflowCfg> {
    Some(WorkflowCfg {
        workflow_type,
        file: Some(file.to_string()),
        graph: None,
        resolved_from: None,
    })
}

fn refusal(m: &Manifest) -> String {
    m.validate(&TableVerdicts::accepting()).expect_err("must be refused").message()
}

#[test]
fn parses_and_validates_a_broker_owned_hard_tools_service() {
    let mut m = manifest(Some(judge("./measure", "higher", "score")));
    m.agent.broker.enabled = true;
    m.agent.broker.bin = "crucible-broker".to_string();
    m.agent.broker.hard_tool.push(HardToolCfg {
        name: "eval".to_string(),
        url: "http://hard-eval.eval.svc:8080/mcp".to_string(),
        bearer_token_env: Some("HARD_EVAL_TOKEN".to_string()),
    });
    m.validate(&TableVerdicts::accepting()).unwrap();
    let service = &m.agent.broker.hard_tool[0];
    assert_eq!(service.name, "eval");
    assert_eq!(service.bearer_token_env.as_deref(), Some("HARD_EVAL_TOKEN"));
}

#[test]
fn refuses_hard_tools_without_the_privileged_broker() {
    let mut m = manifest(Some(judge("./measure", "higher", "score")));
    m.agent.broker.enabled = false;
    m.agent.broker.bin = "crucible-broker".to_string();
    m.agent.broker.hard_tool.push(HardToolCfg {
        name: "eval".to_string(),
        url: "http://hard-eval.eval.svc:8080/mcp".to_string(),
        bearer_token_env: Some("HARD_EVAL_TOKEN".to_string()),
    });
    let error = refusal(&m);
    assert!(error.contains("requires [agent.broker].enabled = true"));
}

#[test]
fn each_fault_of_a_service_is_reported() {
    let service = |name: &str, url: &str, env: Option<&str>| HardToolCfg {
        name: name.to_string(),
        url: url.to_string(),
        bearer_token_env: env.map(|e| e.to_string()),
    };
    let check = |services: Vec<HardToolCfg>| {
        crucible::manifest::hard_tools::validate(&services, true).unwrap_err()
    };
    let ok = "http://a/mcp";
    let e = check(vec![service(" \t", ok, None)]);
    assert!(matches!(e, HardToolConfigError::EmptyName));
    assert_eq!(e.message(), "[[agent.broker.hard_tool]].name must not be empty");
    let e = check(vec![service("a b", ok, None)]);
    assert_eq!(
        e.message(),
        "nm-hard-tools service name \"a b\" may contain only ASCII letters, digits, '_' and '-'"
    );
    let e = check(vec![service("a", ok, None), service("b", ok, None), service("a", "bad", None)]);
    assert!(matches!(&e, HardToolConfigError::DuplicateName { name } if name == "a"));
    assert_eq!(e.message(), "duplicate nm-hard-tools service name \"a\"");
    let e = check(vec![service("a", "http://h:x/", Some(""))]);
    assert_eq!(
        e.message(),
        "invalid nm-hard-tools service URL for \"a\": invalid port in broker URL \"http://h:x/\""
    );
    let e = check(vec![service("a", ok, Some("  "))]);
    assert_eq!(e.message(), "nm-hard-tools service \"a\" has an empty bearer_token_env");
    assert!(crucible::manifest::hard_tools::validate(
        &vec![service("a-B_9", ok, Some("T")), service("b", ok, None)],
        true
    )
    .is_ok());
    assert!(crucible::manifest::hard_tools::validate(&Vec::new(), false).is_ok());
}

#[test]
fn an_unset_model_derives_from_the_default_harness() {
    assert_eq!(default_model(&models()), Harness::Claude.default_model(&models()));
    let mut a = agent("command", "./bump.nu", "g");
    a.harness = Harness::Codex;
    assert_eq!(a.harness, Harness::Codex);
    assert_eq!(a.model, Harness::Claude.default_model(&models()));
    assert_ne!(a.model, Harness::Codex.default_model(&models()));
    assert!(a.codex.model.is_none());
}

#[test]
fn parses_a_minimal_gitworld_manifest() {
    let m = manifest(Some(judge("./measure.nu", "higher", "value")));
    assert_eq!(m.judge.as_ref().unwrap().measure_cmd, "./measure.nu");
    assert_eq!(m.direction().unwrap(), Direction::Higher);
    assert_eq!(m.workspace.dir, "workspace"); // default
    assert!(m.world.snapshot_cmd.is_none(), "no [world] -> GitWorld");
    assert!(m.publish.is_none(), "no [publish] -> no PR target");
    assert!(!m.is_task(), "a [judge] manifest is not a task");
}

#[test]
fn no_judge_is_the_task_lane() {
    let m = manifest(None);
    m.validate(&TableVerdicts::accepting()).expect("a judge-less manifest is valid");
    assert!(m.is_task());
    assert!(m.direction().is_err(), "no [judge] -> no direction");
    assert!(m.require_judge().is_err());
    assert_eq!(
        m.require_judge().unwrap_err().message(),
        "manifest has no [judge] (task mode)"
    );
    assert!(m.tiebreak_direction().is_err());
}

#[test]
fn task_lane_rejects_search_workflow_and_preflight() {
    for which in ["[search]", "[workflow]", "[preflight]"] {
        let mut m = manifest(None);
        match which {
            "[search]" => m.search = table("wide = 2"),
            "[workflow]" => m.workflow = inline(WorkflowType::Custom),
            _ => m.preflight = table("commands = [\"true\"]"),
        }
        let err = refusal(&m);
        assert!(err.contains("requires a [judge]"), "{which}: {err}");
        assert!(err.starts_with(which), "{which}: {err}");
    }
}

#[test]
fn a_judgeless_manifest_admits_a_playbook_workflow_and_still_refuses_the_others() {
    let mut m = manifest(None);
    m.workflow = inline(WorkflowType::Playbook);
    m.validate(&TableVerdicts::accepting())
        .expect("a playbook is the one [workflow] the task lane takes");
    assert!(m.is_task(), "a playbook manifest is still judgeless");

    m.workflow = inline(WorkflowType::Custom);
    let err = refusal(&m);
    assert!(err.contains("requires a [judge]"), "{err}");
}

type Compiled = Result<(WorkflowCfg, TableVerdicts), String>;

#[test]
fn supplied_values_reach_the_compiler() {
    let mut supplied: NameMap<String> = NameMap::new();
    supplied.insert("mode".to_string(), "fast".to_string());
    let mut m = manifest(None);
    m.workflow = named(WorkflowType::Playbook, "graph.star");
    let compile = |source: String, params: &NameMap<String>| -> Compiled {
        assert_eq!(source, "d/graph.star");
        let mut graph = inline(WorkflowType::Playbook).unwrap();
        graph.graph = params.get("mode").cloned();
        Ok((graph, TableVerdicts::accepting()))
    };
    m.resolve_workflow_with("d", &supplied, compile).expect("compiles");
    assert_eq!(m.workflow.unwrap().graph.as_deref(), Some("fast"));
}

#[test]
fn a_manifest_may_name_its_workflow_source_instead_of_carrying_it() {
    let mut m = manifest(None);
    m.workflow = named(WorkflowType::Playbook, "graph.star");
    m.validate(&TableVerdicts::accepting()).expect("an unresolved manifest is valid");
    assert!(m.workflow.as_ref().unwrap().is_unresolved(), "the graph is still a path");
    let compile = |source: String, params: &NameMap<String>| -> Compiled {
        assert_eq!(source, "/pack/graph.star");
        assert!(params.is_empty());
        Ok((
            WorkflowCfg {
                workflow_type: WorkflowType::Playbook,
                file: None,
                graph: Some("a".to_string()),
                resolved_from: None,
            },
            TableVerdicts::accepting(),
        ))
    };
    m.resolve_workflow("/pack", compile).expect("compiles");
    let workflow = m.workflow.as_ref().unwrap();
    assert!(!workflow.is_unresolved());
    assert_eq!(workflow.graph.as_deref(), Some("a"));
    assert_eq!(workflow.resolved_from.as_deref(), Some("graph.star"));

    // Resolving again is a no-op, so a caller never has to ask whether it already ran.
    let again =
        |_: String, _: &NameMap<String>| -> Compiled { panic!("nothing is left to compile") };
    m.resolve_workflow("/pack", again).expect("idempotent");
    assert_eq!(m.workflow.as_ref().unwrap().graph.as_deref(), Some("a"));

    // The lane the source compiles must be the lane the manifest admitted.
    let mut mismatched = manifest(None);
    mismatched.workflow = named(WorkflowType::Custom, "graph.star");
    let err = mismatched.resolve_workflow("/pack", compile).expect_err("custom, playbook source");
    match err {
        ResolveError::Mismatch { error } => assert_eq!(
            error.message(),
            "[workflow].file compiled a Playbook workflow but the manifest declares Custom"
        ),
        other => panic!("{other:?}"),
    }
    assert!(mismatched.workflow.as_ref().unwrap().is_unresolved(), "left as it was");
}

#[test]
fn failed_compilations_and_refused_graphs_are_reported() {
    let mut m = manifest(None);
    m.workflow = named(WorkflowType::Playbook, "g.star");
    let broken =
        |_: String, _: &NameMap<String>| -> Compiled { Err("no such file".to_string()) };
    match m.resolve_workflow("d", broken) {
        Err(ResolveError::Compile { file, error }) => {
            assert_eq!((file.as_str(), error.as_str()), ("g.star", "no such file"));
            assert_eq!(compile_context(&file), "compiling [workflow].file = \"g.star\"");
        }
        other => panic!("{other:?}"),
    }
    assert!(m.workflow.as_ref().unwrap().is_unresolved());
    let refused = |_: String, _: &NameMap<String>| -> Compiled {
        let verdicts =
            TableVerdicts { workflow: Some("cycle".to_string()), ..TableVerdicts::accepting() };
        Ok((inline(WorkflowType::Playbook).unwrap(), verdicts))
    };
    match m.resolve_workflow("d", refused) {
        Err(ResolveError::Refused { refusal }) => assert_eq!(refusal.message(), "cycle"),
        other => panic!("{other:?}"),
    }
    assert_eq!(m.workflow.as_ref().unwrap().resolved_from.as_deref(), Some("g.star"));
}

#[test]
fn supplied_parameters_no_compilation_can_consume_are_refused() {
    let mut supplied: NameMap<String> = NameMap::new();
    supplied.insert("mode".to_string(), "fast".to_string());
    supplied.insert("depth".to_string(), "3".to_string());
    let compile = |_: String, _: &NameMap<String>| -> Compiled { panic!("nothing to compile") };
    let refused = |m: &mut Manifest| match m.resolve_workflow_with("d", &supplied, compile) {
        Err(ResolveError::Unconsumable { error }) => error.message(),
        other => panic!("{other:?}"),
    };

    let mut m = manifest(None);
    m.workflow = inline(WorkflowType::Playbook);
    let err = refused(&mut m);
    assert!(err.contains("depth, mode"), "{err}");

    let mut m = manifest(None);
    let err = refused(&mut m);
    assert!(err.contains("depth, mode"), "{err}");

    let mut m = manifest(None);
    m.workflow = inline(WorkflowType::Playbook);
    m.resolve_workflow_with("d", &NameMap::new(), compile)
        .expect("nothing supplied, nothing to refuse");
    assert_eq!(
        refuse_unconsumable(&supplied).unwrap_err().message(),
        "nothing can consume the supplied parameter(s) depth, mode: this manifest carries its \
         tasks inline or declares no [workflow], so there is no source to bind them against"
    );
}

#[test]
fn a_playbook_is_refused_beside_a_judge() {
    let mut m = manifest(Some(judge("true", "minimize", "latency")));
    m.workflow = inline(WorkflowType::Playbook);
    let err = refusal(&m);
    assert!(err.contains("remove [judge]"), "{err}");
}

#[test]
fn scored_judge_cannot_claim_the_task_objective() {
    let m = manifest(Some(judge("m", "higher", "task")));
    let err = refusal(&m);
    assert!(err.contains("reserved"), "{err}");
}

#[test]
fn parses_and_validates_workspace_carry_forward() {
    let load = |entries: &[&str]| {
        let mut m = manifest(Some(judge("m", "higher", "score")));
        m.workspace.carry_forward = entries.iter().map(|e| e.to_string()).collect();
        m.validate(&TableVerdicts::accepting()).map(|()| m)
    };
    let m = load(&["codegen-out/", "traces", "target/codegen"]).expect("valid carry_forward loads");
    assert_eq!(m.workspace.carry_forward, ["codegen-out/", "traces", "target/codegen"]);
    for bad in ["/etc", "../secrets", "out/../..", "/", "./codegen-out", "."] {
        let err = match load(&[bad]) {
            Err(e) => e.message(),
            Ok(_) => panic!("{bad} must be rejected"),
        };
        assert!(err.contains("carry_forward"), "{bad}: {err}");
    }
    let none = load(&[]).expect("absent key must load");
    assert!(none.workspace.carry_forward.is_empty(), "absent key = fresh start");
}

#[test]
fn carry_forward_entries_have_no_dot_component_anywhere() {
    for bad in ["", "a/./b", "a/.", "a/..", "..", "//"] {
        let err = validate_carry_forward(&vec!["ok".to_string(), bad.to_string()]).unwrap_err();
        assert!(matches!(&err, ManifestError::BadCarryForward { entry } if entry == bad), "{bad}");
        assert_eq!(
            err.message(),
            format!(
                "[workspace].carry_forward entry `{bad}` must be a non-empty workspace-relative \
                 path with no `.` or `..` component"
            )
        );
    }
    for good in ["a//b", ".hidden", "a.b/..c", "x/"] {
        validate_carry_forward(&vec![good.to_string()]).expect(good);
    }
}

#[test]
fn parses_validates_and_carries_workspace_artifacts() {
    let artifact = |path: &str, embed: Option<&str>, title: Option<&str>| Artifact {
        path: path.to_string(),
        embed: embed.map(|e| e.to_string()),
        upload: None,
        title: title.map(|t| t.to_string()),
    };
    let load = |artifacts: Vec<Artifact>| {
        let mut m = manifest(Some(judge("m", "higher", "score")));
        m.workspace.carry_forward = vec!["cross-trace/".to_string()];
        m.workspace.artifact = artifacts;
        m.validate(&TableVerdicts::accepting()).map(|()| m)
    };
    let m = load(vec![
        artifact("codegen-out/runtime", Some("summary.txt"), Some("Runtime investigation")),
        artifact("cross-trace/", None, None),
    ])
    .expect("valid artifact loads");
    assert_eq!(m.workspace.artifact.len(), 2);
    assert_eq!(m.workspace.artifact[0].embed.as_deref(), Some("summary.txt"));
    assert!(m.workspace.artifact[1].embed.is_none());
    // Artifact paths join the carried set, deduped against carry_forward.
    assert_eq!(m.workspace.carried_paths(), ["cross-trace/", "codegen-out/runtime"]);

    for (bad, needle) in [
        (artifact("../secrets", None, None), "carry_forward"),
        (artifact("out", Some("a/b.txt"), None), "embed"),
        (artifact("out", Some(""), None), "embed"),
    ] {
        let what = format!("{bad:?}");
        let err = match load(vec![bad]) {
            Err(e) => e.message(),
            Ok(_) => panic!("{what} must be rejected"),
        };
        assert!(err.contains(needle), "{what}: {err}");
    }
}

#[test]
fn artifact_paths_are_checked_before_any_name() {
    let mut m = manifest(Some(judge("m", "higher", "score")));
    m.workspace.artifact = vec![
        Artifact {
            path: "a".to_string(),
            embed: None,
            upload: Some("x\\y".to_string()),
            title: None,
        },
        Artifact { path: "/b".to_string(), embed: None, upload: None, title: None },
    ];
    assert!(refusal(&m).contains("`/b`"));
    m.workspace.artifact[1].path = "b".to_string();
    assert_eq!(
        refusal(&m),
        "[[workspace.artifact]] embed/upload `x\\y` must be a bare file name (no path separators)"
    );
}

#[test]
fn carried_paths_keep_what_is_declared_twice_forward() {
    let mut ws = Workspace::default();
    ws.carry_forward = vec!["a".to_string(), "a".to_string()];
    for p in ["b", "a", "b"] {
        ws.artifact.push(Artifact {
            path: p.to_string(),
            embed: None,
            upload: None,
            title: None,
        });
    }
    assert_eq!(ws.carried_paths(), ["a", "a", "b"]);
}

#[derive(Clone, Debug, PartialEq)]
enum Node {
    File(String),
    Dir,
    Link(String),
}

type Files = std::collections::BTreeMap<String, Node>;

/// Carries out an inject on files that are only written down.
fn inject(files: &mut Files, src: &str, dst: &str) -> Result<(), String> {
    let destination = match files.get(dst) {
        None => Destination::Missing,
        Some(node) => Destination::Entry {
            is_dir: *node == Node::Dir,
            is_symlink: matches!(node, Node::Link(_)),
        },
    };
    let same_file = src == dst || files.get(dst) == Some(&Node::Link(src.to_string()));
    match apply_inject(dst, destination, same_file).map_err(|e| e.message())? {
        InjectStep::Done => {}
        InjectStep::Uninspectable => return Err("uninspectable".to_string()),
        InjectStep::Copy | InjectStep::Replace => {
            let content = files[src].clone();
            files.insert(dst.to_string(), content);
        }
    }
    Ok(())
}

#[test]
fn injected_files_stand_at_their_destination() {
    let judge = Node::File("frozen".to_string());
    let start = |at: Option<Node>| {
        let mut files = Files::from([
            ("judge".to_string(), judge.clone()),
            ("etc".to_string(), Node::File("other".to_string())),
        ]);
        if let Some(node) = at {
            files.insert("dst".to_string(), node);
        }
        files
    };
    for before in [
        None,
        Some(Node::File("edited".to_string())),
        Some(Node::Link("etc".to_string())),
        Some(Node::Link("judge".to_string())),
    ] {
        let mut files = start(before);
        inject(&mut files, "judge", "dst").unwrap();
        assert_eq!(files["dst"], judge);
        assert_eq!(files["judge"], judge);
        assert_eq!(files["etc"], Node::File("other".to_string()), "no link is written through");
        let once = files.clone();
        inject(&mut files, "judge", "dst").unwrap();
        assert_eq!(files, once, "a second inject does no more");
    }
    let mut files = start(Some(Node::Dir));
    assert_eq!(
        inject(&mut files, "judge", "dst").unwrap_err(),
        "inject destination dst is a directory"
    );
    assert_eq!(files, start(Some(Node::Dir)));
    inject(&mut files, "judge", "judge").unwrap();
    assert_eq!(files, start(Some(Node::Dir)));
}

#[test]
fn parses_inject_and_resolves_paths() {
    let mut m = manifest(Some(judge("m", "higher", "v")));
    m.workspace.dir = "ws".to_string();
    m.workspace.inject = vec![
        Inject {
            src: "judges/h_test.go".to_string(),
            dst: "pkg/x/h_test.go".to_string(),
            frozen: default_true(),
        },
        Inject {
            src: "fixtures/seed.json".to_string(),
            dst: "testdata/seed.json".to_string(),
            frozen: false,
        },
    ];
    assert_eq!(m.workspace.inject.len(), 2);
    assert!(m.workspace.inject[0].frozen, "frozen defaults to true");
    assert!(!m.workspace.inject[1].frozen);
    let resolved = m.resolved_injects("/repo", "/repo/ws");
    assert_eq!(
        resolved[0],
        (
            "/repo/judges/h_test.go".to_string(),
            "/repo/ws/pkg/x/h_test.go".to_string(),
            true,
        )
    );
    assert!(!resolved[1].2);
    assert_eq!(
        m.frozen_inject_pairs("/repo"),
        vec![("/repo/judges/h_test.go".to_string(), "pkg/x/h_test.go".to_string())]
    );
}

#[test]
fn inject_replaces_a_link_and_refuses_a_directory() {
    let link = Destination::Entry { is_dir: true, is_symlink: true };
    assert_eq!(apply_inject("d", link, true).unwrap(), InjectStep::Replace);
    let file = Destination::Entry { is_dir: false, is_symlink: false };
    assert_eq!(apply_inject("d", file, true).unwrap(), InjectStep::Done);
    assert_eq!(apply_inject("d", file, false).unwrap(), InjectStep::Replace);
    let dir = Destination::Entry { is_dir: true, is_symlink: false };
    assert_eq!(
        apply_inject("some/dst", dir, false).unwrap_err().message(),
        "inject destination some/dst is a directory"
    );
    assert_eq!(apply_inject("d", Destination::Missing, false).unwrap(), InjectStep::Copy);
    assert_eq!(
        apply_inject("d", Destination::Unreadable, false).unwrap(),
        InjectStep::Uninspectable
    );
    assert_eq!(inject_parent("a/b/c.txt").as_deref(), Some("a/b"));
    assert_eq!(inject_parent("c.txt").as_deref(), Some(""));
    assert_eq!(inject_parent("/"), None);
}

#[test]
fn component_pr_repos_maps_only_declared_forks() {
    let m = composite(&[
        ("vllm", Some("wseaton/vllm")),
        ("epp", Some("wseaton/llm-d-router")),
        ("coordinator", None),
    ]);
    assert_eq!(
        m.component_pr_repos(),
        vec![
            ("vllm".to_string(), "wseaton/vllm".to_string()),
            ("epp".to_string(), "wseaton/llm-d-router".to_string()),
        ],
        "only forked components map; coordinator (no pr_repo) is absent"
    );
}

#[test]
fn composite_rejects_single_component() {
    let m = composite(&[("vllm", None)]);
    assert!(
        m.validate(&TableVerdicts::accepting()).is_err(),
        "a composite needs >= 2 components"
    );
}

#[test]
fn composite_rejects_carry_forward() {
    let mut m = composite(&[("vllm", None), ("kernels", None)]);
    m.workspace.carry_forward = vec!["codegen-out".to_string()];
    let err = match m.validate(&TableVerdicts::accepting()) {
        Err(e) => e.message(),
        Ok(()) => panic!("composite carry_forward must be rejected, not silently ignored"),
    };
    assert!(err.contains("carry_forward"), "{err}");
}

#[test]
fn composite_faults_in_order() {
    let check = |m: &CompositeManifest| {
        m.validate(&TableVerdicts::accepting()).map_err(|e| e.message())
    };
    assert_eq!(
        check(&composite(&[])).unwrap_err(),
        "a composite needs at least two [[component]] entries"
    );
    let mut m = composite(&[("a", None), ("b", None), ("a", None)]);
    assert_eq!(check(&m).unwrap_err(), "duplicate component domain `a`");
    m.workspace.artifact.push(Artifact {
        path: "p".to_string(),
        embed: None,
        upload: None,
        title: None,
    });
    assert_eq!(
        check(&m).unwrap_err(),
        "[[workspace.artifact]] is not supported in a composite manifest"
    );
    let mut m = composite(&[("a", None), ("b", None)]);
    assert!(check(&m).is_ok());
    m.judge.objective = "task".to_string();
    assert!(check(&m).unwrap_err().contains("reserved"));
}

#[test]
fn composite_components_lie_side_by_side() {
    let mut m = composite(&[("alpha", None), ("beta", None)]);
    m.components[1].workspace_dir = Some("b2".to_string());
    assert_eq!(m.base_dir("domains/gamma"), "domains/gamma/workspace");
    let sites = m.component_sites("domains/gamma").unwrap();
    assert_eq!(sites.len(), 2);
    assert_eq!(sites[0].name, "alpha");
    assert_eq!(sites[0].domain_dir, "domains/alpha");
    assert_eq!(sites[0].manifest_path, "domains/alpha/crucible.toml");
    assert_eq!(sites[0].workspace, "domains/gamma/workspace/alpha");
    assert_eq!(sites[1].workspace, "domains/gamma/workspace/b2");
    assert!(m.component_sites("/").is_none());
    assert_eq!(m.direction().unwrap(), Direction::Higher);
    assert!(m.tiebreak_direction().unwrap().is_none());
}

#[test]
fn composite_components_are_resolved_together_or_not_at_all() {
    let mut m = composite(&[("alpha", None), ("beta", None), ("delta", None)]);
    m.components[1].workspace_dir = Some("b2".to_string());
    let load = |path: String| -> Result<Manifest, String> {
        let mut loaded = manifest(None);
        loaded.agent.goal = Some(path);
        Ok(loaded)
    };
    let out = m.resolve_components("domains/gamma", &load).unwrap();
    let seen: Vec<(&str, &str, &str, &str)> = out
        .iter()
        .map(|c| {
            let goal = c.manifest.agent.goal.as_deref().unwrap();
            (c.name.as_str(), c.domain_dir.as_str(), goal, c.workspace.as_str())
        })
        .collect();
    let base = "domains/gamma/workspace";
    assert_eq!(
        seen,
        [
            ("alpha", "domains/alpha", "domains/alpha/crucible.toml", &format!("{base}/alpha")[..]),
            ("beta", "domains/beta", "domains/beta/crucible.toml", &format!("{base}/b2")),
            ("delta", "domains/delta", "domains/delta/crucible.toml", &format!("{base}/delta")),
        ]
    );
    let some_fail = |path: String| -> Result<Manifest, String> {
        if path.contains("alpha") {
            Ok(manifest(None))
        } else {
            Err(path)
        }
    };
    match m.resolve_components("domains/gamma", &some_fail) {
        Err(ComponentsError::Load { name, error }) => {
            assert_eq!((name.as_str(), error.as_str()), ("beta", "domains/beta/crucible.toml"));
            assert_eq!(component_context(&name), "loading component `beta` manifest");
        }
        other => panic!("{other:?}"),
    }
    assert!(matches!(m.resolve_components("/", &load), Err(ComponentsError::NoDomains)));
}

#[test]
fn composite_deploy_target_overrides_the_component() {
    let mut m = composite(&[("alpha", None), ("beta", None)]);
    m.deploy.insert("alpha".to_string(), OpaqueTable { text: "overlay".to_string() });
    let resolved = |name: &str, deploy: Option<OpaqueTable>| {
        let mut own = manifest(None);
        own.deploy = deploy;
        ResolvedComponent {
            name: name.to_string(),
            domain_dir: String::new(),
            manifest: own,
            workspace: String::new(),
        }
    };
    let text = |c: &ResolvedComponent| m.deploy_for(c).map(|t| t.text);
    assert_eq!(text(&resolved("alpha", table("own"))).as_deref(), Some("overlay"));
    assert_eq!(text(&resolved("beta", table("own"))).as_deref(), Some("own"));
    assert_eq!(text(&resolved("beta", None)), None);
}

#[test]
fn broker_enabled_requires_bin() {
    let mut m = manifest(Some(judge("m", "higher", "score")));
    m.agent.broker.enabled = true;
    assert!(
        m.validate(&TableVerdicts::accepting()).is_err(),
        "enabled broker with no bin must fail validation"
    );
    m.agent.broker.bin = "my-domain-broker".to_string();
    assert!(
        m.validate(&TableVerdicts::accepting()).is_ok(),
        "naming the bin satisfies it"
    );
}

#[test]
fn build_absent_means_no_declared_builds() {
    let m = manifest(Some(judge("m", "higher", "score")));
    assert!(m.build.is_empty());
    m.validate(&TableVerdicts::accepting()).unwrap();
}

#[test]
fn verdicts_of_table_owners_are_obeyed_in_order() {
    let all = TableVerdicts {
        search: Some("search".to_string()),
        workflow: Some("workflow".to_string()),
        selftest: Some("selftest".to_string()),
        builds: Some("builds".to_string()),
        preflight: Some("preflight".to_string()),
    };
    let mut m = manifest(Some(judge("m", "higher", "task")));
    m.workflow = inline(WorkflowType::Custom);
    let mut verdicts = all;
    let first = |m: &Manifest, v: &TableVerdicts| match m.validate(v) {
        Err(Refusal::Table { reason }) => reason,
        Err(other) => other.message(),
        Ok(()) => "ok".to_string(),
    };
    assert_eq!(first(&m, &verdicts), "search");
    verdicts.search = None;
    assert_eq!(first(&m, &verdicts), "workflow");
    verdicts.workflow = None;
    assert_eq!(first(&m, &verdicts), "selftest");
    verdicts.selftest = None;
    assert!(first(&m, &verdicts).contains("reserved"));
    m.judge.as_mut().unwrap().objective = "v".to_string();
    assert_eq!(first(&m, &verdicts), "builds");
    verdicts.builds = None;
    assert_eq!(first(&m, &verdicts), "preflight");
    verdicts.preflight = None;
    assert_eq!(first(&m, &verdicts), "ok");
    // Without a workflow its owner is not asked.
    m.workflow = None;
    verdicts.workflow = Some("workflow".to_string());
    assert_eq!(first(&m, &verdicts), "ok");
}

#[test]
fn directions_are_read_exactly() {
    assert_eq!(parse_direction("lower").unwrap(), Direction::Lower);
    assert_eq!(parse_direction("higher").unwrap(), Direction::Higher);
    assert_eq!(
        parse_direction("Lower").unwrap_err().message(),
        "direction must be `lower` or `higher`, got \"Lower\""
    );
    let mut m = manifest(Some(judge("m", "higher", "v")));
    assert!(m.tiebreak_direction().unwrap().is_none());
    m.judge.as_mut().unwrap().tiebreak_direction = Some("lower".to_string());
    assert_eq!(m.tiebreak_direction().unwrap(), Some(Direction::Lower));
    m.judge.as_mut().unwrap().tiebreak_direction = Some("up".to_string());
    assert!(m.tiebreak_direction().is_err());
}

#[test]
fn composites_are_told_by_their_table() {
    assert!(is_composite("[composite]\nname = \"c\"\n"));
    assert!(!is_composite("[repo]\npath = \".\"\n"));
    assert!(!is_composite("[repo]\ncomposite = 1\n"));
    assert!(!is_composite("composite = ["), "what is no TOML is no composite");
    assert!(!is_composite("composite = 1\n"), "a key that holds no table");
    assert!(!is_composite("[[composite]]\nname = \"c\"\n"), "an array of tables is no table");
    assert!(is_composite("composite = { name = \"c\" }\n"));
    assert!(is_composite("[composite.deep]\nname = \"c\"\n"));
    let key = |name: &str, table: bool| (name.to_string(), table);
    assert!(names_composite(&vec![key("agent", true), key("composite", true)]));
    assert!(!names_composite(&vec![key("agent", true), key("composite", false)]));
    assert!(!names_composite(&Vec::new()));
}

#[test]
fn repo_names_exactly_one_source() {
    let url = Some("https://github.com/o/n.git".to_string());
    let verdicts = TableVerdicts::accepting();
    let mut m = manifest(None);
    assert!(m.validate(&verdicts).is_ok());
    m.repo.url = url.clone();
    assert!(matches!(
        m.validate(&verdicts),
        Err(Refusal::Manifest { error: ManifestError::RepoNeedsOneSource })
    ));
    m.agent.broker.enabled = true;
    assert_eq!(
        m.validate(&verdicts).unwrap_err().message(),
        "[repo] must name exactly one of url and path",
        "before anything else"
    );
    m.agent.broker.enabled = false;
    m.repo.path = None;
    assert!(m.validate(&verdicts).is_ok());
    m.repo.url = None;
    assert!(m.validate(&verdicts).is_err());
}

#[test]
fn remaining_messages() {
    let missing = ManifestError::InjectSrcMissing {
        manifest_dir: "d".to_string(),
        missing: vec!["a".to_string(), "b".to_string()],
    };
    assert_eq!(missing.message(), "[[workspace.inject]] sources not found under d:\na\nb");
    assert_eq!(
        ManifestError::BrokerBinRequired.message(),
        "[agent.broker].bin is required when the broker is enabled (the domain's broker binary)"
    );
    assert_eq!(
        ManifestError::TaskObjectiveReserved.message(),
        "[judge].objective = \"task\" is reserved as the task lane's wire discriminator"
    );
    assert_eq!(default_backend(), "local");
    assert!(PublishCfg::default().pr_repo.is_none());
    let m = manifest(None);
    assert_eq!(m.workspace_path("pack/crucible.toml"), "pack/workspace");
    assert_eq!(m.workspace_path("crucible.toml"), "./workspace");
}

fn parse(text: String) -> Result<(Manifest, TableVerdicts), String> {
    if text == "garbage" {
        return Err("no manifest".to_string());
    }
    let mut m = manifest(Some(judge("m", "higher", "score")));
    m.workspace.dir = ".".to_string();
    m.agent.goal = Some(text.clone());
    m.agent.broker.enabled = text == "no bin";
    Ok((m, TableVerdicts::accepting()))
}

fn goal(path: &str, tree: &str, head: Option<&str>) -> Result<String, LoadError<String>> {
    let read = |place: FrozenLocation| {
        assert_eq!(place.rel, "crucible.toml");
        head.map(|text| ("abc".to_string(), text.to_string()))
    };
    Manifest::load_frozen("/pack", path, tree.to_string(), read, &parse)
        .map(|loaded| loaded.manifest.agent.goal.unwrap())
}

#[test]
fn load_frozen_reads_the_base_commit_inside_the_workspace() {
    let path = "/pack/crucible.toml";
    assert_eq!(goal(path, "TAMPERED goal", Some("committed goal")).unwrap(), "committed goal");
    assert_eq!(goal("crucible.toml", "TAMPERED", Some("committed")).unwrap(), "committed");
    assert_eq!(goal(path, "first run", None).unwrap(), "first run");
    assert!(matches!(goal(path, "garbage", Some("x")), Err(LoadError::Parse { error }) if error == "no manifest"));
    assert!(matches!(
        goal(path, "fine", Some("garbage")),
        Err(LoadError::BaseParse { error }) if error == "no manifest"
    ));
    assert!(matches!(goal(path, "fine", Some("no bin")), Err(LoadError::Refused { .. })));
}

#[test]
fn base_commit_hides_what_is_on_disk() {
    let path = "/pack/crucible.toml";
    for committed in ["agreed goal", "garbage", "no bin"] {
        let first = goal(path, "one goal", Some(committed));
        let second = goal(path, "another goal", Some(committed));
        assert_eq!(format!("{first:?}"), format!("{second:?}"));
    }
    // The text that identifies the run is the one that was loaded.
    let head = |_: FrozenLocation| Some(("abc".to_string(), "agreed goal".to_string()));
    let text = frozen_manifest_text("/pack", path, "/pack/.", "one goal".to_string(), head);
    let again = Manifest::load(text, &parse).unwrap();
    assert_eq!(again.agent.goal, Some(goal(path, "one goal", Some("agreed goal")).unwrap()));
    // Without a commit, loading for a run is loading.
    for tree in ["a goal", "garbage", "no bin"] {
        let plain = Manifest::load(tree.to_string(), &parse).map(|m| m.agent.goal.unwrap());
        assert_eq!(format!("{:?}", goal(path, tree, None)), format!("{plain:?}"));
    }
}

#[test]
fn load_frozen_leaves_a_manifest_beside_its_workspace_alone() {
    let beside = |text: String| -> Result<(CompositeManifest, TableVerdicts), String> {
        let mut m = composite(&[("a", None), ("b", None)]);
        m.composite.name = text;
        Ok((m, TableVerdicts::accepting()))
    };
    let never = |_: FrozenLocation| -> Option<(String, String)> { panic!("outside the workspace") };
    let loaded = CompositeManifest::load_frozen(
        "/",
        "/domains/gamma/crucible.toml",
        "gamma".to_string(),
        never,
        &beside,
    )
    .unwrap();
    assert_eq!(loaded.manifest.composite.name, "gamma");
    assert!(loaded.notice.is_none());
    assert!(CompositeManifest::load("x".to_string(), &beside).is_ok());
    assert!(matches!(Manifest::load("no bin".to_string(), &parse), Err(LoadError::Refused { .. })));
}
