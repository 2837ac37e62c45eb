use vstd::prelude::*;

use crate::hard_tools;
use crate::hard_tools::{HardTools, HardToolsError, HardToolsFault};
use crate::json;
use crate::names;
use crate::names::NameMap;
use crate::routes;
use crate::routes::{ListedModel, ListedTool, ToolRoutes};
use crate::telemetry;
use crate::text;

verus! {

/// How loud a distress signal is.
#[derive(Clone, Copy, Debug, PartialEq, Eq, Structural)]
pub enum Severity {
    Info,
    Warn,
    /// Suspends the run.
    Error,
}

/// Signal the operator.
#[derive(Debug)]
pub struct DistressArgs {
    pub severity: Severity,
    /// What is wrong, in one line. Must not be empty.
    pub reason: String,
    pub evidence: Vec<String>,
}

/// Poll an approval by its handle.
#[derive(Debug)]
pub struct CheckCaptureArgs {
    pub handle: String,
}

/// Build the agent's current edits.
#[derive(Debug)]
pub struct BuildEppArgs {}

/// Run the judge's measurement.
#[derive(Debug)]
pub struct MeasureArgs {}

/// Build and roll the agent's composite edits.
#[derive(Debug)]
pub struct DeployCompositeArgs {}

/// Poll one composite deploy.
#[derive(Debug)]
pub struct DeployStatusArgs {
    pub deploy_id: String,
    pub include_log: bool,
    /// Only log lines after this index.
    pub since: usize,
    /// Block up to this long for a change.
    pub wait_seconds: u64,
}

/// Roll an image onto the rig; the latest candidate where none is named.
#[derive(Debug)]
pub struct DeployCandidateArgs {
    pub image_ref: Option<String>,
}

/// Capture a profile of the deployed candidate.
#[derive(Debug)]
pub struct ProfileArgs {
    pub target: Option<String>,
    pub kind: String,
    pub seconds: u32,
}

/// Search JIRA.
#[derive(Debug)]
pub struct JiraSearchArgs {
    pub jql: String,
    pub limit: u32,
}

/// Fetch one issue.
#[derive(Debug)]
pub struct JiraGetIssueArgs {
    pub issue_key: String,
    /// The whole issue instead of the curated record.
    pub raw: bool,
}

/// Comment on an issue.
#[derive(Debug)]
pub struct JiraAddCommentArgs {
    pub issue_key: String,
    pub comment: String,
}

/// Query a captured profile; the most recent one where no handle is given.
#[derive(Debug)]
pub struct ProfileQueryArgs {
    pub target: Option<String>,
    pub query: String,
    pub handle: Option<String>,
}

/// Build a candidate image.
#[derive(Debug)]
pub struct CodegenBuildArgs {
    pub mode: String,
}

/// Measure a built candidate.
#[derive(Debug)]
pub struct CodegenBenchmarkArgs {
    pub digest: String,
    pub toggles: NameMap<String>,
    pub reps: Option<u32>,
}

/// Measure a built candidate's correctness.
#[derive(Debug)]
pub struct CodegenLmEvalArgs {
    pub digest: String,
    pub limit: Option<u32>,
}

/// Capture a trace of a built candidate.
#[derive(Debug)]
pub struct CodegenProfileArgs {
    pub digest: String,
}

/// List the submitted jobs.
#[derive(Debug)]
pub struct CodegenJobsArgs {}

/// Read a log by its handle.
#[derive(Debug)]
pub struct FetchLogArgs {
    pub handle: String,
    pub offset: usize,
}

/// Read a trace by its handle.
#[derive(Debug)]
pub struct FetchTraceArgs {
    pub handle: String,
    pub offset: usize,
}

/// Ten seconds.
pub fn default_profile_seconds() -> (r: u32)
    ensures
        r == 10,
{
    10
}

/// Twenty-five issues.
pub fn default_jira_limit() -> (r: u32)
    ensures
        r == 25,
{
    25
}

/// `derive`.
pub fn default_build_mode() -> (r: String)
    ensures
        r@ == "derive"@,
{
    "derive".to_owned()
}

impl CodegenBenchmarkArgs {
    /// The toggles in the order of their names.
    pub fn toggle_pairs(&self) -> (r: Vec<(String, String)>)
        ensures
            names::lists_pairs(text::pairs(r@), self.toggles@),
    {
        self.toggles.pairs()
    }
}

/// The reply while JIRA is not configured.
pub fn jira_disabled() -> (r: String)
    ensures
        r@
            == "{\"status\":\"disabled\",\"reason\":\"JIRA is not configured (set JIRA_URL + JIRA_USERNAME + JIRA_API_TOKEN on the loop pod)\"}"@,
{
    "{\"status\":\"disabled\",\"reason\":\"JIRA is not configured (set JIRA_URL + JIRA_USERNAME + JIRA_API_TOKEN on the loop pod)\"}".to_owned()
}

/// The fields of an error reply.
pub open spec fn error_fields(message: Seq<char>) -> Seq<(Seq<char>, Seq<char>)> {
    seq![("status"@, "error"@), ("error"@, message)]
}

/// The reply to a request that failed. Whatever the message holds, the reply is one JSON object.
pub fn json_err(message: &str) -> (r: String)
    ensures
        r@ == json::text_object(error_fields(message@)),
{
    two_fields(("status", "error"), ("error", message))
}

/// A JSON object of two strings.
fn two_fields(first: (&str, &str), second: (&str, &str)) -> (r: String)
    ensures
        r@ == json::text_object(seq![(first.0@, first.1@), (second.0@, second.1@)]),
{
    let mut fields: Vec<(String, String)> = Vec::new();
    fields.push((first.0.to_owned(), first.1.to_owned()));
    fields.push((second.0.to_owned(), second.1.to_owned()));
    assert(text::pairs(fields@) =~= seq![(first.0@, first.1@), (second.0@, second.1@)]);
    json::object_text(&fields)
}

/// An error reply, whatever its message, is recorded on the span as the outcome `error` with the
/// mark of a failure.
pub proof fn error_reply_marks_the_span(
    reply: Seq<char>,
    message: Seq<char>,
    attrs: Seq<(Seq<char>, Seq<char>)>,
)
    requires
        reply == json::text_object(error_fields(message)),
        telemetry::attrs_of_fields(reply, attrs),
    ensures
        attrs == seq![("status"@, "error"@), ("otel.status_code"@, "ERROR"@)],
{
    let fields = error_fields(message);
    reveal_strlit("status");
    reveal_strlit("error");
    assert("status"@.len() != "error"@.len());
    assert(json::plain_fields(fields));
    let members = choose|members: Seq<json::MemberModel>| #[trigger]
        json::are_texts(members, fields) && attrs == telemetry::member_attrs(members);
    telemetry::error_reply_is_recorded_as_failure(members, message);
}

/// The reply when the work behind a tool was lost.
pub fn task_failed(task: &str, error: &str) -> (r: String)
    ensures
        r@ == json::text_object(error_fields(task@ + " task failed: "@ + error@)),
{
    json_err(text::concat3(task, " task failed: ", error).as_str())
}

/// The tools whose work is handed off to a thread of its own.
#[derive(Clone, Copy, Debug, PartialEq, Eq, Structural)]
pub enum BlockingTool {
    BuildEpp,
    DeployCandidate,
    DeployComposite,
    DeployStatus,
    Measure,
    Profile,
    ProfileQuery,
    CodegenBuild,
    CodegenBenchmark,
    CodegenLmEval,
    CodegenProfile,
    CodegenJobs,
    FetchLog,
    FetchTrace,
}

impl BlockingTool {
    /// What the tool's work is called when it is lost.
    pub open spec fn task(self) -> Seq<char> {
        match self {
            BlockingTool::BuildEpp => "build"@,
            BlockingTool::DeployCandidate => "deploy"@,
            BlockingTool::DeployComposite => "deploy"@,
            BlockingTool::DeployStatus => "status"@,
            BlockingTool::Measure => "measure"@,
            BlockingTool::Profile => "profile"@,
            BlockingTool::ProfileQuery => "profile_query"@,
            BlockingTool::CodegenBuild => "build"@,
            BlockingTool::CodegenBenchmark => "benchmark"@,
            BlockingTool::CodegenLmEval => "lm_eval"@,
            BlockingTool::CodegenProfile => "profile"@,
            BlockingTool::CodegenJobs => "jobs"@,
            BlockingTool::FetchLog => "fetch_log"@,
            BlockingTool::FetchTrace => "fetch_trace"@,
        }
    }

    /// What the tool's work is called when it is lost.
    pub fn task_name(&self) -> (r: &'static str)
        ensures
            r@ == self.task(),
    {
        match self {
            BlockingTool::BuildEpp => "build",
            BlockingTool::DeployCandidate => "deploy",
            BlockingTool::DeployComposite => "deploy",
            BlockingTool::DeployStatus => "status",
            BlockingTool::Measure => "measure",
            BlockingTool::Profile => "profile",
            BlockingTool::ProfileQuery => "profile_query",
            BlockingTool::CodegenBuild => "build",
            BlockingTool::CodegenBenchmark => "benchmark",
            BlockingTool::CodegenLmEval => "lm_eval",
            BlockingTool::CodegenProfile => "profile",
            BlockingTool::CodegenJobs => "jobs",
            BlockingTool::FetchLog => "fetch_log",
            BlockingTool::FetchTrace => "fetch_trace",
        }
    }

    /// The tool's reply: what its work came back with, or that it was lost.
    pub fn reply(&self, outcome: Result<String, String>) -> (r: String)
        ensures
            match outcome {
                Ok(text) => r@ == text@,
                Err(error) => r@ == json::text_object(
                    error_fields(self.task() + " task failed: "@ + error@),
                ),
            },
    {
        match outcome {
            Ok(text) => text,
            Err(error) => task_failed(self.task_name(), error.as_str()),
        }
    }
}

/// The reply to a request for a trace: the resolution in JSON, or the error.
pub fn trace_reply(outcome: Result<String, String>) -> (r: String)
    ensures
        match outcome {
            Ok(resolution) => r@ == resolution@,
            Err(error) => r@ == json::text_object(error_fields(error@)),
        },
{
    match outcome {
        Ok(resolution) => resolution,
        Err(error) => json_err(error.as_str()),
    }
}

/// How work that was handed off ended.
pub enum TaskOutcome {
    Reply { text: String },
    Failed { error: String },
    /// It never came back.
    Lost { error: String },
}

/// What a distress call without a reason is told; `None` where there is a reason.
pub fn distress_refusal(args: &DistressArgs) -> (r: Option<String>)
    ensures
        match r {
            Some(reply) => text::blank(args.reason@) && reply@ == json::text_object(
                error_fields("reason must be non-empty: say what the operator has to fix"@),
            ),
            None => !text::blank(args.reason@),
        },
{
    if text::is_blank(args.reason.as_str()) {
        Some(json_err("reason must be non-empty: say what the operator has to fix"))
    } else {
        None
    }
}

/// The reply to a distress call that went through.
pub fn distress_reply(outcome: TaskOutcome) -> (r: String)
    ensures
        match outcome {
            TaskOutcome::Reply { text } => r@ == text@,
            TaskOutcome::Failed { error } => r@ == json::text_object(error_fields(error@)),
            TaskOutcome::Lost { error } => r@ == json::text_object(
                error_fields("distress task failed: "@ + error@),
            ),
        },
{
    match outcome {
        TaskOutcome::Reply { text } => text,
        TaskOutcome::Failed { error } => json_err(error.as_str()),
        TaskOutcome::Lost { error } => json_err(
            text::concat2("distress task failed: ", error.as_str()).as_str(),
        ),
    }
}

/// Where an approval stands.
#[derive(Clone, Copy, Debug, PartialEq, Eq, Structural)]
pub enum ApprovalState {
    Pending,
    Approved,
    Denied,
}

/// The reply to a poll of an approval.
pub fn capture_reply(polled: Result<ApprovalState, String>) -> (r: String)
    ensures
        match polled {
            Ok(ApprovalState::Pending) => r@ == "{\"state\":\"pending\"}"@,
            Ok(ApprovalState::Approved) => r@ == "{\"state\":\"approved\"}"@,
            Ok(ApprovalState::Denied) => r@ == "{\"state\":\"denied\"}"@,
            Err(error) => r@ == json::text_object(
                seq![("state"@, "error"@), ("error"@, error@)],
            ),
        },
{
    match polled {
        Ok(ApprovalState::Pending) => "{\"state\":\"pending\"}".to_owned(),
        Ok(ApprovalState::Approved) => "{\"state\":\"approved\"}".to_owned(),
        Ok(ApprovalState::Denied) => "{\"state\":\"denied\"}".to_owned(),
        Err(error) => two_fields(("state", "error"), ("error", error.as_str())),
    }
}

/// The reply to a comment that was posted.
pub fn comment_reply(id: &str, url: &str) -> (r: String)
    ensures
        r@ == json::text_object(seq![("id"@, id@), ("url"@, url@)]),
{
    two_fields(("id", id), ("url", url))
}

/// The reply to a JIRA call: `disabled` without a client, else what came back.
pub fn jira_reply(outcome: Option<Result<String, String>>) -> (r: String)
    ensures
        match outcome {
            None => r@
                == "{\"status\":\"disabled\",\"reason\":\"JIRA is not configured (set JIRA_URL + JIRA_USERNAME + JIRA_API_TOKEN on the loop pod)\"}"@,
            Some(Ok(text)) => r@ == text@,
            Some(Err(error)) => r@ == json::text_object(error_fields(error@)),
        },
{
    match outcome {
        None => jira_disabled(),
        Some(Ok(text)) => text,
        Some(Err(error)) => json_err(error.as_str()),
    }
}

/// The most characters of prose that one rendered issue may have.
pub const MAX_ISSUE_CHARS: usize = 12000;

/// How an issue is shown.
#[derive(Clone, Copy, Debug, PartialEq, Eq, Structural)]
pub enum IssueForm {
    /// As it is.
    Raw,
    /// As a curated record, with its prose cut short.
    Curated { max_chars: usize },
}

impl JiraGetIssueArgs {
    /// How the issue is to be shown.
    pub fn form(&self) -> (r: IssueForm)
        ensures
            r == (if self.raw {
                IssueForm::Raw
            } else {
                IssueForm::Curated { max_chars: MAX_ISSUE_CHARS }
            }),
    {
        if self.raw {
            IssueForm::Raw
        } else {
            IssueForm::Curated { max_chars: MAX_ISSUE_CHARS }
        }
    }
}

/// How approvals are asked for.
#[derive(Clone, Copy, Debug, PartialEq, Eq, Structural)]
pub enum ApprovalChannel {
    /// Over the control bridge, by an operator who attends.
    ControlChannel,
    /// By a draft pull request.
    DraftPr,
}

/// Where approvals go.
#[derive(Debug)]
pub enum ApprovalRoute {
    Control,
    DraftPr { repo: String, base: String },
}

impl ApprovalRoute {
    pub open spec fn over(self) -> ApprovalChannel {
        match self {
            ApprovalRoute::Control => ApprovalChannel::ControlChannel,
            ApprovalRoute::DraftPr { .. } => ApprovalChannel::DraftPr,
        }
    }

    /// The channel of the route.
    pub fn channel(&self) -> (r: ApprovalChannel)
        ensures
            r == self.over(),
    {
        match self {
            ApprovalRoute::Control => ApprovalChannel::ControlChannel,
            ApprovalRoute::DraftPr { .. } => ApprovalChannel::DraftPr,
        }
    }
}

/// A value, or what stands in for it.
pub open spec fn or_default(value: Option<Seq<char>>, default: Seq<char>) -> Seq<char> {
    match value {
        Some(text) => text,
        None => default,
    }
}

/// Whether the values of `BROKER_APPROVAL`, `BROKER_FORK` and `BROKER_BASE` select the route.
pub open spec fn routes_approval(
    route: ApprovalRoute,
    approval: Option<Seq<char>>,
    fork: Option<Seq<char>>,
    base: Option<Seq<char>>,
) -> bool {
    match route {
        ApprovalRoute::Control => approval == Some("control"@),
        ApprovalRoute::DraftPr { repo, base: branch } => approval != Some("control"@) && repo@
            == or_default(fork, "wseaton/llm-d-router"@) && branch@ == or_default(base, "main"@),
    }
}

/// Where approvals go: over the control bridge where that is asked for, else as draft pull
/// requests against the fork.
pub fn choose_approval(
    approval: &Option<String>,
    fork: Option<String>,
    base: Option<String>,
) -> (r: ApprovalRoute)
    ensures
        routes_approval(
            r,
            text::text_opt(*approval),
            text::text_opt(fork),
            text::text_opt(base),
        ),
{
    let control = match approval {
        Some(value) => text::same_text(value.as_str(), "control"),
        None => false,
    };
    if control {
        return ApprovalRoute::Control;
    }
    let repo = match fork {
        Some(repo) => repo,
        None => "wseaton/llm-d-router".to_owned(),
    };
    let base = match base {
        Some(base) => base,
        None => "main".to_owned(),
    };
    ApprovalRoute::DraftPr { repo, base }
}

/// Whether the broker watches an approval that it opened. Over the control bridge the operator
/// answers directly.
pub fn watches_approval(pending: bool, channel: ApprovalChannel) -> (r: bool)
    ensures
        r == (pending && channel == ApprovalChannel::DraftPr),
{
    pending && channel == ApprovalChannel::DraftPr
}

/// What the environment says of the approvals.
#[derive(Debug)]
pub struct ApprovalEnv {
    pub approval: Option<String>,
    pub fork: Option<String>,
    pub base: Option<String>,
}

impl ApprovalEnv {
    pub open spec fn selects(self, route: ApprovalRoute) -> bool {
        routes_approval(
            route,
            text::text_opt(self.approval),
            text::text_opt(self.fork),
            text::text_opt(self.base),
        )
    }
}

/// The server: the route of its approvals and its tools.
#[derive(Debug)]
pub struct McpServer {
    pub approval: ApprovalRoute,
    pub degraded_headless: bool,
    pub routes: ToolRoutes,
}

/// The routes of a server's own tools.
pub open spec fn own_routes(own: Seq<ListedModel>) -> Map<Seq<char>, ListedModel> {
    routes::routed_with(Map::empty(), own)
}

impl McpServer {
    /// A server with its own tools only.
    pub fn new(env: ApprovalEnv, degraded_headless: bool, own_tools: Vec<ListedTool>) -> (r:
        McpServer)
        ensures
            env.selects(r.approval),
            r.degraded_headless == degraded_headless,
            r.routes@ == own_routes(routes::listed_models(own_tools@)),
    {
        let none = HardTools::empty();
        let ghost models = hard_tools::all_exposed(none@.tools);
        let approval = choose_approval(&env.approval, env.fork, env.base);
        let mut routes = ToolRoutes::new();
        routes.add_all(own_tools);
        let installed = none.install(&mut routes);
        assert(models =~= Seq::empty());
        assert(installed is Ok);
        assert(models.take(0) =~= Seq::empty());
        McpServer { approval, degraded_headless, routes }
    }

    /// A server with its own tools and those of the services. It is not built where two tools would
    /// have one name.
    pub fn new_with_hard_tools(
        env: ApprovalEnv,
        degraded_headless: bool,
        own_tools: Vec<ListedTool>,
        services: &HardTools,
    ) -> (r: Result<McpServer, HardToolsError>)
        ensures
            ({
                let own = own_routes(routes::listed_models(own_tools@));
                let added = hard_tools::exposed_names(services@.tools);
                let n = routes::installable(own.dom(), added);
                match r {
                    Ok(server) => {
                        &&& n == added.len()
                        &&& env.selects(server.approval)
                        &&& server.degraded_headless == degraded_headless
                        &&& server.routes@ == routes::routed_with(
                            own,
                            hard_tools::all_exposed(services@.tools),
                        )
                    },
                    Err(e) => 0 <= n < added.len() && e@ == HardToolsFault::ToolNameCollision(added[n]),
                }
            }),
    {
        let ghost models = hard_tools::all_exposed(services@.tools);
        let approval = choose_approval(&env.approval, env.fork, env.base);
        let mut routes = ToolRoutes::new();
        routes.add_all(own_tools);
        match services.install(&mut routes) {
            Ok(()) => {
                assert(models.take(models.len() as int) =~= models);
                Ok(McpServer { approval, degraded_headless, routes })
            },
            Err(error) => Err(error),
        }
    }

    /// The tools, each once and in the order of their names: all of them, whatever page is asked
    /// for.
    pub fn list_tools(&self) -> (r: Vec<&ListedTool>)
        ensures
            routes::lists_routes(routes::listed_refs(r@), self.routes@),
    {
        self.routes.list_all()
    }

    /// The tool of that name.
    pub fn get_tool(&self, name: &str) -> (r: Option<&ListedTool>)
        ensures
            match r {
                Some(tool) => self.routes@.contains_key(name@) && tool@ == self.routes@[name@]
                    && tool@.name == name@,
                None => !self.routes@.contains_key(name@),
            },
    {
        self.routes.get(name)
    }
}

/// A server that was built lists every tool of its own and every tool of the services, each with its
/// definition, and nothing else; what it lists is what it finds under the tool's name.
pub proof fn server_lists_every_tool(
    own: Seq<ListedModel>,
    services: Seq<hard_tools::ProxiedModel>,
    list: Seq<ListedModel>,
    tool: ListedModel,
)
    requires
        routes::all_free(Set::empty(), routes::listed_names(own)),
        routes::installable(own_routes(own).dom(), hard_tools::exposed_names(services))
            == services.len(),
        routes::lists_routes(
            list,
            routes::routed_with(own_routes(own), hard_tools::all_exposed(services)),
        ),
    ensures
        list.contains(tool) <==> own.contains(tool) || hard_tools::all_exposed(services).contains(
            tool,
        ),
        names::ascending(routes::listed_names(list)),
        ({
            let found = routes::routed_with(own_routes(own), hard_tools::all_exposed(services));
            list.contains(tool) <==> found.contains_key(tool.name) && found[tool.name] == tool
        }),
{
    let first = own_routes(own);
    let added = hard_tools::all_exposed(services);
    let all = routes::routed_with(first, added);
    assert(Map::<Seq<char>, ListedModel>::empty().dom() =~= Set::empty());
    routes::added_tools_are_routed(Map::empty(), own);
    routes::installs_where_names_are_free(first.dom(), hard_tools::exposed_names(services));
    routes::added_tools_are_routed(first, added);
    routes::listed_tools_are_those_found(list, all, tool);
    let own_names = routes::listed_names(own);
    let added_names = routes::listed_names(added);
    if own.contains(tool) {
        let i = choose|i: int| 0 <= i < own.len() && own[i] == tool;
        assert(own_names[i] == tool.name);
        assert(own_names.contains(tool.name));
        assert(first.contains_key(tool.name));
    }
    if added.contains(tool) {
        let i = choose|i: int| 0 <= i < added.len() && added[i] == tool;
        assert(added_names[i] == tool.name);
        assert(added_names.contains(tool.name));
    }
    if all.contains_key(tool.name) && all[tool.name] == tool {
        if first.contains_key(tool.name) {
            assert(own_names.contains(tool.name));
            let i = choose|i: int| 0 <= i < own_names.len() && own_names[i] == tool.name;
            assert(own[i] == tool);
        } else {
            assert(added_names.contains(tool.name));
            let i = choose|i: int| 0 <= i < added_names.len() && added_names[i] == tool.name;
            assert(added[i] == tool);
        }
    }
}

/// An error reply is an object with two members: the status `error`, and the message under `error`,
/// whatever it holds. Different messages give different replies.
pub proof fn error_reply_holds_the_message(message: Seq<char>, other: Seq<char>)
    ensures
        json::text_object(error_fields(message)) == json::object_of(
            seq![
                ("status"@, json::json_string("error"@)),
                ("error"@, json::json_string(message)),
            ],
        ),
        message != other ==> json::text_object(error_fields(message)) != json::text_object(
            error_fields(other),
        ),
{
    lemma_error_reply(message);
    lemma_error_reply(other);
    if json::text_object(error_fields(message)) == json::text_object(error_fields(other)) {
        let first = seq![("status"@, json::json_string("error"@))];
        let m = json::json_string(message);
        let o = json::json_string(other);
        json::lemma_object_grows(first, "error"@, m);
        json::lemma_object_grows(first, "error"@, o);
        assert(first.push(("error"@, m)) == seq![
            ("status"@, json::json_string("error"@)),
            ("error"@, m),
        ]);
        assert(first.push(("error"@, o)) == seq![
            ("status"@, json::json_string("error"@)),
            ("error"@, o),
        ]);
        let head = json::object_of(first).drop_last() + ","@ + json::json_string("error"@) + ":"@;
        let a = head + m + "}"@;
        let b = head + o + "}"@;
        assert(a == b);
        let end = "}"@.len();
        assert(a.subrange(head.len() as int, a.len() - end) =~= m);
        assert(b.subrange(head.len() as int, b.len() - end) =~= o);
        json::json_string_is_injective(message, other);
    }
}

proof fn lemma_error_reply(message: Seq<char>)
    ensures
        json::text_object(error_fields(message)) == json::object_of(
            seq![
                ("status"@, json::json_string("error"@)),
                ("error"@, json::json_string(message)),
            ],
        ),
{
    let fields = error_fields(message);
    json::text_object_has_its_fields(fields);
    assert(Seq::new(fields.len(), |i: int| (fields[i].0, json::json_string(fields[i].1))) =~= seq![
        ("status"@, json::json_string("error"@)),
        ("error"@, json::json_string(message)),
    ]);
}

/// Approvals go over the control bridge exactly where the environment says `control`; otherwise they
/// are draft pull requests against the fork and the branch that it names, or against
/// `wseaton/llm-d-router` and `main` where it names none.
pub proof fn approvals_go_where_the_environment_says(env: ApprovalEnv, route: ApprovalRoute)
    requires
        env.selects(route),
    ensures
        route is Control <==> (env.approval matches Some(value) && value@ == "control"@),
        route is Control <==> route.over() == ApprovalChannel::ControlChannel,
        route matches ApprovalRoute::DraftPr { repo, base } ==> {
            &&& route.over() == ApprovalChannel::DraftPr
            &&& env.fork matches Some(fork) ==> repo@ == fork@
            &&& env.fork is None ==> repo@ == "wseaton/llm-d-router"@
            &&& env.base matches Some(branch) ==> base@ == branch@
            &&& env.base is None ==> base@ == "main"@
        },
{
}

/// The server's own tools are routed by name, the later of two with one name; nothing else is.
pub proof fn own_tools_are_routed(own: Seq<ListedModel>, name: Seq<char>)
    ensures
        own_routes(own).contains_key(name) <==> exists|i: int|
            0 <= i < own.len() && (#[trigger] own[i]).name == name,
        forall|i: int|
            0 <= i < own.len() && (#[trigger] own[i]).name == name && (forall|k: int|
                i < k < own.len() ==> (#[trigger] own[k]).name != name) ==> own_routes(own)[name]
                == own[i],
{
    let none = Map::<Seq<char>, ListedModel>::empty();
    routes::later_tool_counts(none, own, name);
    lemma_has_last(own, name);
    if exists|i: int| 0 <= i < own.len() && (#[trigger] own[i]).name == name {
        let i = choose|i: int|
            0 <= i < own.len() && (#[trigger] own[i]).name == name && (forall|k: int|
                i < k < own.len() ==> (#[trigger] own[k]).name != name);
        assert(own[i].name == name);
    }
}

/// Among tools of which one has the name there is a last one with it.
proof fn lemma_has_last(own: Seq<ListedModel>, name: Seq<char>)
    ensures
        (exists|i: int| 0 <= i < own.len() && (#[trigger] own[i]).name == name) ==> exists|i: int|
            0 <= i < own.len() && (#[trigger] own[i]).name == name && (forall|k: int|
                i < k < own.len() ==> (#[trigger] own[k]).name != name),
    decreases own.len(),
{
    if own.len() > 0 {
        let n = own.len() - 1;
        if own[n].name == name {
            assert(forall|k: int| n < k < own.len() ==> (#[trigger] own[k]).name != name);
        } else if exists|i: int| 0 <= i < own.len() && (#[trigger] own[i]).name == name {
            let init = own.drop_last();
            lemma_has_last(init, name);
            let j = choose|i: int| 0 <= i < own.len() && (#[trigger] own[i]).name == name;
            assert(init[j].name == name);
            let i = choose|i: int|
                0 <= i < init.len() && (#[trigger] init[i]).name == name && (forall|k: int|
                    i < k < init.len() ==> (#[trigger] init[k]).name != name);
            assert(own[i].name == name);
            assert forall|k: int| i < k < own.len() implies (#[trigger] own[k]).name != name by {
                if k < n {
                    assert(init[k] == own[k]);
                }
            }
        }
    }
}

} // verus!
