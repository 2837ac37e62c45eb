use vstd::prelude::*;

use crate::manifest::broker::BrokerCfg;
use crate::names::NameMap;
use crate::text;

verus! {

/// A table that another part of the engine reads; here only its presence counts.
#[derive(Debug)]
pub struct OpaqueTable {
    pub text: String,
}

impl OpaqueTable {
    /// The same table again.
    pub fn duplicate(&self) -> (r: OpaqueTable)
        ensures
            r.text@ == self.text@,
    {
        OpaqueTable { text: self.text.clone() }
    }
}

/// Which way a score improves.
#[derive(Clone, Copy, Debug, PartialEq, Eq, Structural)]
pub enum Direction {
    Lower,
    Higher,
}

/// What runs an agent's turn.
#[derive(Clone, Copy, Debug, PartialEq, Eq, Structural)]
pub enum Harness {
    Claude,
    Hermes,
    Codex,
}

impl Default for Harness {
    fn default() -> (r: Self)
        ensures
            r == Harness::Claude,
    {
        Harness::Claude
    }
}

/// How hard the agent is to think.
#[derive(Clone, Copy, Debug, PartialEq, Eq, Structural)]
pub enum ReasoningEffort {
    Low,
    Medium,
    High,
    Xhigh,
    Max,
}

/// Which lane a workflow runs in.
#[derive(Clone, Copy, Debug, PartialEq, Eq, Structural)]
pub enum WorkflowType {
    Autoresearch,
    Custom,
    Playbook,
}

impl WorkflowType {
    /// The lane's name.
    pub open spec fn label(self) -> Seq<char> {
        match self {
            WorkflowType::Autoresearch => "Autoresearch"@,
            WorkflowType::Custom => "Custom"@,
            WorkflowType::Playbook => "Playbook"@,
        }
    }

    /// The lane's name.
    pub fn name(&self) -> (r: &'static str)
        ensures
            r@ == self.label(),
    {
        match self {
            WorkflowType::Autoresearch => "Autoresearch",
            WorkflowType::Custom => "Custom",
            WorkflowType::Playbook => "Playbook",
        }
    }
}

/// An authored iteration graph, or the source it is compiled from.
#[derive(Debug)]
pub struct WorkflowCfg {
    pub workflow_type: WorkflowType,
    /// The source to compile, relative to the manifest.
    pub file: Option<String>,
    /// The graph itself.
    pub graph: Option<String>,
    /// The source that the graph was compiled from.
    pub resolved_from: Option<String>,
}

impl WorkflowCfg {
    pub open spec fn unresolved(self) -> bool {
        self.file is Some && self.graph is None
    }

    /// Whether the graph is still only named.
    pub fn is_unresolved(&self) -> (r: bool)
        ensures
            r == self.unresolved(),
    {
        self.file.is_some() && self.graph.is_none()
    }
}

/// The frozen objective.
#[derive(Debug)]
pub struct JudgeCfg {
    pub measure_cmd: String,
    /// `lower` or `higher`.
    pub direction: String,
    pub tiebreak_direction: Option<String>,
    pub objective: String,
    pub selftest: Option<OpaqueTable>,
}

/// Commands that make the world more than its tree.
#[derive(Debug)]
pub struct WorldCfg {
    pub apply_cmd: Option<String>,
    pub snapshot_cmd: Option<String>,
    pub restore_cmd: Option<String>,
}

/// The fork that kept commits are pushed to as a draft pull request.
#[derive(Clone, Debug, Default)]
pub struct PublishCfg {
    /// `owner/repo`. Without one, no pull request is opened.
    pub pr_repo: Option<String>,
}

/// The upstream that the agent edits a checkout of: a URL or a path, and not both.
#[derive(Debug)]
pub struct Repo {
    pub url: Option<String>,
    pub path: Option<String>,
    pub git_ref: Option<String>,
}

/// Derived output worth publishing. Its path is carried; the newest file with the embedded or
/// uploaded name under it is surfaced.
#[derive(Clone, Debug)]
pub struct Artifact {
    /// Relative to the workspace, under the rules of `carry_forward`.
    pub path: String,
    /// A bare file name; the newest match goes into the pull request.
    pub embed: Option<String>,
    /// A bare file name; the newest match is only uploaded.
    pub upload: Option<String>,
    pub title: Option<String>,
}

/// A file copied into the workspace. A frozen one is copied again before every scored
/// measurement, so that the agent cannot edit the judge.
#[derive(Clone, Debug)]
pub struct Inject {
    /// Relative to the manifest's directory.
    pub src: String,
    /// Relative to the workspace.
    pub dst: String,
    pub frozen: bool,
}

/// The checkout and what belongs to it.
#[derive(Debug)]
pub struct Workspace {
    pub dir: String,
    pub setup_cmd: Option<String>,
    pub inject: Vec<Inject>,
    /// Paths in the workspace that a discard must not delete.
    pub carry_forward: Vec<String>,
    /// Carried like `carry_forward`, and published.
    pub artifact: Vec<Artifact>,
}

impl Default for Workspace {
    fn default() -> (r: Self)
        ensures
            r.dir@ == "workspace"@,
            r.setup_cmd is None,
            r.inject@ == Seq::<Inject>::empty(),
            r.carry_forward@ == Seq::<String>::empty(),
            r.artifact@ == Seq::<Artifact>::empty(),
    {
        Workspace {
            dir: default_workspace_dir(),
            setup_cmd: None,
            inject: Vec::new(),
            carry_forward: Vec::new(),
            artifact: Vec::new(),
        }
    }
}

/// Hermes-harness tuning.
#[derive(Clone, Debug, Default)]
pub struct HermesCfg {
    pub model: Option<String>,
}

/// Codex-harness tuning.
#[derive(Clone, Debug, Default)]
pub struct CodexCfg {
    pub model: Option<String>,
}

/// The agent and the sandbox it works in.
#[derive(Debug)]
pub struct AgentCfg {
    pub model: String,
    pub harness: Harness,
    pub hermes: HermesCfg,
    pub codex: CodexCfg,
    pub reasoning_effort: Option<ReasoningEffort>,
    pub disallowed_tools: Vec<String>,
    pub method_prompt: Option<String>,
    pub goal: Option<String>,
    pub goal_file: Option<String>,
    pub seed_diff: Option<String>,
    pub toolbox_dir: Option<String>,
    pub toolbox_exclude: Vec<String>,
    pub backend: String,
    pub sandbox_image: Option<String>,
    pub agent_cmd: Option<String>,
    pub env: NameMap<String>,
    pub relay: Vec<OpaqueTable>,
    pub openshell: Option<OpaqueTable>,
    pub broker: BrokerCfg,
}

/// A domain's manifest.
#[derive(Debug)]
pub struct Manifest {
    pub repo: Repo,
    pub workspace: Workspace,
    pub agent: AgentCfg,
    /// Without a judge the run is a task: nothing is scored and every completed turn is kept.
    pub judge: Option<JudgeCfg>,
    pub world: WorldCfg,
    pub deploy: Option<OpaqueTable>,
    pub search: Option<OpaqueTable>,
    pub workflow: Option<WorkflowCfg>,
    pub publish: Option<PublishCfg>,
    pub build: NameMap<OpaqueTable>,
    pub measure: Option<OpaqueTable>,
    pub preflight: Option<OpaqueTable>,
}

/// What a composite is called.
#[derive(Debug)]
pub struct CompositeCfg {
    pub name: String,
}

/// A component domain of a composite.
#[derive(Debug)]
pub struct ComponentRef {
    /// The domain's directory name.
    pub domain: String,
    /// The checkout's directory name, where it is not the domain's.
    pub workspace_dir: Option<String>,
    /// The `owner/repo` fork of the component's draft pull request.
    pub pr_repo: Option<String>,
}

/// Several component domains assembled into one run with one combined gate.
#[derive(Debug)]
pub struct CompositeManifest {
    pub composite: CompositeCfg,
    pub workspace: Workspace,
    pub components: Vec<ComponentRef>,
    pub agent: AgentCfg,
    pub judge: JudgeCfg,
    pub world: WorldCfg,
    /// By component, in place of the component's own deploy target.
    pub deploy: NameMap<OpaqueTable>,
    pub search: Option<OpaqueTable>,
    pub workflow: Option<WorkflowCfg>,
    pub build: NameMap<OpaqueTable>,
    pub measure: Option<OpaqueTable>,
    pub preflight: Option<OpaqueTable>,
}

/// A component with its own manifest and the place of its checkout.
#[derive(Debug)]
pub struct ResolvedComponent {
    pub name: String,
    pub domain_dir: String,
    pub manifest: Manifest,
    pub workspace: String,
}

/// Injects are frozen unless they say otherwise.
pub fn default_true() -> (r: bool)
    ensures
        r,
{
    true
}

/// `workspace`.
pub fn default_workspace_dir() -> (r: String)
    ensures
        r@ == "workspace"@,
{
    "workspace".to_owned()
}

/// The model that each harness runs unless it is told otherwise.
#[derive(Debug)]
pub struct HarnessModels {
    pub claude: String,
    pub hermes: String,
    pub codex: String,
}

impl Harness {
    pub open spec fn model_among(self, models: HarnessModels) -> Seq<char> {
        match self {
            Harness::Claude => models.claude@,
            Harness::Hermes => models.hermes@,
            Harness::Codex => models.codex@,
        }
    }

    /// The model that the harness runs unless it is told otherwise.
    pub fn default_model(&self, models: &HarnessModels) -> (r: String)
        ensures
            r@ == self.model_among(*models),
    {
        match self {
            Harness::Claude => models.claude.clone(),
            Harness::Hermes => models.hermes.clone(),
            Harness::Codex => models.codex.clone(),
        }
    }
}

/// The model of an agent that names none: that of the default harness, whichever harness the agent
/// has.
pub fn default_model(models: &HarnessModels) -> (r: String)
    ensures
        r@ == Harness::Claude.model_among(*models),
{
    Harness::default().default_model(models)
}

/// `local`.
pub fn default_backend() -> (r: String)
    ensures
        r@ == "local"@,
{
    "local".to_owned()
}

/// The artifacts' paths that are not carried already, added in order.
pub open spec fn carried(paths: Seq<Seq<char>>, artifacts: Seq<Artifact>) -> Seq<Seq<char>>
    decreases artifacts.len(),
{
    if artifacts.len() == 0 {
        paths
    } else {
        let before = carried(paths, artifacts.drop_last());
        if before.contains(artifacts.last().path@) {
            before
        } else {
            before.push(artifacts.last().path@)
        }
    }
}

impl Workspace {
    /// Every carried path: those carried forward, then those of the artifacts that are not among
    /// them yet.
    pub fn carried_paths(&self) -> (r: Vec<String>)
        ensures
            text::texts(r@) == carried(text::texts(self.carry_forward@), self.artifact@),
    {
        let mut all: Vec<String> = Vec::new();
        let mut i: usize = 0;
        while i < self.carry_forward.len()
            invariant
                i <= self.carry_forward@.len(),
                all@.len() == i,
                forall|j: int| 0 <= j < i ==> (#[trigger] all@[j])@ == self.carry_forward@[j]@,
            decreases self.carry_forward@.len() - i,
        {
            all.push(self.carry_forward[i].clone());
            i = i + 1;
        }
        let ghost start = text::texts(self.carry_forward@);
        assert(text::texts(all@) =~= start);
        let mut k: usize = 0;
        assert(self.artifact@.take(0) =~= Seq::empty());
        while k < self.artifact.len()
            invariant
                k <= self.artifact@.len(),
                start == text::texts(self.carry_forward@),
                text::texts(all@) == carried(start, self.artifact@.take(k as int)),
            decreases self.artifact@.len() - k,
        {
            let ghost before = text::texts(all@);
            assert(self.artifact@.take(k + 1).drop_last() =~= self.artifact@.take(k as int));
            let path = &self.artifact[k].path;
            if !text::list_has(&all, path.as_str()) {
                all.push(path.clone());
                assert(text::texts(all@) =~= before.push(path@));
            }
            k = k + 1;
        }
        assert(self.artifact@.take(k as int) =~= self.artifact@);
        all
    }
}

/// Every path carried forward and every artifact's path is carried, the former in place, and
/// nothing else; and no artifact's path comes a second time.
pub proof fn carried_paths_are_those_declared(paths: Seq<Seq<char>>, artifacts: Seq<Artifact>)
    ensures
        paths.is_prefix_of(carried(paths, artifacts)),
        forall|p: Seq<char>| #[trigger]
            carried(paths, artifacts).contains(p) <==> (paths.contains(p) || exists|i: int|
                0 <= i < artifacts.len() && (#[trigger] artifacts[i]).path@ == p),
        forall|i: int, j: int|
            0 <= i < j < carried(paths, artifacts).len() && j >= paths.len() ==> carried(
                paths,
                artifacts,
            )[i] != carried(paths, artifacts)[j],
    decreases artifacts.len(),
{
    let all = carried(paths, artifacts);
    if artifacts.len() == 0 {
        assert(paths == all.subrange(0, paths.len() as int));
    } else {
        let init = artifacts.drop_last();
        let before = carried(paths, init);
        let path = artifacts.last().path@;
        carried_paths_are_those_declared(paths, init);
        assert(paths =~= all.subrange(0, paths.len() as int)) by {
            assert(paths == before.subrange(0, paths.len() as int));
        }
        assert forall|p: Seq<char>| #[trigger] all.contains(p) <==> (paths.contains(p) || exists|i: int|
            0 <= i < artifacts.len() && (#[trigger] artifacts[i]).path@ == p) by {
            if all.contains(p) {
                let k = choose|k: int| 0 <= k < all.len() && all[k] == p;
                if k < before.len() {
                    assert(before[k] == p);
                    assert(before.contains(p));
                    if !paths.contains(p) {
                        let i = choose|i: int| 0 <= i < init.len() && (#[trigger] init[i]).path@ == p;
                        assert(artifacts[i].path@ == p);
                    }
                } else {
                    assert(artifacts[artifacts.len() - 1].path@ == p);
                }
            }
            if before.contains(p) {
                let k = choose|k: int| 0 <= k < before.len() && before[k] == p;
                assert(all[k] == p);
            }
            if paths.contains(p) {
                assert(before.contains(p));
            }
            if exists|i: int| 0 <= i < artifacts.len() && (#[trigger] artifacts[i]).path@ == p {
                let i = choose|i: int|
                    0 <= i < artifacts.len() && (#[trigger] artifacts[i]).path@ == p;
                if i < init.len() {
                    assert(init[i].path@ == p);
                    assert(before.contains(p));
                } else if !before.contains(path) {
                    assert(all[before.len() as int] == p);
                }
            }
        }
        assert forall|i: int, j: int| 0 <= i < j < all.len() && j >= paths.len() implies all[i]
            != all[j] by {
            if j < before.len() {
                assert(before[i] != before[j]);
            } else {
                assert(before.contains(before[i]));
            }
        }
    }
}

/// The artifacts are taken one after the other, each adding its path at the end unless it is carried
/// already.
pub proof fn artifacts_add_their_paths_in_order(
    paths: Seq<Seq<char>>,
    artifacts: Seq<Artifact>,
    artifact: Artifact,
)
    ensures
        carried(paths, Seq::empty()) == paths,
        carried(paths, artifacts).contains(artifact.path@) ==> carried(
            paths,
            artifacts.push(artifact),
        ) == carried(paths, artifacts),
        !carried(paths, artifacts).contains(artifact.path@) ==> carried(
            paths,
            artifacts.push(artifact),
        ) == carried(paths, artifacts).push(artifact.path@),
{
    assert(artifacts.push(artifact).drop_last() == artifacts);
}

/// Each harness has its own model.
pub proof fn each_harness_runs_its_own_model(models: HarnessModels)
    ensures
        Harness::Claude.model_among(models) == models.claude@,
        Harness::Hermes.model_among(models) == models.hermes@,
        Harness::Codex.model_among(models) == models.codex@,
{
}

/// A workflow waits to be compiled exactly where it names a source and has no graph.
pub proof fn workflow_with_a_graph_is_resolved(workflow: WorkflowCfg)
    ensures
        workflow.graph is Some ==> !workflow.unresolved(),
        workflow.graph is None ==> (workflow.unresolved() <==> workflow.file is Some),
{
}

/// Each lane has its own name.
pub proof fn each_lane_has_its_name()
    ensures
        WorkflowType::Autoresearch.label() == "Autoresearch"@,
        WorkflowType::Custom.label() == "Custom"@,
        WorkflowType::Playbook.label() == "Playbook"@,
{
}

} // verus!
