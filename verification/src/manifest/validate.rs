use vstd::prelude::*;

use crate::manifest::error::{ManifestError, ManifestFault, Refusal, RefusalFault};
use crate::manifest::hard_tools;
use crate::manifest::types;
use crate::manifest::types::{
    AgentCfg, Artifact, ComponentRef, CompositeManifest, JudgeCfg, Manifest, OpaqueTable, Repo,
    WorkflowCfg, WorkflowType, Workspace,
};
use crate::paths;
use crate::text;

verus! {

/// What the parts of the engine that own a table say of it: the reason where they refuse it.
#[derive(Debug)]
pub struct TableVerdicts {
    pub search: Option<String>,
    pub workflow: Option<String>,
    pub selftest: Option<String>,
    pub builds: Option<String>,
    pub preflight: Option<String>,
}

impl TableVerdicts {
    /// No table is refused.
    pub fn accepting() -> (r: TableVerdicts)
        ensures
            r.accepts(),
    {
        TableVerdicts { search: None, workflow: None, selftest: None, builds: None, preflight: None }
    }

    pub open spec fn accepts(self) -> bool {
        &&& self.search is None
        &&& self.workflow is None
        &&& self.selftest is None
        &&& self.builds is None
        &&& self.preflight is None
    }
}

/// A component that a carried path must not have.
pub open spec fn dotted(piece: Seq<char>) -> bool {
    piece == "."@ || piece == ".."@
}

/// Whether an entry names no path inside the workspace: nothing at all, a path from the root, or
/// one with a `.` or `..` component.
pub open spec fn bad_entry(entry: Seq<char>) -> bool {
    ||| entry.len() == 0
    ||| paths::rooted(entry)
    ||| exists|i: int|
        0 <= i < text::split(entry, '/').len() && dotted(#[trigger] text::split(entry, '/')[i])
}

/// The first of the entries that names no path inside the workspace.
pub open spec fn first_bad_entry(entries: Seq<Seq<char>>) -> Option<Seq<char>>
    decreases entries.len(),
{
    if entries.len() == 0 {
        None
    } else if bad_entry(entries[0]) {
        Some(entries[0])
    } else {
        first_bad_entry(entries.drop_first())
    }
}

fn is_bad_entry(entry: &str) -> (r: bool)
    ensures
        r == bad_entry(entry@),
{
    if entry.unicode_len() == 0 || paths::is_absolute(entry) {
        return true;
    }
    let pieces = text::split_on(entry, '/');
    let ghost all = text::split(entry@, '/');
    let mut i: usize = 0;
    while i < pieces.len()
        invariant
            entry@.len() > 0,
            !paths::rooted(entry@),
            i <= pieces@.len(),
            all == text::split(entry@, '/'),
            text::texts(pieces@) == all,
            forall|j: int| 0 <= j < i ==> !dotted(#[trigger] all[j]),
        decreases pieces@.len() - i,
    {
        assert(all[i as int] == pieces@[i as int]@);
        if text::same_text(pieces[i].as_str(), ".") || text::same_text(pieces[i].as_str(), "..") {
            assert(dotted(text::split(entry@, '/')[i as int]));
            return true;
        }
        i = i + 1;
    }
    assert(all.len() == pieces@.len());
    false
}

/// Checks that every entry names a path inside the workspace.
pub fn validate_carry_forward(entries: &Vec<String>) -> (r: Result<(), ManifestError>)
    ensures
        match r {
            Ok(()) => first_bad_entry(text::texts(entries@)) is None,
            Err(e) => first_bad_entry(text::texts(entries@)) matches Some(entry) && e@
                == ManifestFault::BadCarryForward(entry),
        },
{
    let ghost all = text::texts(entries@);
    let mut i: usize = 0;
    assert(all.skip(0) =~= all);
    while i < entries.len()
        invariant
            i <= entries@.len(),
            all == text::texts(entries@),
            first_bad_entry(all) == first_bad_entry(all.skip(i as int)),
        decreases entries@.len() - i,
    {
        assert(all.skip(i as int)[0] == entries@[i as int]@);
        assert(all.skip(i as int).drop_first() =~= all.skip(i + 1));
        if is_bad_entry(entries[i].as_str()) {
            return Err(ManifestError::BadCarryForward { entry: entries[i].clone() });
        }
        i = i + 1;
    }
    Ok(())
}

/// A name that can be that of a file: not empty, and without a separator.
pub open spec fn bare_name(name: Seq<char>) -> bool {
    name.len() > 0 && !name.contains('/') && !name.contains('\\')
}

/// The paths of artifacts.
pub open spec fn artifact_paths(artifacts: Seq<Artifact>) -> Seq<Seq<char>> {
    Seq::new(artifacts.len(), |i: int| artifacts[i].path@)
}

/// The first name of an artifact that is no bare name: the embedded one before the uploaded one.
pub open spec fn bad_artifact_name(artifact: Artifact) -> Option<Seq<char>> {
    match artifact.embed {
        Some(name) if !bare_name(name@) => Some(name@),
        _ => match artifact.upload {
            Some(name) if !bare_name(name@) => Some(name@),
            _ => None,
        },
    }
}

/// The first such name among artifacts.
pub open spec fn first_bad_name(artifacts: Seq<Artifact>) -> Option<Seq<char>>
    decreases artifacts.len(),
{
    if artifacts.len() == 0 {
        None
    } else {
        match bad_artifact_name(artifacts[0]) {
            Some(name) => Some(name),
            None => first_bad_name(artifacts.drop_first()),
        }
    }
}

/// What is wrong with the artifacts: all their paths count before any of their names.
pub open spec fn artifacts_fault(artifacts: Seq<Artifact>) -> Option<ManifestFault> {
    match first_bad_entry(artifact_paths(artifacts)) {
        Some(entry) => Some(ManifestFault::BadCarryForward(entry)),
        None => match first_bad_name(artifacts) {
            Some(name) => Some(ManifestFault::BadArtifactEmbed(name)),
            None => None,
        },
    }
}

fn is_bare_name(name: &str) -> (r: bool)
    ensures
        r == bare_name(name@),
{
    name.unicode_len() > 0 && !text::has_char(name, '/') && !text::has_char(name, '\\')
}

fn check_artifact_names(artifact: &Artifact) -> (r: Result<(), ManifestError>)
    ensures
        match r {
            Ok(()) => bad_artifact_name(*artifact) is None,
            Err(e) => bad_artifact_name(*artifact) matches Some(name) && e@
                == ManifestFault::BadArtifactEmbed(name),
        },
{
    match &artifact.embed {
        Some(name) => {
            if !is_bare_name(name.as_str()) {
                return Err(ManifestError::BadArtifactEmbed { embed: name.clone() });
            }
        },
        None => {},
    }
    match &artifact.upload {
        Some(name) => {
            if !is_bare_name(name.as_str()) {
                return Err(ManifestError::BadArtifactEmbed { embed: name.clone() });
            }
        },
        None => {},
    }
    Ok(())
}

/// Checks the artifacts: their paths as carried paths, the names they look for as bare names.
pub fn validate_artifacts(artifacts: &Vec<Artifact>) -> (r: Result<(), ManifestError>)
    ensures
        match r {
            Ok(()) => artifacts_fault(artifacts@) is None,
            Err(e) => artifacts_fault(artifacts@) == Some(e@),
        },
{
    let mut entries: Vec<String> = Vec::new();
    let mut i: usize = 0;
    while i < artifacts.len()
        invariant
            i <= artifacts@.len(),
            entries@.len() == i,
            forall|j: int| 0 <= j < i ==> (#[trigger] entries@[j])@ == artifacts@[j].path@,
        decreases artifacts@.len() - i,
    {
        entries.push(artifacts[i].path.clone());
        i = i + 1;
    }
    assert(text::texts(entries@) =~= artifact_paths(artifacts@));
    match validate_carry_forward(&entries) {
        Err(error) => return Err(error),
        Ok(()) => {},
    }
    let mut k: usize = 0;
    assert(artifacts@.skip(0) =~= artifacts@);
    while k < artifacts.len()
        invariant
            k <= artifacts@.len(),
            first_bad_entry(artifact_paths(artifacts@)) is None,
            first_bad_name(artifacts@) == first_bad_name(artifacts@.skip(k as int)),
        decreases artifacts@.len() - k,
    {
        assert(artifacts@.skip(k as int)[0] == artifacts@[k as int]);
        assert(artifacts@.skip(k as int).drop_first() =~= artifacts@.skip(k + 1));
        match check_artifact_names(&artifacts[k]) {
            Err(error) => return Err(error),
            Ok(()) => {},
        }
        k = k + 1;
    }
    Ok(())
}

/// The tables that both shapes of manifest have.
pub struct CommonCfg<'a> {
    pub workspace: &'a Workspace,
    pub agent: &'a AgentCfg,
    pub judge: Option<&'a JudgeCfg>,
    pub search: &'a Option<OpaqueTable>,
    pub workflow: &'a Option<WorkflowCfg>,
    pub preflight: &'a Option<OpaqueTable>,
}

pub open spec fn is_playbook(workflow: Option<WorkflowCfg>) -> bool {
    workflow matches Some(w) && w.workflow_type == WorkflowType::Playbook
}

pub open spec fn refused(fault: ManifestFault) -> Option<RefusalFault> {
    Some(RefusalFault::Manifest(fault))
}

/// The refusals are looked for in this order; the first counts.
pub open spec fn first_of(
    first: Option<RefusalFault>,
    then_fault: Option<RefusalFault>,
) -> Option<RefusalFault> {
    match first {
        Some(fault) => Some(fault),
        None => then_fault,
    }
}

/// The refusal of a table by its owner.
pub open spec fn verdict(reason: Option<String>) -> Option<RefusalFault> {
    match reason {
        Some(text) => Some(RefusalFault::Table(text@)),
        None => None,
    }
}

/// What is wrong with the broker.
pub open spec fn broker_fault(agent: AgentCfg) -> Option<RefusalFault> {
    if agent.broker.enabled && agent.broker.bin@.len() == 0 {
        refused(ManifestFault::BrokerBinRequired)
    } else {
        match hard_tools::services_fault(agent.broker.hard_tool@, agent.broker.enabled) {
            Some(fault) => Some(RefusalFault::HardTool(fault)),
            None => None,
        }
    }
}

/// What is wrong with the workspace.
pub open spec fn workspace_fault(workspace: Workspace) -> Option<RefusalFault> {
    match first_bad_entry(text::texts(workspace.carry_forward@)) {
        Some(entry) => refused(ManifestFault::BadCarryForward(entry)),
        None => match artifacts_fault(workspace.artifact@) {
            Some(fault) => refused(fault),
            None => None,
        },
    }
}

/// What is wrong with a scored run: its judge may not claim the objective of a task, and a playbook
/// scores nothing.
pub open spec fn scored_fault(
    judge: JudgeCfg,
    workflow: Option<WorkflowCfg>,
    verdicts: TableVerdicts,
) -> Option<RefusalFault> {
    match verdict(verdicts.selftest) {
        Some(fault) => Some(fault),
        None => if judge.objective@ == "task"@ {
            refused(ManifestFault::TaskObjectiveReserved)
        } else if is_playbook(workflow) {
            refused(ManifestFault::PlaybookNeedsNoJudge)
        } else {
            None
        },
    }
}

/// What is wrong with a task: it has no scores, so nothing that needs them can stand beside it. A
/// playbook needs none.
pub open spec fn task_fault(
    search: Option<OpaqueTable>,
    workflow: Option<WorkflowCfg>,
    preflight: Option<OpaqueTable>,
) -> Option<RefusalFault> {
    if search is Some {
        refused(ManifestFault::TaskLaneRejects("[search]"@))
    } else if workflow is Some && !is_playbook(workflow) {
        refused(ManifestFault::TaskLaneRejects("[workflow]"@))
    } else if preflight is Some {
        refused(ManifestFault::TaskLaneRejects("[preflight]"@))
    } else {
        None
    }
}

/// What is wrong with the tables that both shapes of manifest have.
pub open spec fn common_fault(c: CommonCfg, verdicts: TableVerdicts) -> Option<RefusalFault> {
    first_of(
        broker_fault(*c.agent),
        first_of(
            workspace_fault(*c.workspace),
            first_of(
                verdict(verdicts.search),
                first_of(
                    if c.workflow is Some {
                        verdict(verdicts.workflow)
                    } else {
                        None
                    },
                    first_of(
                        match c.judge {
                            Some(judge) => scored_fault(*judge, *c.workflow, verdicts),
                            None => task_fault(*c.search, *c.workflow, *c.preflight),
                        },
                        first_of(verdict(verdicts.builds), verdict(verdicts.preflight)),
                    ),
                ),
            ),
        ),
    )
}

fn obey(reason: &Option<String>) -> (r: Result<(), Refusal>)
    ensures
        match r {
            Ok(()) => verdict(*reason) is None,
            Err(e) => verdict(*reason) == Some(e@),
        },
{
    match reason {
        Some(text) => Err(Refusal::Table { reason: text.clone() }),
        None => Ok(()),
    }
}

fn check_broker(agent: &AgentCfg) -> (r: Result<(), Refusal>)
    ensures
        match r {
            Ok(()) => broker_fault(*agent) is None,
            Err(e) => broker_fault(*agent) == Some(e@),
        },
{
    if agent.broker.enabled && agent.broker.bin.as_str().unicode_len() == 0 {
        return Err(Refusal::Manifest { error: ManifestError::BrokerBinRequired });
    }
    match hard_tools::validate(&agent.broker.hard_tool, agent.broker.enabled) {
        Ok(()) => Ok(()),
        Err(error) => Err(Refusal::HardTool { error }),
    }
}

fn check_workspace(workspace: &Workspace) -> (r: Result<(), Refusal>)
    ensures
        match r {
            Ok(()) => workspace_fault(*workspace) is None,
            Err(e) => workspace_fault(*workspace) == Some(e@),
        },
{
    match validate_carry_forward(&workspace.carry_forward) {
        Ok(()) => {},
        Err(error) => return Err(Refusal::Manifest { error }),
    }
    match validate_artifacts(&workspace.artifact) {
        Ok(()) => Ok(()),
        Err(error) => Err(Refusal::Manifest { error }),
    }
}

fn has_playbook(workflow: &Option<WorkflowCfg>) -> (r: bool)
    ensures
        r == is_playbook(*workflow),
{
    match workflow {
        Some(w) => w.workflow_type == WorkflowType::Playbook,
        None => false,
    }
}

fn check_lane(c: &CommonCfg, verdicts: &TableVerdicts) -> (r: Result<(), Refusal>)
    ensures
        ({
            let fault = match c.judge {
                Some(judge) => scored_fault(*judge, *c.workflow, *verdicts),
                None => task_fault(*c.search, *c.workflow, *c.preflight),
            };
            match r {
                Ok(()) => fault is None,
                Err(e) => fault == Some(e@),
            }
        }),
{
    let playbook = has_playbook(c.workflow);
    match c.judge {
        Some(judge) => {
            match obey(&verdicts.selftest) {
                Ok(()) => {},
                Err(refusal) => return Err(refusal),
            }
            if text::same_text(judge.objective.as_str(), "task") {
                return Err(Refusal::Manifest { error: ManifestError::TaskObjectiveReserved });
            }
            if playbook {
                return Err(Refusal::Manifest { error: ManifestError::PlaybookNeedsNoJudge });
            }
            Ok(())
        },
        None => {
            let table = if c.search.is_some() {
                "[search]"
            } else if c.workflow.is_some() && !playbook {
                "[workflow]"
            } else if c.preflight.is_some() {
                "[preflight]"
            } else {
                return Ok(());
            };
            Err(Refusal::Manifest { error: ManifestError::TaskLaneRejects { table: table.to_owned() } })
        },
    }
}

/// The checks that both shapes of manifest share, over several tables at once.
pub fn validate_common(c: CommonCfg, verdicts: &TableVerdicts) -> (r: Result<(), Refusal>)
    ensures
        match r {
            Ok(()) => common_fault(c, *verdicts) is None,
            Err(e) => common_fault(c, *verdicts) == Some(e@),
        },
{
    match check_broker(c.agent) {
        Ok(()) => {},
        Err(refusal) => return Err(refusal),
    }
    match check_workspace(c.workspace) {
        Ok(()) => {},
        Err(refusal) => return Err(refusal),
    }
    match obey(&verdicts.search) {
        Ok(()) => {},
        Err(refusal) => return Err(refusal),
    }
    if c.workflow.is_some() {
        match obey(&verdicts.workflow) {
            Ok(()) => {},
            Err(refusal) => return Err(refusal),
        }
    }
    match check_lane(&c, verdicts) {
        Ok(()) => {},
        Err(refusal) => return Err(refusal),
    }
    match obey(&verdicts.builds) {
        Ok(()) => {},
        Err(refusal) => return Err(refusal),
    }
    obey(&verdicts.preflight)
}

/// What is wrong with the upstream: it is named by a URL or by a path, never by both or neither.
pub open spec fn repo_fault(repo: Repo) -> Option<RefusalFault> {
    if repo.url is Some == repo.path is Some {
        refused(ManifestFault::RepoNeedsOneSource)
    } else {
        None
    }
}

impl Manifest {
    /// What is wrong with the manifest.
    pub open spec fn fault(self, verdicts: TableVerdicts) -> Option<RefusalFault> {
        first_of(
            repo_fault(self.repo),
            common_fault(
                (CommonCfg {
                    workspace: &self.workspace,
                    agent: &self.agent,
                    judge: match self.judge {
                        Some(judge) => Some(&judge),
                        None => None,
                    },
                    search: &self.search,
                    workflow: &self.workflow,
                    preflight: &self.preflight,
                }),
                verdicts,
            ),
        )
    }

    /// The checks over several fields at once, made whenever a manifest is loaded.
    pub fn validate(&self, verdicts: &TableVerdicts) -> (r: Result<(), Refusal>)
        ensures
            match r {
                Ok(()) => self.fault(*verdicts) is None,
                Err(e) => self.fault(*verdicts) == Some(e@),
            },
    {
        if self.repo.url.is_some() == self.repo.path.is_some() {
            return Err(Refusal::Manifest { error: ManifestError::RepoNeedsOneSource });
        }
        validate_common(
            CommonCfg {
                workspace: &self.workspace,
                agent: &self.agent,
                judge: match &self.judge {
                    Some(judge) => Some(judge),
                    None => None,
                },
                search: &self.search,
                workflow: &self.workflow,
                preflight: &self.preflight,
            },
            verdicts,
        )
    }
}

/// The first component domain that was named before.
pub open spec fn first_duplicate(components: Seq<ComponentRef>, n: int) -> Option<Seq<char>>
    decreases n,
{
    if n <= 0 {
        None
    } else {
        match first_duplicate(components, n - 1) {
            Some(domain) => Some(domain),
            None => if exists|j: int|
                0 <= j < n - 1 && (#[trigger] components[j]).domain@ == components[n - 1].domain@ {
                Some(components[n - 1].domain@)
            } else {
                None
            },
        }
    }
}

proof fn lemma_duplicate_stays(components: Seq<ComponentRef>, m: int, n: int)
    requires
        m <= n,
        first_duplicate(components, m) is Some,
    ensures
        first_duplicate(components, n) == first_duplicate(components, m),
    decreases n - m,
{
    if m < n {
        lemma_duplicate_stays(components, m, n - 1);
    }
}

fn check_components(components: &Vec<ComponentRef>) -> (r: Result<(), ManifestError>)
    ensures
        match r {
            Ok(()) => first_duplicate(components@, components@.len() as int) is None,
            Err(e) => first_duplicate(components@, components@.len() as int) matches Some(domain)
                && e@ == ManifestFault::DuplicateComponent(domain),
        },
{
    let mut seen: Vec<String> = Vec::new();
    let mut i: usize = 0;
    while i < components.len()
        invariant
            i <= components@.len(),
            seen@.len() == i,
            forall|j: int| 0 <= j < i ==> (#[trigger] seen@[j])@ == components@[j].domain@,
            first_duplicate(components@, i as int) is None,
        decreases components@.len() - i,
    {
        let domain = &components[i].domain;
        let again = text::list_has(&seen, domain.as_str());
        proof {
            let texts = text::texts(seen@);
            if again {
                let j = choose|j: int| 0 <= j < texts.len() && texts[j] == domain@;
                assert(components@[j].domain@ == domain@);
            }
            if exists|j: int| 0 <= j < i && (#[trigger] components@[j]).domain@ == domain@ {
                let j = choose|j: int| 0 <= j < i && (#[trigger] components@[j]).domain@ == domain@;
                assert(texts[j] == domain@);
            }
        }
        if again {
            proof {
                lemma_duplicate_stays(components@, i + 1, components@.len() as int);
            }
            return Err(ManifestError::DuplicateComponent { domain: domain.clone() });
        }
        seen.push(domain.clone());
        i = i + 1;
    }
    Ok(())
}

impl CompositeManifest {
    /// What is wrong with the composite: too few components, keys that no component would honour,
    /// a component twice, or what can be wrong with any scored manifest.
    pub open spec fn fault(self, verdicts: TableVerdicts) -> Option<RefusalFault> {
        if self.components@.len() < 2 {
            refused(ManifestFault::CompositeTooSmall)
        } else if self.workspace.carry_forward@.len() > 0 {
            refused(ManifestFault::CompositeCarryForward)
        } else if self.workspace.artifact@.len() > 0 {
            refused(ManifestFault::CompositeArtifact)
        } else {
            match first_duplicate(self.components@, self.components@.len() as int) {
                Some(domain) => refused(ManifestFault::DuplicateComponent(domain)),
                None => common_fault(
                    (CommonCfg {
                        workspace: &self.workspace,
                        agent: &self.agent,
                        judge: Some(&self.judge),
                        search: &self.search,
                        workflow: &self.workflow,
                        preflight: &self.preflight,
                    }),
                    verdicts,
                ),
            }
        }
    }

    /// The checks over several fields at once, made whenever a composite is loaded.
    pub fn validate(&self, verdicts: &TableVerdicts) -> (r: Result<(), Refusal>)
        ensures
            match r {
                Ok(()) => self.fault(*verdicts) is None,
                Err(e) => self.fault(*verdicts) == Some(e@),
            },
    {
        if self.components.len() < 2 {
            return Err(Refusal::Manifest { error: ManifestError::CompositeTooSmall });
        }
        if self.workspace.carry_forward.len() > 0 {
            return Err(Refusal::Manifest { error: ManifestError::CompositeCarryForward });
        }
        if self.workspace.artifact.len() > 0 {
            return Err(Refusal::Manifest { error: ManifestError::CompositeArtifact });
        }
        match check_components(&self.components) {
            Ok(()) => {},
            Err(error) => return Err(Refusal::Manifest { error }),
        }
        validate_common(
            CommonCfg {
                workspace: &self.workspace,
                agent: &self.agent,
                judge: Some(&self.judge),
                search: &self.search,
                workflow: &self.workflow,
                preflight: &self.preflight,
            },
            verdicts,
        )
    }
}

/// A carried path leads to something inside the workspace, never to the workspace itself or out of
/// it.
pub proof fn carried_path_stays_in_the_workspace(
    cwd: Seq<char>,
    workspace: Seq<char>,
    entry: Seq<char>,
)
    requires
        !bad_entry(entry),
    ensures
        paths::resolved(cwd, workspace).is_prefix_of(
            paths::resolved(cwd, paths::joined(workspace, entry)),
        ),
        paths::resolved(cwd, workspace).len() < paths::resolved(
            cwd,
            paths::joined(workspace, entry),
        ).len(),
{
    let pieces = text::split(entry, '/');
    assert forall|i: int| 0 <= i < pieces.len() implies (#[trigger] pieces[i]) != "."@ && pieces[i]
        != ".."@ by {
        assert(!dotted(text::split(entry, '/')[i]));
    }
    paths::undotted_path_leads_below(cwd, workspace, entry);
    let dir = paths::resolved(cwd, workspace);
    let whole = dir + paths::named(pieces);
    assert(dir == whole.subrange(0, dir.len() as int));
    paths::lemma_first_piece_is_named(entry);
}

/// Every path that an accepted manifest carries leads to something inside the workspace.
pub proof fn accepted_manifest_carries_inside(m: Manifest, verdicts: TableVerdicts, path: Seq<char>)
    requires
        m.fault(verdicts) is None,
        types::carried(text::texts(m.workspace.carry_forward@), m.workspace.artifact@).contains(
            path,
        ),
    ensures
        !bad_entry(path),
{
    let entries = text::texts(m.workspace.carry_forward@);
    let artifacts = m.workspace.artifact@;
    types::carried_paths_are_those_declared(entries, artifacts);
    if entries.contains(path) {
        let i = choose|i: int| 0 <= i < entries.len() && entries[i] == path;
        lemma_no_bad_entry(entries, i);
    } else {
        let i = choose|i: int| 0 <= i < artifacts.len() && (#[trigger] artifacts[i]).path@ == path;
        assert(artifact_paths(artifacts)[i] == path);
        lemma_no_bad_entry(artifact_paths(artifacts), i);
    }
}

proof fn lemma_no_bad_entry(entries: Seq<Seq<char>>, i: int)
    requires
        first_bad_entry(entries) is None,
        0 <= i < entries.len(),
    ensures
        !bad_entry(entries[i]),
    decreases entries.len(),
{
    if i > 0 {
        lemma_no_bad_entry(entries.drop_first(), i - 1);
    }
}

/// An accepted manifest names its upstream by a URL or by a path, and not by both.
pub proof fn accepted_manifest_names_one_source(m: Manifest, verdicts: TableVerdicts)
    requires
        m.fault(verdicts) is None,
    ensures
        m.repo.url is Some <==> m.repo.path is None,
{
}

/// An accepted task has nothing beside it that needs scores, and an accepted scored run neither
/// claims a task's objective nor runs a playbook.
pub proof fn accepted_manifest_keeps_to_its_lane(m: Manifest, verdicts: TableVerdicts)
    requires
        m.fault(verdicts) is None,
    ensures
        m.judge is None ==> m.search is None && m.preflight is None && (m.workflow is Some
            ==> is_playbook(m.workflow)),
        m.judge matches Some(judge) ==> judge.objective@ != "task"@ && !is_playbook(m.workflow),
        m.agent.broker.enabled ==> m.agent.broker.bin@.len() > 0,
        m.agent.broker.hard_tool@.len() > 0 ==> m.agent.broker.enabled,
{
}

proof fn lemma_no_duplicate(components: Seq<ComponentRef>, n: int, i: int, j: int)
    requires
        first_duplicate(components, n) is None,
        0 <= i < j < n,
    ensures
        components[i].domain@ != components[j].domain@,
    decreases n,
{
    if j < n - 1 {
        lemma_no_duplicate(components, n - 1, i, j);
    }
}

/// An accepted composite has at least two components, each domain once; it carries nothing and it
/// is scored.
pub proof fn accepted_composite_is_scored_and_distinct(
    m: CompositeManifest,
    verdicts: TableVerdicts,
    i: int,
    j: int,
)
    requires
        m.fault(verdicts) is None,
        0 <= i < j < m.components@.len(),
    ensures
        m.components@.len() >= 2,
        m.components@[i].domain@ != m.components@[j].domain@,
        types::carried(text::texts(m.workspace.carry_forward@), m.workspace.artifact@).len() == 0,
        m.judge.objective@ != "task"@,
        !is_playbook(m.workflow),
{
    lemma_no_duplicate(m.components@, m.components@.len() as int, i, j);
}

/// A path that can be carried: not empty, not from the root, and without a `.` or `..` step.
pub open spec fn carriable(path: Seq<char>) -> bool {
    &&& path.len() > 0
    &&& path[0] != '/'
    &&& forall|i: int|
        0 <= i < text::split(path, '/').len() ==> (#[trigger] text::split(path, '/')[i]) != "."@
            && text::split(path, '/')[i] != ".."@
}

proof fn lemma_carriable(path: Seq<char>)
    ensures
        bad_entry(path) <==> !carriable(path),
{
    let pieces = text::split(path, '/');
    if !bad_entry(path) {
        assert forall|i: int| 0 <= i < pieces.len() implies (#[trigger] pieces[i]) != "."@
            && pieces[i] != ".."@ by {
            assert(!dotted(text::split(path, '/')[i]));
        }
    }
    if carriable(path) && bad_entry(path) {
        let i = choose|i: int| 0 <= i < pieces.len() && dotted(#[trigger] text::split(path, '/')[i]);
        assert(text::split(path, '/')[i] != "."@);
    }
}

/// A path of bare names can be carried, however many they are.
pub proof fn paths_of_names_can_be_carried(names: Seq<Seq<char>>)
    requires
        names.len() > 0,
        paths::plain_names(names),
    ensures
        carriable(text::join(names, "/"@)),
        !bad_entry(text::join(names, "/"@)),
{
    let path = text::join(names, "/"@);
    paths::lemma_plain_names(names);
    assert forall|i: int| 0 <= i < text::split(path, '/').len() implies (#[trigger] text::split(
        path,
        '/',
    )[i]) != "."@ && text::split(path, '/')[i] != ".."@ by {
        assert(paths::plain_name(names[i]));
    }
    lemma_carriable(path);
}

/// A step up, or one that stays, anywhere in a path keeps it from being carried.
pub proof fn paths_with_dots_are_not_carried(names: Seq<Seq<char>>, i: int)
    requires
        0 <= i < names.len(),
        forall|k: int| 0 <= k < names.len() ==> !(#[trigger] names[k]).contains('/'),
        names[i] == "."@ || names[i] == ".."@,
    ensures
        bad_entry(text::join(names, "/"@)),
{
    reveal_strlit("/");
    assert("/"@ == seq!['/']);
    text::join_then_split(names, '/');
    assert(dotted(text::split(text::join(names, "/"@), '/')[i]));
}

/// A file name without a separator of either kind.
pub open spec fn file_name(name: Seq<char>) -> bool {
    name.len() > 0 && !name.contains('/') && !name.contains('\\')
}

/// An artifact with a path that can be carried and with bare names, where it has any.
pub open spec fn artifact_in_order(artifact: Artifact) -> bool {
    &&& carriable(artifact.path@)
    &&& artifact.embed matches Some(name) ==> file_name(name@)
    &&& artifact.upload matches Some(name) ==> file_name(name@)
}

/// Everything carried and every artifact is in order.
pub open spec fn workspace_in_order(workspace: Workspace) -> bool {
    &&& forall|i: int|
        0 <= i < workspace.carry_forward@.len() ==> carriable(
            (#[trigger] workspace.carry_forward@[i])@,
        )
    &&& forall|i: int|
        0 <= i < workspace.artifact@.len() ==> artifact_in_order(#[trigger] workspace.artifact@[i])
}

/// A broker that has its binary where it is enabled, and services that are in order.
pub open spec fn broker_in_order(agent: AgentCfg) -> bool {
    &&& agent.broker.enabled ==> agent.broker.bin@.len() > 0
    &&& agent.broker.hard_tool@.len() > 0 ==> agent.broker.enabled
    &&& forall|i: int|
        0 <= i < agent.broker.hard_tool@.len() ==> #[trigger] hard_tools::service_in_order(
            agent.broker.hard_tool@,
            i,
        )
}

proof fn lemma_first_bad_entry(entries: Seq<Seq<char>>)
    ensures
        match first_bad_entry(entries) {
            None => forall|i: int| 0 <= i < entries.len() ==> carriable(#[trigger] entries[i]),
            Some(entry) => exists|i: int|
                0 <= i < entries.len() && entry == #[trigger] entries[i] && !carriable(entry)
                    && forall|k: int| 0 <= k < i ==> carriable(#[trigger] entries[k]),
        },
    decreases entries.len(),
{
    if entries.len() > 0 {
        let rest = entries.drop_first();
        lemma_first_bad_entry(rest);
        lemma_carriable(entries[0]);
        if !bad_entry(entries[0]) {
            assert forall|i: int| 0 < i < entries.len() implies rest[i - 1] == #[trigger] entries[i] by {}
            match first_bad_entry(rest) {
                None => {
                    assert forall|i: int| 0 <= i < entries.len() implies carriable(
                        #[trigger] entries[i],
                    ) by {
                        if i > 0 {
                            assert(carriable(rest[i - 1]));
                        }
                    }
                },
                Some(entry) => {
                    let i = choose|i: int|
                        0 <= i < rest.len() && entry == #[trigger] rest[i] && !carriable(entry)
                            && forall|k: int| 0 <= k < i ==> carriable(#[trigger] rest[k]);
                    assert(entries[i + 1] == entry);
                    assert forall|k: int| 0 <= k < i + 1 implies carriable(#[trigger] entries[k]) by {
                        if k > 0 {
                            assert(carriable(rest[k - 1]));
                        }
                    }
                },
            }
        } else {
            assert(entries[0] == first_bad_entry(entries)->0);
        }
    }
}

proof fn lemma_first_bad_name(artifacts: Seq<Artifact>)
    ensures
        first_bad_name(artifacts) is None <==> forall|i: int|
            0 <= i < artifacts.len() ==> bad_artifact_name(#[trigger] artifacts[i]) is None,
        first_bad_name(artifacts) matches Some(name) ==> !file_name(name) && exists|i: int|
            {
                &&& 0 <= i < artifacts.len()
                &&& ((#[trigger] artifacts[i]).embed matches Some(e) && e@ == name) || (
                artifacts[i].upload matches Some(u) && u@ == name)
            },
    decreases artifacts.len(),
{
    if artifacts.len() > 0 {
        let rest = artifacts.drop_first();
        lemma_first_bad_name(rest);
        assert forall|i: int| 0 < i < artifacts.len() implies rest[i - 1] == #[trigger] artifacts[i] by {}
        let first = artifacts[0];
        if bad_artifact_name(first) is None {
            if first_bad_name(rest) is None {
                assert forall|i: int| 0 <= i < artifacts.len() implies bad_artifact_name(
                    #[trigger] artifacts[i],
                ) is None by {
                    if i > 0 {
                        assert(bad_artifact_name(rest[i - 1]) is None);
                    }
                }
            } else {
                let j = choose|j: int|
                    0 <= j < rest.len() && bad_artifact_name(#[trigger] rest[j]) is Some;
                assert(bad_artifact_name(artifacts[j + 1]) is Some);
                let name = first_bad_name(rest)->0;
                let i = choose|i: int|
                    {
                        &&& 0 <= i < rest.len()
                        &&& ((#[trigger] rest[i]).embed matches Some(e) && e@ == name) || (
                        rest[i].upload matches Some(u) && u@ == name)
                    };
                assert(artifacts[i + 1] == rest[i]);
            }
        } else {
            assert(bad_artifact_name(artifacts[0]) is Some);
        }
    }
}

/// What the workspace is refused for.
proof fn lemma_workspace_fault(workspace: Workspace)
    ensures
        workspace_fault(workspace) is None <==> workspace_in_order(workspace),
{
    let entries = text::texts(workspace.carry_forward@);
    let artifacts = workspace.artifact@;
    let carried = artifact_paths(artifacts);
    lemma_first_bad_entry(entries);
    lemma_first_bad_entry(carried);
    lemma_first_bad_name(artifacts);
    if workspace_fault(workspace) is None {
        assert forall|i: int| 0 <= i < entries.len() implies carriable(
            (#[trigger] workspace.carry_forward@[i])@,
        ) by {
            assert(carriable(entries[i]));
        }
        assert forall|i: int| 0 <= i < artifacts.len() implies artifact_in_order(
            #[trigger] artifacts[i],
        ) by {
            assert(carriable(carried[i]));
            assert(bad_artifact_name(artifacts[i]) is None);
        }
    }
    if workspace_in_order(workspace) {
        assert forall|i: int| 0 <= i < entries.len() implies carriable(#[trigger] entries[i]) by {
            assert(carriable(workspace.carry_forward@[i]@));
        }
        assert forall|i: int| 0 <= i < carried.len() implies carriable(#[trigger] carried[i]) by {
            assert(artifact_in_order(artifacts[i]));
        }
        assert forall|i: int| 0 <= i < artifacts.len() implies bad_artifact_name(
            #[trigger] artifacts[i],
        ) is None by {
            assert(artifact_in_order(artifacts[i]));
        }
    }
}

/// A manifest is accepted exactly where nothing is wrong with it. It names one source; an enabled
/// broker has its binary and its services are in order; what is carried and the artifacts are in
/// order; no owner of a table that counts objects. Beside a judge the objective is not that of a
/// task and the workflow is no playbook, whatever `[search]` and `[preflight]` hold. Without a judge
/// there is neither of these two, and a workflow is a playbook.
pub proof fn manifest_is_accepted_exactly_when_nothing_is_wrong(m: Manifest, verdicts: TableVerdicts)
    ensures
        m.fault(verdicts) is None <==> {
            &&& m.repo.url is Some <==> m.repo.path is None
            &&& broker_in_order(m.agent)
            &&& workspace_in_order(m.workspace)
            &&& verdicts.search is None
            &&& m.workflow is Some ==> verdicts.workflow is None
            &&& verdicts.builds is None
            &&& verdicts.preflight is None
            &&& m.judge matches Some(judge) ==> {
                &&& verdicts.selftest is None
                &&& judge.objective@ != "task"@
                &&& m.workflow matches Some(w) ==> w.workflow_type != WorkflowType::Playbook
            }
            &&& m.judge is None ==> {
                &&& m.search is None
                &&& m.preflight is None
                &&& m.workflow matches Some(w) ==> w.workflow_type == WorkflowType::Playbook
            }
        },
{
    lemma_workspace_fault(m.workspace);
    hard_tools::services_in_order_are_accepted(
        m.agent.broker.hard_tool@,
        m.agent.broker.enabled,
    );
}

/// A composite is accepted exactly where nothing is wrong with it: at least two components, each
/// domain once, nothing carried and no artifacts, a broker in order, no objection of an owner, and a
/// judge that neither claims the objective of a task nor stands beside a playbook, whatever
/// `[search]` and `[preflight]` hold.
pub proof fn composite_is_accepted_exactly_when_nothing_is_wrong(
    m: CompositeManifest,
    verdicts: TableVerdicts,
)
    ensures
        m.fault(verdicts) is None <==> {
            &&& m.components@.len() >= 2
            &&& forall|i: int, j: int|
                0 <= i < j < m.components@.len() ==> (#[trigger] m.components@[i]).domain@ != (
                #[trigger] m.components@[j]).domain@
            &&& m.workspace.carry_forward@.len() == 0
            &&& m.workspace.artifact@.len() == 0
            &&& broker_in_order(m.agent)
            &&& verdicts.search is None
            &&& m.workflow is Some ==> verdicts.workflow is None
            &&& verdicts.selftest is None
            &&& verdicts.builds is None
            &&& verdicts.preflight is None
            &&& m.judge.objective@ != "task"@
            &&& m.workflow matches Some(w) ==> w.workflow_type != WorkflowType::Playbook
        },
{
    let components = m.components@;
    let n = components.len() as int;
    lemma_workspace_fault(m.workspace);
    hard_tools::services_in_order_are_accepted(
        m.agent.broker.hard_tool@,
        m.agent.broker.enabled,
    );
    if first_duplicate(components, n) is None {
        assert forall|i: int, j: int| 0 <= i < j < n implies (#[trigger] components[i]).domain@ != (
        #[trigger] components[j]).domain@ by {
            lemma_no_duplicate(components, n, i, j);
        }
    } else {
        lemma_duplicate_found(components, n);
    }
}

/// A duplicate that is reported is there: the component at which it shows has a domain that one
/// before it has, and the components before that all differ.
proof fn lemma_duplicate_found(components: Seq<ComponentRef>, n: int)
    requires
        first_duplicate(components, n) is Some,
    ensures
        exists|i: int, j: int|
            {
                &&& 0 <= i < j < n
                &&& (#[trigger] components[i]).domain@ == (#[trigger] components[j]).domain@
                &&& components[j].domain@ == first_duplicate(components, n)->0
                &&& first_duplicate(components, j) is None
            },
    decreases n,
{
    if first_duplicate(components, n - 1) is Some {
        lemma_duplicate_found(components, n - 1);
        let (i, j) = choose|i: int, j: int|
            {
                &&& 0 <= i < j < n - 1
                &&& (#[trigger] components[i]).domain@ == (#[trigger] components[j]).domain@
                &&& components[j].domain@ == first_duplicate(components, n - 1)->0
                &&& first_duplicate(components, j) is None
            };
        assert(components[i].domain@ == components[j].domain@);
    } else {
        let i = choose|i: int|
            0 <= i < n - 1 && (#[trigger] components[i]).domain@ == components[n - 1].domain@;
        assert(components[i].domain@ == components[n - 1].domain@);
    }
}

/// A refusal is for something that is wrong: what it names is in the manifest and breaks the rule
/// that the refusal stands for.
pub proof fn refusal_names_what_is_wrong(m: Manifest, verdicts: TableVerdicts)
    ensures
        match m.fault(verdicts) {
            None => true,
            Some(RefusalFault::Manifest(fault)) => match fault {
                ManifestFault::RepoNeedsOneSource => m.repo.url is Some <==> m.repo.path is Some,
                ManifestFault::BrokerBinRequired => m.agent.broker.enabled
                    && m.agent.broker.bin@.len() == 0,
                ManifestFault::BadCarryForward(path) => !carriable(path) && types::carried(
                    text::texts(m.workspace.carry_forward@),
                    m.workspace.artifact@,
                ).contains(path),
                ManifestFault::BadArtifactEmbed(name) => !file_name(name) && exists|i: int|
                    {
                        &&& 0 <= i < m.workspace.artifact@.len()
                        &&& ((#[trigger] m.workspace.artifact@[i]).embed matches Some(e) && e@ == name)
                            || (m.workspace.artifact@[i].upload matches Some(u) && u@ == name)
                    },
                ManifestFault::TaskObjectiveReserved => m.judge matches Some(judge)
                    && judge.objective@ == "task"@,
                ManifestFault::PlaybookNeedsNoJudge => m.judge is Some && (m.workflow matches Some(w)
                    && w.workflow_type == WorkflowType::Playbook),
                ManifestFault::TaskLaneRejects(table) => m.judge is None && {
                    ||| table == "[search]"@ && m.search is Some
                    ||| table == "[workflow]"@ && (m.workflow matches Some(w) && w.workflow_type
                        != WorkflowType::Playbook)
                    ||| table == "[preflight]"@ && m.preflight is Some
                },
                _ => false,
            },
            Some(RefusalFault::HardTool(fault)) => hard_tools::services_fault(
                m.agent.broker.hard_tool@,
                m.agent.broker.enabled,
            ) == Some(fault),
            Some(RefusalFault::Table(reason)) => {
                ||| verdicts.search matches Some(text) && text@ == reason
                ||| m.workflow is Some && (verdicts.workflow matches Some(text) && text@ == reason)
                ||| m.judge is Some && (verdicts.selftest matches Some(text) && text@ == reason)
                ||| verdicts.builds matches Some(text) && text@ == reason
                ||| verdicts.preflight matches Some(text) && text@ == reason
            },
        },
{
    let entries = text::texts(m.workspace.carry_forward@);
    let artifacts = m.workspace.artifact@;
    let carried = artifact_paths(artifacts);
    lemma_first_bad_entry(entries);
    lemma_first_bad_entry(carried);
    lemma_first_bad_name(artifacts);
    types::carried_paths_are_those_declared(entries, artifacts);
    if first_bad_entry(entries) is Some {
        let entry = first_bad_entry(entries)->0;
        assert(entries.contains(entry));
    } else if first_bad_entry(carried) is Some {
        let entry = first_bad_entry(carried)->0;
        let i = choose|i: int|
            0 <= i < carried.len() && entry == #[trigger] carried[i] && !carriable(entry)
                && forall|k: int| 0 <= k < i ==> carriable(#[trigger] carried[k]);
        assert(artifacts[i].path@ == entry);
    }
}

/// Of several things that are wrong the one that is looked at first counts: the source before the
/// broker's binary, that before the services, these before the carried paths in their order, then
/// the artifacts' paths in theirs.
pub proof fn first_thing_wrong_counts(m: Manifest, verdicts: TableVerdicts, i: int)
    ensures
        ({
            let one_source = m.repo.url is Some <==> m.repo.path is None;
            let has_bin = m.agent.broker.enabled ==> m.agent.broker.bin@.len() > 0;
            let services = hard_tools::services_fault(
                m.agent.broker.hard_tool@,
                m.agent.broker.enabled,
            );
            let entries = m.workspace.carry_forward@;
            let artifacts = m.workspace.artifact@;
            let carries = forall|k: int| 0 <= k < entries.len() ==> carriable((#[trigger] entries[k])@);
            &&& !one_source ==> m.fault(verdicts) == refused(ManifestFault::RepoNeedsOneSource)
            &&& one_source && !has_bin ==> m.fault(verdicts) == refused(
                ManifestFault::BrokerBinRequired,
            )
            &&& one_source && has_bin ==> (services matches Some(fault) ==> m.fault(verdicts) == Some(
                RefusalFault::HardTool(fault),
            ))
            &&& one_source && has_bin && services is None && 0 <= i < entries.len() && !carriable(
                entries[i]@,
            ) && (forall|k: int| 0 <= k < i ==> carriable((#[trigger] entries[k])@))
                ==> m.fault(verdicts) == refused(ManifestFault::BadCarryForward(entries[i]@))
            &&& one_source && has_bin && services is None && carries && 0 <= i < artifacts.len()
                && !carriable(artifacts[i].path@) && (forall|k: int|
                0 <= k < i ==> carriable((#[trigger] artifacts[k]).path@)) ==> m.fault(verdicts)
                == refused(ManifestFault::BadCarryForward(artifacts[i].path@))
        }),
{
    let entries = m.workspace.carry_forward@;
    let artifacts = m.workspace.artifact@;
    let listed = text::texts(entries);
    let carried = artifact_paths(artifacts);
    if 0 <= i < entries.len() && !carriable(entries[i]@) && (forall|k: int|
        0 <= k < i ==> carriable((#[trigger] entries[k])@)) {
        assert forall|k: int| 0 <= k < i implies carriable(#[trigger] listed[k]) by {
            assert(carriable(entries[k]@));
        }
        lemma_first_is_reported(listed, i);
    }
    if forall|k: int| 0 <= k < entries.len() ==> carriable((#[trigger] entries[k])@) {
        lemma_first_bad_entry(listed);
        assert forall|k: int| 0 <= k < listed.len() implies carriable(#[trigger] listed[k]) by {
            assert(carriable(entries[k]@));
        }
    }
    if 0 <= i < artifacts.len() && !carriable(artifacts[i].path@) && (forall|k: int|
        0 <= k < i ==> carriable((#[trigger] artifacts[k]).path@)) {
        assert forall|k: int| 0 <= k < i implies carriable(#[trigger] carried[k]) by {
            assert(carriable(artifacts[k].path@));
        }
        lemma_first_is_reported(carried, i);
    }
}

/// The first entry that cannot be carried is the one that is reported.
proof fn lemma_first_is_reported(entries: Seq<Seq<char>>, i: int)
    requires
        0 <= i < entries.len(),
        !carriable(entries[i]),
        forall|k: int| 0 <= k < i ==> carriable(#[trigger] entries[k]),
    ensures
        first_bad_entry(entries) == Some(entries[i]),
    decreases entries.len(),
{
    lemma_carriable(entries[0]);
    if i > 0 {
        assert(carriable(entries[0]));
        let rest = entries.drop_first();
        assert forall|k: int| 0 <= k < i - 1 implies carriable(#[trigger] rest[k]) by {
            assert(carriable(entries[k + 1]));
        }
        lemma_first_is_reported(rest, i - 1);
    }
}

/// Where the source, the broker and the workspace are in order, the owners of the tables are heard
/// in turn: the search, the workflow where there is one, what belongs to the lane, the builds, the
/// preflight. The first objection counts.
pub proof fn owners_are_heard_in_turn(m: Manifest, verdicts: TableVerdicts, reason: String)
    requires
        m.repo.url is Some <==> m.repo.path is None,
        broker_in_order(m.agent),
        workspace_in_order(m.workspace),
    ensures
        ({
            let objection = Some(RefusalFault::Table(reason@));
            let lane_in_order = match m.judge {
                Some(judge) => verdicts.selftest is None && judge.objective@ != "task"@ && !(
                m.workflow matches Some(w) && w.workflow_type == WorkflowType::Playbook),
                None => m.search is None && m.preflight is None && (m.workflow matches Some(w)
                    ==> w.workflow_type == WorkflowType::Playbook),
            };
            &&& verdicts.search == Some(reason) ==> m.fault(verdicts) == objection
            &&& verdicts.search is None && m.workflow is Some && verdicts.workflow == Some(reason)
                ==> m.fault(verdicts) == objection
            &&& verdicts.search is None && (m.workflow is None || verdicts.workflow is None) ==> {
                &&& m.judge is Some && verdicts.selftest == Some(reason) ==> m.fault(verdicts)
                    == objection
                &&& lane_in_order && verdicts.builds == Some(reason) ==> m.fault(verdicts)
                    == objection
                &&& lane_in_order && verdicts.builds is None && verdicts.preflight == Some(reason)
                    ==> m.fault(verdicts) == objection
            }
        }),
{
    lemma_workspace_fault(m.workspace);
    hard_tools::services_in_order_are_accepted(
        m.agent.broker.hard_tool@,
        m.agent.broker.enabled,
    );
}

/// A composite is refused for the first of these that is wrong: fewer than two components, carried
/// paths, artifacts, a domain that comes a second time.
pub proof fn composite_refusal_names_what_is_wrong(
    m: CompositeManifest,
    verdicts: TableVerdicts,
    j: int,
)
    ensures
        ({
            let components = m.components@;
            let enough = components.len() >= 2;
            let carries = m.workspace.carry_forward@.len() > 0;
            let publishes = m.workspace.artifact@.len() > 0;
            &&& !enough ==> m.fault(verdicts) == refused(ManifestFault::CompositeTooSmall)
            &&& enough && carries ==> m.fault(verdicts) == refused(
                ManifestFault::CompositeCarryForward,
            )
            &&& enough && !carries && publishes ==> m.fault(verdicts) == refused(
                ManifestFault::CompositeArtifact,
            )
            &&& enough && !carries && !publishes && 0 <= j < components.len() && (exists|i: int|
                0 <= i < j && (#[trigger] components[i]).domain@ == components[j].domain@) && (forall|
                i: int,
                k: int,
            |
                0 <= i < k < j ==> (#[trigger] components[i]).domain@ != (
                #[trigger] components[k]).domain@) ==> m.fault(verdicts) == refused(
                ManifestFault::DuplicateComponent(components[j].domain@),
            )
        }),
{
    let components = m.components@;
    let n = components.len() as int;
    if 0 <= j < n && (exists|i: int|
        0 <= i < j && (#[trigger] components[i]).domain@ == components[j].domain@) && (forall|
        i: int,
        k: int,
    |
        0 <= i < k < j ==> (#[trigger] components[i]).domain@ != (#[trigger] components[k]).domain@) {
        if first_duplicate(components, j) is Some {
            lemma_duplicate_found(components, j);
        }
        assert(first_duplicate(components, j + 1) == Some(components[j].domain@));
        lemma_duplicate_stays(components, j + 1, n);
    }
}

} // verus!
