use vstd::prelude::*;

use crate::manifest::hard_tools;
use crate::manifest::hard_tools::{HardToolConfigError, HardToolFault};
use crate::manifest::types::WorkflowType;
use crate::text;

verus! {

/// Rejections that belong to no single table.
#[derive(Debug)]
pub enum ManifestError {
    InjectDestIsDir { path: String },
    InjectSrcMissing { manifest_dir: String, missing: Vec<String> },
    BrokerBinRequired,
    NoJudge,
    TaskLaneRejects { table: String },
    TaskObjectiveReserved,
    PlaybookNeedsNoJudge,
    WorkflowTypeMismatch { declared: WorkflowType, compiled: WorkflowType },
    CompositeTooSmall,
    DuplicateComponent { domain: String },
    BadCarryForward { entry: String },
    CompositeCarryForward,
    BadArtifactEmbed { embed: String },
    CompositeArtifact,
    UnconsumableParams { names: Vec<String> },
    /// A direction that is neither `lower` nor `higher`.
    BadDirection { value: String },
    /// A `[repo]` that names both a URL and a path, or neither.
    RepoNeedsOneSource,
}

/// A rejection, in its texts.
pub enum ManifestFault {
    InjectDestIsDir(Seq<char>),
    InjectSrcMissing(Seq<char>, Seq<Seq<char>>),
    BrokerBinRequired,
    NoJudge,
    TaskLaneRejects(Seq<char>),
    TaskObjectiveReserved,
    PlaybookNeedsNoJudge,
    WorkflowTypeMismatch(WorkflowType, WorkflowType),
    CompositeTooSmall,
    DuplicateComponent(Seq<char>),
    BadCarryForward(Seq<char>),
    CompositeCarryForward,
    BadArtifactEmbed(Seq<char>),
    CompositeArtifact,
    UnconsumableParams(Seq<Seq<char>>),
    BadDirection(Seq<char>),
    RepoNeedsOneSource,
}

impl View for ManifestError {
    type V = ManifestFault;

    open spec fn view(&self) -> ManifestFault {
        match *self {
            ManifestError::InjectDestIsDir { path } => ManifestFault::InjectDestIsDir(path@),
            ManifestError::InjectSrcMissing {
                manifest_dir,
                missing,
            } => ManifestFault::InjectSrcMissing(manifest_dir@, text::texts(missing@)),
            ManifestError::BrokerBinRequired => ManifestFault::BrokerBinRequired,
            ManifestError::NoJudge => ManifestFault::NoJudge,
            ManifestError::TaskLaneRejects { table } => ManifestFault::TaskLaneRejects(table@),
            ManifestError::TaskObjectiveReserved => ManifestFault::TaskObjectiveReserved,
            ManifestError::PlaybookNeedsNoJudge => ManifestFault::PlaybookNeedsNoJudge,
            ManifestError::WorkflowTypeMismatch {
                declared,
                compiled,
            } => ManifestFault::WorkflowTypeMismatch(declared, compiled),
            ManifestError::CompositeTooSmall => ManifestFault::CompositeTooSmall,
            ManifestError::DuplicateComponent { domain } => ManifestFault::DuplicateComponent(
                domain@,
            ),
            ManifestError::BadCarryForward { entry } => ManifestFault::BadCarryForward(entry@),
            ManifestError::CompositeCarryForward => ManifestFault::CompositeCarryForward,
            ManifestError::BadArtifactEmbed { embed } => ManifestFault::BadArtifactEmbed(embed@),
            ManifestError::CompositeArtifact => ManifestFault::CompositeArtifact,
            ManifestError::UnconsumableParams { names } => ManifestFault::UnconsumableParams(
                text::texts(names@),
            ),
            ManifestError::BadDirection { value } => ManifestFault::BadDirection(value@),
            ManifestError::RepoNeedsOneSource => ManifestFault::RepoNeedsOneSource,
        }
    }
}

/// What a rejection says.
pub open spec fn manifest_message(fault: ManifestFault) -> Seq<char> {
    match fault {
        ManifestFault::InjectDestIsDir(path) => "inject destination "@ + path + " is a directory"@,
        ManifestFault::InjectSrcMissing(dir, missing) =>
            "[[workspace.inject]] sources not found under "@ + dir + ":\n"@ + text::join(
            missing,
            "\n"@,
        ),
        ManifestFault::BrokerBinRequired =>
            "[agent.broker].bin is required when the broker is enabled (the domain's broker binary)"@,
        ManifestFault::NoJudge => "manifest has no [judge] (task mode)"@,
        ManifestFault::TaskLaneRejects(table) => table
            + " requires a [judge]: a task manifest has no scores to rank, grade, or seed"@,
        ManifestFault::TaskObjectiveReserved =>
            "[judge].objective = \"task\" is reserved as the task lane's wire discriminator"@,
        ManifestFault::PlaybookNeedsNoJudge =>
            "[workflow] type = \"playbook\" runs once and scores nothing; remove [judge]"@,
        ManifestFault::WorkflowTypeMismatch(declared, compiled) => "[workflow].file compiled a "@
            + compiled.label() + " workflow but the manifest declares "@ + declared.label(),
        ManifestFault::CompositeTooSmall =>
            "a composite needs at least two [[component]] entries"@,
        ManifestFault::DuplicateComponent(domain) => "duplicate component domain `"@ + domain
            + "`"@,
        ManifestFault::BadCarryForward(entry) => "[workspace].carry_forward entry `"@ + entry
            + "` must be a non-empty workspace-relative path with no `.` or `..` component"@,
        ManifestFault::CompositeCarryForward =>
            "[workspace].carry_forward is not supported in a composite manifest"@,
        ManifestFault::BadArtifactEmbed(embed) => "[[workspace.artifact]] embed/upload `"@ + embed
            + "` must be a bare file name (no path separators)"@,
        ManifestFault::CompositeArtifact =>
            "[[workspace.artifact]] is not supported in a composite manifest"@,
        ManifestFault::UnconsumableParams(names) =>
            "nothing can consume the supplied parameter(s) "@ + text::join(names, ", "@)
            + ": this manifest carries its tasks inline or declares no [workflow], so there is no source to bind them against"@,
        ManifestFault::BadDirection(value) => "direction must be `lower` or `higher`, got "@
            + text::debug_text(value),
        ManifestFault::RepoNeedsOneSource => "[repo] must name exactly one of url and path"@,
    }
}

impl ManifestError {
    /// The rejection in words.
    pub fn message(&self) -> (r: String)
        ensures
            r@ == manifest_message(self@),
    {
        match self {
            ManifestError::InjectDestIsDir { path } => text::concat3(
                "inject destination ",
                path.as_str(),
                " is a directory",
            ),
            ManifestError::InjectSrcMissing { manifest_dir, missing } => {
                let head = text::concat3(
                    "[[workspace.inject]] sources not found under ",
                    manifest_dir.as_str(),
                    ":\n",
                );
                text::concat2(head.as_str(), text::join_with(missing, "\n").as_str())
            },
            ManifestError::BrokerBinRequired =>
                "[agent.broker].bin is required when the broker is enabled (the domain's broker binary)".to_owned(),
            ManifestError::NoJudge => "manifest has no [judge] (task mode)".to_owned(),
            ManifestError::TaskLaneRejects { table } => text::concat2(
                table.as_str(),
                " requires a [judge]: a task manifest has no scores to rank, grade, or seed",
            ),
            ManifestError::TaskObjectiveReserved =>
                "[judge].objective = \"task\" is reserved as the task lane's wire discriminator".to_owned(),
            ManifestError::PlaybookNeedsNoJudge =>
                "[workflow] type = \"playbook\" runs once and scores nothing; remove [judge]".to_owned(),
            ManifestError::WorkflowTypeMismatch { declared, compiled } => {
                let head = text::concat3(
                    "[workflow].file compiled a ",
                    compiled.name(),
                    " workflow but the manifest declares ",
                );
                text::concat2(head.as_str(), declared.name())
            },
            ManifestError::CompositeTooSmall =>
                "a composite needs at least two [[component]] entries".to_owned(),
            ManifestError::DuplicateComponent { domain } => text::concat3(
                "duplicate component domain `",
                domain.as_str(),
                "`",
            ),
            ManifestError::BadCarryForward { entry } => text::concat3(
                "[workspace].carry_forward entry `",
                entry.as_str(),
                "` must be a non-empty workspace-relative path with no `.` or `..` component",
            ),
            ManifestError::CompositeCarryForward =>
                "[workspace].carry_forward is not supported in a composite manifest".to_owned(),
            ManifestError::BadArtifactEmbed { embed } => text::concat3(
                "[[workspace.artifact]] embed/upload `",
                embed.as_str(),
                "` must be a bare file name (no path separators)",
            ),
            ManifestError::CompositeArtifact =>
                "[[workspace.artifact]] is not supported in a composite manifest".to_owned(),
            ManifestError::UnconsumableParams { names } => text::concat3(
                "nothing can consume the supplied parameter(s) ",
                text::join_with(names, ", ").as_str(),
                ": this manifest carries its tasks inline or declares no [workflow], so there is no source to bind them against",
            ),
            ManifestError::BadDirection { value } => text::concat2(
                "direction must be `lower` or `higher`, got ",
                text::debug_of(value.as_str()).as_str(),
            ),
            ManifestError::RepoNeedsOneSource =>
                "[repo] must name exactly one of url and path".to_owned(),
        }
    }
}

/// Why a manifest is refused.
#[derive(Debug)]
pub enum Refusal {
    Manifest { error: ManifestError },
    HardTool { error: HardToolConfigError },
    /// By the part of the engine that owns the table.
    Table { reason: String },
}

/// A refusal, in its texts.
pub enum RefusalFault {
    Manifest(ManifestFault),
    HardTool(HardToolFault),
    Table(Seq<char>),
}

impl View for Refusal {
    type V = RefusalFault;

    open spec fn view(&self) -> RefusalFault {
        match *self {
            Refusal::Manifest { error } => RefusalFault::Manifest(error@),
            Refusal::HardTool { error } => RefusalFault::HardTool(error@),
            Refusal::Table { reason } => RefusalFault::Table(reason@),
        }
    }
}

/// What a refusal says.
pub open spec fn refusal_message(fault: RefusalFault) -> Seq<char> {
    match fault {
        RefusalFault::Manifest(fault) => manifest_message(fault),
        RefusalFault::HardTool(fault) => hard_tools::fault_message(fault),
        RefusalFault::Table(reason) => reason,
    }
}

impl Refusal {
    /// The refusal in words.
    pub fn message(&self) -> (r: String)
        ensures
            r@ == refusal_message(self@),
    {
        match self {
            Refusal::Manifest { error } => error.message(),
            Refusal::HardTool { error } => error.message(),
            Refusal::Table { reason } => reason.clone(),
        }
    }
}

/// A rejection names what it is about, word for word: the path, the table, the lanes, the component,
/// the entry or the names.
pub proof fn rejection_names_what_it_is_about(fault: ManifestFault)
    ensures
        match fault {
            ManifestFault::InjectDestIsDir(path) => text::mentions(manifest_message(fault), path),
            ManifestFault::InjectSrcMissing(dir, missing) => text::mentions(
                manifest_message(fault),
                dir,
            ) && text::mentions(manifest_message(fault), text::join(missing, "\n"@)),
            ManifestFault::TaskLaneRejects(table) => text::mentions(manifest_message(fault), table),
            ManifestFault::WorkflowTypeMismatch(declared, compiled) => text::mentions(
                manifest_message(fault),
                declared.label(),
            ) && text::mentions(manifest_message(fault), compiled.label()),
            ManifestFault::DuplicateComponent(domain) => text::mentions(
                manifest_message(fault),
                domain,
            ),
            ManifestFault::BadCarryForward(entry) => text::mentions(manifest_message(fault), entry),
            ManifestFault::BadArtifactEmbed(name) => text::mentions(manifest_message(fault), name),
            ManifestFault::UnconsumableParams(names) => text::mentions(
                manifest_message(fault),
                text::join(names, ", "@),
            ),
            ManifestFault::BadDirection(value) => text::mentions(
                manifest_message(fault),
                text::debug_text(value),
            ),
            _ => true,
        },
{
    let e = Seq::<char>::empty();
    match fault {
        ManifestFault::InjectDestIsDir(path) => {
            text::lemma_mentions("inject destination "@, path, " is a directory"@);
        },
        ManifestFault::InjectSrcMissing(dir, missing) => {
            let head = "[[workspace.inject]] sources not found under "@;
            let rest = text::join(missing, "\n"@);
            text::lemma_mentions(head, dir, ":\n"@ + rest);
            assert(head + dir + ":\n"@ + rest == head + dir + (":\n"@ + rest));
            text::lemma_mentions(head + dir + ":\n"@, rest, e);
        },
        ManifestFault::TaskLaneRejects(table) => {
            text::lemma_mentions(
                e,
                table,
                " requires a [judge]: a task manifest has no scores to rank, grade, or seed"@,
            );
        },
        ManifestFault::WorkflowTypeMismatch(declared, compiled) => {
            let head = "[workflow].file compiled a "@;
            let middle = " workflow but the manifest declares "@;
            text::lemma_mentions(head, compiled.label(), middle + declared.label());
            assert(head + compiled.label() + middle + declared.label() == head + compiled.label() + (
            middle + declared.label()));
            text::lemma_mentions(head + compiled.label() + middle, declared.label(), e);
        },
        ManifestFault::DuplicateComponent(domain) => {
            text::lemma_mentions("duplicate component domain `"@, domain, "`"@);
        },
        ManifestFault::BadCarryForward(entry) => {
            text::lemma_mentions(
                "[workspace].carry_forward entry `"@,
                entry,
                "` must be a non-empty workspace-relative path with no `.` or `..` component"@,
            );
        },
        ManifestFault::BadArtifactEmbed(name) => {
            text::lemma_mentions(
                "[[workspace.artifact]] embed/upload `"@,
                name,
                "` must be a bare file name (no path separators)"@,
            );
        },
        ManifestFault::UnconsumableParams(names) => {
            text::lemma_mentions(
                "nothing can consume the supplied parameter(s) "@,
                text::join(names, ", "@),
                ": this manifest carries its tasks inline or declares no [workflow], so there is no source to bind them against"@,
            );
        },
        ManifestFault::BadDirection(value) => {
            text::lemma_mentions(
                "direction must be `lower` or `higher`, got "@,
                text::debug_text(value),
                e,
            );
        },
        _ => {},
    }
}

/// A refusal says what the rejection, the service's fault or the owner of the table says.
pub proof fn refusal_says_what_its_cause_says(fault: RefusalFault)
    ensures
        match fault {
            RefusalFault::Manifest(cause) => refusal_message(fault) == manifest_message(cause),
            RefusalFault::HardTool(cause) => refusal_message(fault) == hard_tools::fault_message(
                cause,
            ),
            RefusalFault::Table(reason) => refusal_message(fault) == reason,
        },
{
}

/// A rejection states the rule that was broken, beside what broke it.
pub proof fn rejection_states_its_rule(
    table: Seq<char>,
    entry: Seq<char>,
    names: Seq<Seq<char>>,
)
    ensures
        manifest_message(ManifestFault::TaskLaneRejects(table)).skip(table.len() as int)
            == " requires a [judge]: a task manifest has no scores to rank, grade, or seed"@,
        text::mentions(
            manifest_message(ManifestFault::BadCarryForward(entry)),
            "must be a non-empty workspace-relative path with no `.` or `..` component"@,
        ),
        text::mentions(
            manifest_message(ManifestFault::UnconsumableParams(names)),
            "this manifest carries its tasks inline or declares no [workflow], so there is no source to bind them against"@,
        ),
        manifest_message(ManifestFault::PlaybookNeedsNoJudge)
            == "[workflow] type = \"playbook\" runs once and scores nothing; remove [judge]"@,
        manifest_message(ManifestFault::CompositeCarryForward)
            == "[workspace].carry_forward is not supported in a composite manifest"@,
        hard_tools::fault_message(HardToolFault::RequiresBroker)
            == "[[agent.broker.hard_tool]] requires [agent.broker].enabled = true"@,
{
    let lane = " requires a [judge]: a task manifest has no scores to rank, grade, or seed"@;
    assert((table + lane).skip(table.len() as int) =~= lane);
    let rule = "must be a non-empty workspace-relative path with no `.` or `..` component"@;
    let tail = "` must be a non-empty workspace-relative path with no `.` or `..` component"@;
    reveal_strlit("must be a non-empty workspace-relative path with no `.` or `..` component");
    reveal_strlit("` must be a non-empty workspace-relative path with no `.` or `..` component");
    let head = "[workspace].carry_forward entry `"@ + entry;
    assert(tail =~= tail.take(2) + rule);
    assert(head + tail =~= head + tail.take(2) + rule);
    text::lemma_mentions(head + tail.take(2), rule, Seq::empty());
    let why =
        "this manifest carries its tasks inline or declares no [workflow], so there is no source to bind them against"@;
    let end =
        ": this manifest carries its tasks inline or declares no [workflow], so there is no source to bind them against"@;
    reveal_strlit(
        "this manifest carries its tasks inline or declares no [workflow], so there is no source to bind them against",
    );
    reveal_strlit(
        ": this manifest carries its tasks inline or declares no [workflow], so there is no source to bind them against",
    );
    let start = "nothing can consume the supplied parameter(s) "@ + text::join(names, ", "@);
    assert(end =~= end.take(2) + why);
    assert(start + end =~= start + end.take(2) + why);
    text::lemma_mentions(start + end.take(2), why, Seq::empty());
}

} // verus!
