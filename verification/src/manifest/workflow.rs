use vstd::prelude::*;

use crate::manifest::error::{ManifestError, ManifestFault, Refusal};
use crate::manifest::types::{Manifest, WorkflowCfg, WorkflowType};
use crate::manifest::validate::TableVerdicts;
use crate::names;
use crate::names::NameMap;
use crate::paths;
use crate::text;

verus! {

/// Refuses values that no compilation will see: they are bound only while a named source is
/// compiled.
pub fn refuse_unconsumable(params: &NameMap<String>) -> (r: Result<(), ManifestError>)
    ensures
        match r {
            Ok(()) => params@ == Map::<Seq<char>, String>::empty(),
            Err(e) => params@ != Map::<Seq<char>, String>::empty() && (e@
                matches ManifestFault::UnconsumableParams(keys) && names::lists(keys, params@.dom())),
        },
{
    if params.is_empty() {
        return Ok(());
    }
    Err(ManifestError::UnconsumableParams { names: params.keys() })
}

/// Why a workflow could not be resolved.
#[derive(Debug)]
pub enum ResolveError<E> {
    Unconsumable { error: ManifestError },
    Compile { file: String, error: E },
    Mismatch { error: ManifestError },
    Refused { refusal: Refusal },
}

/// What a failed compilation is reported as.
pub fn compile_context(file: &str) -> (r: String)
    ensures
        r@ == "compiling [workflow].file = "@ + text::debug_text(file@),
{
    text::concat2("compiling [workflow].file = ", text::debug_of(file).as_str())
}

/// Whether the manifest names a workflow source that is still to be compiled.
pub open spec fn awaits_compilation(workflow: Option<WorkflowCfg>) -> bool {
    workflow matches Some(w) && w.unresolved()
}

/// Two manifests that differ in nothing but the workflow.
pub open spec fn same_but_workflow(a: Manifest, b: Manifest) -> bool {
    a == (Manifest { workflow: a.workflow, ..b })
}

/// The workflow that was compiled from `file`.
pub open spec fn compiled_from(after: Option<WorkflowCfg>, compiled: WorkflowCfg, file: Seq<char>) -> bool {
    after matches Some(w) && (w == WorkflowCfg { resolved_from: w.resolved_from, ..compiled }) && text::text_opt(
        w.resolved_from,
    ) == Some(file)
}

impl Manifest {
    /// Takes over a graph compiled from `file`. One of another lane than was declared is refused
    /// and leaves the manifest as it was; else the manifest holds the graph and is checked again.
    fn adopt_workflow<E>(
        &mut self,
        declared: WorkflowType,
        file: String,
        compiled: WorkflowCfg,
        verdicts: &TableVerdicts,
    ) -> (r: Result<(), ResolveError<E>>)
        ensures
            if compiled.workflow_type != declared {
                *final(self) == *old(self) && (r matches Err(ResolveError::Mismatch { error })
                    && error@ == ManifestFault::WorkflowTypeMismatch(
                    declared,
                    compiled.workflow_type,
                ))
            } else {
                &&& same_but_workflow(*final(self), *old(self))
                &&& compiled_from(final(self).workflow, compiled, file@)
                &&& match r {
                    Ok(()) => final(self).fault(*verdicts) is None,
                    Err(ResolveError::Refused { refusal }) => final(self).fault(*verdicts) == Some(
                        refusal@,
                    ),
                    _ => false,
                }
            },
    {
        if compiled.workflow_type != declared {
            return Err(
                ResolveError::Mismatch {
                    error: ManifestError::WorkflowTypeMismatch {
                        declared,
                        compiled: compiled.workflow_type,
                    },
                },
            );
        }
        self.workflow = Some(
            WorkflowCfg {
                workflow_type: compiled.workflow_type,
                file: compiled.file,
                graph: compiled.graph,
                resolved_from: Some(file),
            },
        );
        match self.validate(verdicts) {
            Ok(()) => Ok(()),
            Err(refusal) => Err(ResolveError::Refused { refusal }),
        }
    }

    /// Compiles the workflow source that the manifest names, with the values a launcher supplied.
    /// `compile` gets the source's path and the values, and yields the graph, with what the owners
    /// of tables say of the manifest that holds it. Where there is nothing to compile, supplied
    /// values are refused and the manifest stays as it is.
    pub fn resolve_workflow_with<
        E,
        F: FnOnce(String, &NameMap<String>) -> Result<(WorkflowCfg, TableVerdicts), E>,
    >(&mut self, manifest_dir: &str, params: &NameMap<String>, compile: F) -> (r: Result<
        (),
        ResolveError<E>,
    >)
        requires
            forall|source: String|
                (old(self).workflow matches Some(w) && w.file matches Some(file) && source@
                    == paths::joined(manifest_dir@, file@)) ==> #[trigger] call_requires(
                    compile,
                    (source, params),
                ),
        ensures
            if !awaits_compilation(old(self).workflow) {
                &&& *final(self) == *old(self)
                &&& match r {
                    Ok(()) => params@ == Map::<Seq<char>, String>::empty(),
                    Err(ResolveError::Unconsumable { error }) => params@ != Map::<
                        Seq<char>,
                        String,
                    >::empty() && (error@ matches ManifestFault::UnconsumableParams(keys)
                        && names::lists(keys, params@.dom())),
                    _ => false,
                }
            } else {
                resolved_by(*old(self), *final(self), manifest_dir@, params, compile, r)
            },
    {
        let named: Option<(WorkflowType, String)> = match &self.workflow {
            None => None,
            Some(workflow) => match (&workflow.file, &workflow.graph) {
                (Some(file), None) => Some((workflow.workflow_type, file.clone())),
                _ => None,
            },
        };
        let (declared, file) = match named {
            Some(source) => source,
            None => {
                return match refuse_unconsumable(params) {
                    Ok(()) => Ok(()),
                    Err(error) => Err(ResolveError::Unconsumable { error }),
                };
            },
        };
        let source = paths::join_path(manifest_dir, file.as_str());
        let ghost place = source;
        let outcome = compile(source, params);
        assert(call_ensures(compile, (place, params), outcome));
        match outcome {
            Err(error) => Err(ResolveError::Compile { file, error }),
            Ok((compiled, verdicts)) => self.adopt_workflow(declared, file, compiled, &verdicts),
        }
    }

    /// Compiles the workflow source that the manifest names, with no values supplied.
    pub fn resolve_workflow<
        E,
        F: FnOnce(String, &NameMap<String>) -> Result<(WorkflowCfg, TableVerdicts), E>,
    >(&mut self, manifest_dir: &str, compile: F) -> (r: Result<(), ResolveError<E>>)
        requires
            forall|source: String, params: &NameMap<String>|
                (old(self).workflow matches Some(w) && w.file matches Some(file) && source@
                    == paths::joined(manifest_dir@, file@) && params@ == Map::<
                    Seq<char>,
                    String,
                >::empty()) ==> #[trigger] call_requires(compile, (source, params)),
        ensures
            if !awaits_compilation(old(self).workflow) {
                *final(self) == *old(self) && r is Ok
            } else {
                exists|params: &NameMap<String>|
                    params@ == Map::<Seq<char>, String>::empty() && #[trigger] resolved_by(
                        *old(self),
                        *final(self),
                        manifest_dir@,
                        params,
                        compile,
                        r,
                    )
            },
    {
        let params: NameMap<String> = NameMap::new();
        self.resolve_workflow_with(manifest_dir, &params, compile)
    }
}

/// What a compilation makes of a manifest: a failed one leaves it as it was, and so does one of
/// another lane; else the manifest holds the graph, and the result is that of checking it. The
/// compiler gets the source's path and the supplied values.
pub open spec fn resolved_by<
    E,
    F: FnOnce(String, &NameMap<String>) -> Result<(WorkflowCfg, TableVerdicts), E>,
>(
    before: Manifest,
    after: Manifest,
    manifest_dir: Seq<char>,
    params: &NameMap<String>,
    compile: F,
    r: Result<(), ResolveError<E>>,
) -> bool {
    let workflow = before.workflow->0;
    let file = (workflow.file->0)@;
    exists|source: String, outcome: Result<(WorkflowCfg, TableVerdicts), E>|
        {
            &&& source@ == paths::joined(manifest_dir, file)
            &&& #[trigger] call_ensures(compile, (source, params), outcome)
            &&& match outcome {
                Err(e) => after == before && (r matches Err(ResolveError::Compile { file: f, error })
                    && f@ == file && error == e),
                Ok((compiled, verdicts)) => if compiled.workflow_type != workflow.workflow_type {
                    after == before && (r matches Err(ResolveError::Mismatch { error }) && error@
                        == ManifestFault::WorkflowTypeMismatch(
                        workflow.workflow_type,
                        compiled.workflow_type,
                    ))
                } else {
                    &&& same_but_workflow(after, before)
                    &&& compiled_from(after.workflow, compiled, file)
                    &&& match r {
                        Ok(()) => after.fault(verdicts) is None,
                        Err(ResolveError::Refused { refusal }) => after.fault(verdicts) == Some(
                            refusal@,
                        ),
                        _ => false,
                    }
                },
            }
        }
}

/// A manifest that holds a compiled graph does not await compilation: resolving it again changes
/// nothing.
pub proof fn compiled_workflow_is_final(
    after: Option<WorkflowCfg>,
    compiled: WorkflowCfg,
    file: Seq<char>,
)
    requires
        compiled_from(after, compiled, file),
        !compiled.unresolved(),
    ensures
        !awaits_compilation(after),
{
}

/// A manifest that names a source is compiled from that source, under the manifest's directory. A
/// compilation that fails, or that is of another lane, leaves it as it was and says so. Any other
/// leaves it with the graph that was compiled, in the lane that was declared, and with the source
/// noted; every other table stays, and the result is that of checking the manifest again.
pub proof fn compiled_graph_takes_the_place_of_the_source<
    E,
    F: FnOnce(String, &NameMap<String>) -> Result<(WorkflowCfg, TableVerdicts), E>,
>(
    before: Manifest,
    after: Manifest,
    manifest_dir: Seq<char>,
    params: &NameMap<String>,
    compile: F,
    r: Result<(), ResolveError<E>>,
)
    requires
        awaits_compilation(before.workflow),
        resolved_by(before, after, manifest_dir, params, compile, r),
    ensures
        ({
            let declared = (before.workflow->0).workflow_type;
            let file = ((before.workflow->0).file->0)@;
            exists|source: String, outcome: Result<(WorkflowCfg, TableVerdicts), E>|
                {
                    &&& source@ == paths::joined(manifest_dir, file)
                    &&& #[trigger] call_ensures(compile, (source, params), outcome)
                    &&& outcome matches Err(e) ==> after == before && (r matches Err(
                        ResolveError::Compile { file: named, error },
                    ) && named@ == file && error == e)
                    &&& outcome matches Ok((compiled, verdicts)) ==> {
                        &&& compiled.workflow_type != declared ==> after == before && (r matches Err(
                            ResolveError::Mismatch { error },
                        ) && error@ == ManifestFault::WorkflowTypeMismatch(
                            declared,
                            compiled.workflow_type,
                        ))
                        &&& compiled.workflow_type == declared ==> {
                            &&& after.workflow matches Some(w) && w.workflow_type == declared
                                && w.graph == compiled.graph && w.file == compiled.file && (
                            w.resolved_from matches Some(from) && from@ == file)
                            &&& after.repo == before.repo && after.workspace == before.workspace
                                && after.agent == before.agent && after.judge == before.judge
                                && after.world == before.world && after.deploy == before.deploy
                                && after.search == before.search && after.publish
                                == before.publish && after.build == before.build && after.measure
                                == before.measure && after.preflight == before.preflight
                            &&& after.fault(verdicts) is None ==> r is Ok
                            &&& after.fault(verdicts) matches Some(fault) ==> (r matches Err(
                                ResolveError::Refused { refusal },
                            ) && refusal@ == fault)
                        }
                    }
                }
        }),
{
}

/// A manifest awaits compilation exactly where it has a workflow that names a source and has no
/// graph.
pub proof fn only_a_named_source_awaits_compilation(workflow: Option<WorkflowCfg>)
    ensures
        awaits_compilation(workflow) <==> (workflow matches Some(w) && w.file is Some && w.graph is None),
{
}

} // verus!
