use vstd::prelude::*;

use crate::manifest::error::{ManifestError, ManifestFault};
use crate::manifest::types::{
    ComponentRef, CompositeManifest, Direction, Inject, JudgeCfg, Manifest, OpaqueTable,
    ResolvedComponent,
};
use crate::paths;
use crate::text;

verus! {

/// The direction that a text names.
pub open spec fn direction_of(value: Seq<char>) -> Option<Direction> {
    if value == "lower"@ {
        Some(Direction::Lower)
    } else if value == "higher"@ {
        Some(Direction::Higher)
    } else {
        None
    }
}

/// Reads a direction.
pub fn parse_direction(value: &str) -> (r: Result<Direction, ManifestError>)
    ensures
        match r {
            Ok(direction) => direction_of(value@) == Some(direction),
            Err(e) => direction_of(value@) is None && e@ == ManifestFault::BadDirection(value@),
        },
{
    proof {
        reveal_strlit("lower");
        reveal_strlit("higher");
        assert("lower"@.len() != "higher"@.len());
    }
    if text::same_text(value, "lower") {
        Ok(Direction::Lower)
    } else if text::same_text(value, "higher") {
        Ok(Direction::Higher)
    } else {
        Err(ManifestError::BadDirection { value: value.to_owned() })
    }
}

/// Reads the direction of a judge's tiebreak, if it has one of its own.
pub fn parse_tiebreak_direction(judge: &JudgeCfg) -> (r: Result<Option<Direction>, ManifestError>)
    ensures
        match (r, judge.tiebreak_direction) {
            (Ok(None), None) => true,
            (Ok(Some(direction)), Some(value)) => direction_of(value@) == Some(direction),
            (Err(e), Some(value)) => direction_of(value@) is None && e@
                == ManifestFault::BadDirection(value@),
            _ => false,
        },
{
    match &judge.tiebreak_direction {
        None => Ok(None),
        Some(value) => match parse_direction(value.as_str()) {
            Ok(direction) => Ok(Some(direction)),
            Err(error) => Err(error),
        },
    }
}

/// An inject with its paths resolved: source, destination, and whether it is frozen.
pub open spec fn resolved_inject(inject: Inject, dir: Seq<char>, workspace: Seq<char>) -> (
    Seq<char>,
    Seq<char>,
    bool,
) {
    (paths::joined(dir, inject.src@), paths::joined(workspace, inject.dst@), inject.frozen)
}

pub open spec fn inject_models(list: Seq<(String, String, bool)>) -> Seq<
    (Seq<char>, Seq<char>, bool),
> {
    Seq::new(list.len(), |i: int| (list[i].0@, list[i].1@, list[i].2))
}

/// The frozen injects among the given, as source under `dir` and destination as it is written.
pub open spec fn frozen_pairs(injects: Seq<Inject>, dir: Seq<char>) -> Seq<(Seq<char>, Seq<char>)>
    decreases injects.len(),
{
    if injects.len() == 0 {
        Seq::empty()
    } else {
        let before = frozen_pairs(injects.drop_last(), dir);
        if injects.last().frozen {
            before.push((paths::joined(dir, injects.last().src@), injects.last().dst@))
        } else {
            before
        }
    }
}

impl Manifest {
    /// Whether the run is a task: without a judge every completed turn is kept.
    pub fn is_task(&self) -> (r: bool)
        ensures
            r == (self.judge is None),
    {
        self.judge.is_none()
    }

    /// The judge, for a run that must be scored.
    pub fn require_judge(&self) -> (r: Result<&JudgeCfg, ManifestError>)
        ensures
            match r {
                Ok(judge) => self.judge == Some(*judge),
                Err(e) => self.judge is None && e@ == ManifestFault::NoJudge,
            },
    {
        match &self.judge {
            Some(judge) => Ok(judge),
            None => Err(ManifestError::NoJudge),
        }
    }

    /// Which way the score improves.
    pub fn direction(&self) -> (r: Result<Direction, ManifestError>)
        ensures
            match (r, self.judge) {
                (Err(e), None) => e@ == ManifestFault::NoJudge,
                (Ok(direction), Some(judge)) => direction_of(judge.direction@) == Some(direction),
                (Err(e), Some(judge)) => direction_of(judge.direction@) is None && e@
                    == ManifestFault::BadDirection(judge.direction@),
                _ => false,
            },
    {
        match self.require_judge() {
            Ok(judge) => parse_direction(judge.direction.as_str()),
            Err(error) => Err(error),
        }
    }

    /// Which way the tiebreak improves, where that is given.
    pub fn tiebreak_direction(&self) -> (r: Result<Option<Direction>, ManifestError>)
        ensures
            match self.judge {
                None => r matches Err(e) && e@ == ManifestFault::NoJudge,
                Some(judge) => match (r, judge.tiebreak_direction) {
                    (Ok(None), None) => true,
                    (Ok(Some(direction)), Some(value)) => direction_of(value@) == Some(direction),
                    (Err(e), Some(value)) => direction_of(value@) is None && e@
                        == ManifestFault::BadDirection(value@),
                    _ => false,
                },
            },
    {
        match self.require_judge() {
            Ok(judge) => parse_tiebreak_direction(judge),
            Err(error) => Err(error),
        }
    }

    /// The workspace of the manifest at a path: beside the manifest, unless its directory is given
    /// from the root.
    pub fn workspace_path(&self, manifest_path: &str) -> (r: String)
        ensures
            r@ == paths::joined(paths::directory_of(manifest_path@), self.workspace.dir@),
    {
        paths::join_path(paths::manifest_dir(manifest_path).as_str(), self.workspace.dir.as_str())
    }

    /// The injects with their sources under the manifest's directory and their destinations under
    /// the workspace.
    pub fn resolved_injects(&self, manifest_dir: &str, workspace: &str) -> (r: Vec<
        (String, String, bool),
    >)
        ensures
            inject_models(r@) == Seq::new(
                self.workspace.inject@.len(),
                |i: int| resolved_inject(self.workspace.inject@[i], manifest_dir@, workspace@),
            ),
    {
        let mut out: Vec<(String, String, bool)> = Vec::new();
        let mut i: usize = 0;
        let injects = &self.workspace.inject;
        while i < injects.len()
            invariant
                i <= injects@.len(),
                out@.len() == i,
                forall|j: int|
                    0 <= j < i ==> ((#[trigger] out@[j]).0@, out@[j].1@, out@[j].2) == resolved_inject(
                        injects@[j],
                        manifest_dir@,
                        workspace@,
                    ),
            decreases injects@.len() - i,
        {
            let src = paths::join_path(manifest_dir, injects[i].src.as_str());
            let dst = paths::join_path(workspace, injects[i].dst.as_str());
            out.push((src, dst, injects[i].frozen));
            i = i + 1;
        }
        assert(inject_models(out@) =~= Seq::new(
            injects@.len(),
            |i: int| resolved_inject(injects@[i], manifest_dir@, workspace@),
        ));
        out
    }

    /// The frozen injects, with their destinations still relative: the workspace is known only when
    /// a task is dispatched.
    pub fn frozen_inject_pairs(&self, manifest_dir: &str) -> (r: Vec<(String, String)>)
        ensures
            text::pairs(r@) == frozen_pairs(self.workspace.inject@, manifest_dir@),
    {
        let mut out: Vec<(String, String)> = Vec::new();
        let mut i: usize = 0;
        let injects = &self.workspace.inject;
        assert(text::pairs(out@) =~= frozen_pairs(injects@.take(0), manifest_dir@));
        while i < injects.len()
            invariant
                i <= injects@.len(),
                text::pairs(out@) == frozen_pairs(injects@.take(i as int), manifest_dir@),
            decreases injects@.len() - i,
        {
            assert(injects@.take(i + 1).drop_last() =~= injects@.take(i as int));
            if injects[i].frozen {
                let ghost before = text::pairs(out@);
                let src = paths::join_path(manifest_dir, injects[i].src.as_str());
                out.push((src, injects[i].dst.clone()));
                assert(text::pairs(out@) =~= before.push(
                    (
                        paths::joined(manifest_dir@, injects@[i as int].src@),
                        injects@[i as int].dst@,
                    ),
                ));
            }
            i = i + 1;
        }
        assert(injects@.take(i as int) =~= injects@);
        out
    }
}

/// Where a component's manifest is read and where it is checked out.
#[derive(Debug)]
pub struct ComponentSite {
    pub name: String,
    pub domain_dir: String,
    pub manifest_path: String,
    pub workspace: String,
}

/// A site, in its texts.
pub struct SiteModel {
    pub name: Seq<char>,
    pub domain_dir: Seq<char>,
    pub manifest_path: Seq<char>,
    pub workspace: Seq<char>,
}

impl View for ComponentSite {
    type V = SiteModel;

    open spec fn view(&self) -> SiteModel {
        SiteModel {
            name: self.name@,
            domain_dir: self.domain_dir@,
            manifest_path: self.manifest_path@,
            workspace: self.workspace@,
        }
    }
}

impl ComponentSite {
    /// The component, once its manifest is loaded.
    pub fn with_manifest(&self, manifest: Manifest) -> (r: ResolvedComponent)
        ensures
            r.name@ == self.name@,
            r.domain_dir@ == self.domain_dir@,
            r.manifest == manifest,
            r.workspace@ == self.workspace@,
    {
        ResolvedComponent {
            name: self.name.clone(),
            domain_dir: self.domain_dir.clone(),
            manifest,
            workspace: self.workspace.clone(),
        }
    }
}

/// The directory a component is checked out into.
pub open spec fn checkout_name(component: ComponentRef) -> Seq<char> {
    match component.workspace_dir {
        Some(dir) => dir@,
        None => component.domain@,
    }
}

/// The site of a component: its manifest in the sibling domain, its checkout under the base.
pub open spec fn site_of(component: ComponentRef, domains: Seq<char>, base: Seq<char>) -> SiteModel {
    let dir = paths::joined(domains, component.domain@);
    SiteModel {
        name: component.domain@,
        domain_dir: dir,
        manifest_path: paths::joined(dir, "crucible.toml"@),
        workspace: paths::joined(base, checkout_name(component)),
    }
}

/// The sites of a composite's components, in their order, where the composite's manifest lies in
/// `manifest_dir` and the domains in `domains`.
pub open spec fn sites_of(
    composite: CompositeManifest,
    manifest_dir: Seq<char>,
    domains: Seq<char>,
) -> Seq<SiteModel> {
    Seq::new(
        composite.components@.len(),
        |i: int|
            site_of(
                composite.components@[i],
                domains,
                paths::joined(manifest_dir, composite.workspace.dir@),
            ),
    )
}

/// Why the components of a composite were not resolved.
#[derive(Debug)]
pub enum ComponentsError<E> {
    /// The manifest's directory has no parent, where the domains would lie.
    NoDomains,
    /// The manifest of the component was not loaded.
    Load { name: String, error: E },
}

/// What a failed load is reported as.
pub fn component_context(name: &str) -> (r: String)
    ensures
        r@ == "loading component `"@ + name@ + "` manifest"@,
{
    text::concat3("loading component `", name, "` manifest")
}

/// Whether `outcome` is what loading gave for the manifest of a site.
pub open spec fn loaded_at<E, L: Fn(String) -> Result<Manifest, E>>(
    load: L,
    site: SiteModel,
    outcome: Result<Manifest, E>,
) -> bool {
    exists|path: String|
        path@ == site.manifest_path && #[trigger] call_ensures(load, (path,), outcome)
}

/// Whether `component` is the one of a site, with the manifest that was loaded for it.
pub open spec fn resolved_at<E, L: Fn(String) -> Result<Manifest, E>>(
    load: L,
    site: SiteModel,
    component: ResolvedComponent,
) -> bool {
    &&& component.name@ == site.name
    &&& component.domain_dir@ == site.domain_dir
    &&& component.workspace@ == site.workspace
    &&& loaded_at(load, site, Ok::<Manifest, E>(component.manifest))
}

/// Whether loading gave a manifest for a site.
pub open spec fn is_loaded<E, L: Fn(String) -> Result<Manifest, E>>(load: L, site: SiteModel) -> bool {
    exists|manifest: Manifest| #[trigger] loaded_at(load, site, Ok::<Manifest, E>(manifest))
}

/// Whether the manifest of site `i` is the first that was not loaded.
pub open spec fn first_failure<E, L: Fn(String) -> Result<Manifest, E>>(
    load: L,
    sites: Seq<SiteModel>,
    i: int,
    error: E,
) -> bool {
    &&& 0 <= i < sites.len()
    &&& loaded_at(load, sites[i], Err::<Manifest, E>(error))
    &&& forall|j: int| 0 <= j < i ==> #[trigger] is_loaded(load, sites[j])
}

/// Whether the first manifest that was not loaded is that of the component with the name.
pub open spec fn fails_first<E, L: Fn(String) -> Result<Manifest, E>>(
    load: L,
    sites: Seq<SiteModel>,
    name: Seq<char>,
    error: E,
) -> bool {
    exists|i: int| #[trigger] first_failure(load, sites, i, error) && name == sites[i].name
}

/// Whether `r` is what resolving yields: every component in its order, or the first failed load and
/// no component at all.
pub open spec fn resolves<E, L: Fn(String) -> Result<Manifest, E>>(
    load: L,
    sites: Seq<SiteModel>,
    r: Result<Vec<ResolvedComponent>, ComponentsError<E>>,
) -> bool {
    match r {
        Ok(out) => out@.len() == sites.len() && forall|i: int|
            0 <= i < sites.len() ==> #[trigger] resolved_at(load, sites[i], out@[i]),
        Err(ComponentsError::Load { name, error }) => fails_first(load, sites, name@, error),
        Err(ComponentsError::NoDomains) => false,
    }
}

pub open spec fn site_models(sites: Seq<ComponentSite>) -> Seq<SiteModel> {
    Seq::new(sites.len(), |i: int| sites[i]@)
}

/// The components that name a fork, each with it.
pub open spec fn declared_forks(components: Seq<ComponentRef>) -> Seq<(Seq<char>, Seq<char>)>
    decreases components.len(),
{
    if components.len() == 0 {
        Seq::empty()
    } else {
        let before = declared_forks(components.drop_last());
        match components.last().pr_repo {
            Some(fork) => before.push((components.last().domain@, fork@)),
            None => before,
        }
    }
}

impl CompositeManifest {
    /// Which way the score improves.
    pub fn direction(&self) -> (r: Result<Direction, ManifestError>)
        ensures
            match r {
                Ok(direction) => direction_of(self.judge.direction@) == Some(direction),
                Err(e) => direction_of(self.judge.direction@) is None && e@
                    == ManifestFault::BadDirection(self.judge.direction@),
            },
    {
        parse_direction(self.judge.direction.as_str())
    }

    /// Which way the tiebreak improves, where that is given.
    pub fn tiebreak_direction(&self) -> (r: Result<Option<Direction>, ManifestError>)
        ensures
            match (r, self.judge.tiebreak_direction) {
                (Ok(None), None) => true,
                (Ok(Some(direction)), Some(value)) => direction_of(value@) == Some(direction),
                (Err(e), Some(value)) => direction_of(value@) is None && e@
                    == ManifestFault::BadDirection(value@),
                _ => false,
            },
    {
        parse_tiebreak_direction(&self.judge)
    }

    /// The directory that holds the components' checkouts.
    pub fn base_dir(&self, manifest_dir: &str) -> (r: String)
        ensures
            r@ == paths::joined(manifest_dir@, self.workspace.dir@),
    {
        paths::join_path(manifest_dir, self.workspace.dir.as_str())
    }

    /// The forks that draft pull requests go to, by component. A component without one is left out.
    pub fn component_pr_repos(&self) -> (r: Vec<(String, String)>)
        ensures
            text::pairs(r@) == declared_forks(self.components@),
    {
        let mut out: Vec<(String, String)> = Vec::new();
        let mut i: usize = 0;
        let components = &self.components;
        assert(text::pairs(out@) =~= declared_forks(components@.take(0)));
        while i < components.len()
            invariant
                i <= components@.len(),
                text::pairs(out@) == declared_forks(components@.take(i as int)),
            decreases components@.len() - i,
        {
            assert(components@.take(i + 1).drop_last() =~= components@.take(i as int));
            match &components[i].pr_repo {
                Some(fork) => {
                    let ghost before = text::pairs(out@);
                    out.push((components[i].domain.clone(), fork.clone()));
                    assert(text::pairs(out@) =~= before.push(
                        (components@[i as int].domain@, fork@),
                    ));
                },
                None => {},
            }
            i = i + 1;
        }
        assert(components@.take(i as int) =~= components@);
        out
    }

    /// Where each component's manifest lies and where it is checked out: the former in the
    /// directory beside the composite's, the latter side by side under the base. `None` where the
    /// manifest's directory has no parent.
    pub fn component_sites(&self, manifest_dir: &str) -> (r: Option<Vec<ComponentSite>>)
        ensures
            match (r, paths::parent_of(manifest_dir@)) {
                (None, None) => true,
                (Some(sites), Some(domains)) => site_models(sites@) == sites_of(
                    *self,
                    manifest_dir@,
                    domains,
                ),
                _ => false,
            },
    {
        let domains = match paths::parent(manifest_dir) {
            Some(dir) => dir,
            None => return None,
        };
        let base = self.base_dir(manifest_dir);
        let components = &self.components;
        let mut out: Vec<ComponentSite> = Vec::new();
        let mut i: usize = 0;
        while i < components.len()
            invariant
                i <= components@.len(),
                out@.len() == i,
                forall|j: int|
                    0 <= j < i ==> (#[trigger] out@[j])@ == site_of(components@[j], domains@, base@),
            decreases components@.len() - i,
        {
            let component = &components[i];
            let domain_dir = paths::join_path(domains.as_str(), component.domain.as_str());
            let subdir = match &component.workspace_dir {
                Some(dir) => dir.clone(),
                None => component.domain.clone(),
            };
            out.push(
                ComponentSite {
                    name: component.domain.clone(),
                    manifest_path: paths::join_path(domain_dir.as_str(), "crucible.toml"),
                    domain_dir,
                    workspace: paths::join_path(base.as_str(), subdir.as_str()),
                },
            );
            i = i + 1;
        }
        assert(site_models(out@) =~= sites_of(*self, manifest_dir@, domains@));
        Some(out)
    }

    /// Resolves each component: `load` reads the manifest in its domain, and it is checked out side
    /// by side with the others. One manifest that is not loaded fails the whole, and so does a
    /// manifest's directory without a parent.
    pub fn resolve_components<E, L: Fn(String) -> Result<Manifest, E>>(
        &self,
        manifest_dir: &str,
        load: &L,
    ) -> (r: Result<Vec<ResolvedComponent>, ComponentsError<E>>)
        requires
            forall|domains: Seq<char>, i: int, path: String|
                paths::parent_of(manifest_dir@) == Some(domains) && 0 <= i
                    < self.components@.len() && path@ == (#[trigger] sites_of(
                    *self,
                    manifest_dir@,
                    domains,
                )[i]).manifest_path ==> #[trigger] call_requires(*load, (path,)),
        ensures
            match paths::parent_of(manifest_dir@) {
                None => r matches Err(ComponentsError::NoDomains),
                Some(domains) => resolves(*load, sites_of(*self, manifest_dir@, domains), r),
            },
    {
        let sites = match self.component_sites(manifest_dir) {
            Some(sites) => sites,
            None => return Err(ComponentsError::NoDomains),
        };
        let ghost domains = paths::parent_of(manifest_dir@)->0;
        let ghost models = sites_of(*self, manifest_dir@, domains);
        let mut out: Vec<ResolvedComponent> = Vec::new();
        let mut i: usize = 0;
        while i < sites.len()
            invariant
                i <= sites@.len(),
                paths::parent_of(manifest_dir@) == Some(domains),
                models == sites_of(*self, manifest_dir@, domains),
                site_models(sites@) == models,
                forall|domains: Seq<char>, i: int, path: String|
                    paths::parent_of(manifest_dir@) == Some(domains) && 0 <= i
                        < self.components@.len() && path@ == (#[trigger] sites_of(
                        *self,
                        manifest_dir@,
                        domains,
                    )[i]).manifest_path ==> #[trigger] call_requires(*load, (path,)),
                out@.len() == i,
                forall|j: int| 0 <= j < i ==> #[trigger] resolved_at(*load, models[j], out@[j]),
            decreases sites@.len() - i,
        {
            let site = &sites[i];
            let path = site.manifest_path.clone();
            let ghost place = path;
            assert(models[i as int] == site@);
            assert(models.len() == self.components@.len());
            assert(place@ == sites_of(*self, manifest_dir@, domains)[i as int].manifest_path);
            assert(call_requires(*load, (place,)));
            let outcome = load(path);
            assert(call_ensures(*load, (place,), outcome));
            assert(loaded_at(*load, models[i as int], outcome));
            match outcome {
                Ok(manifest) => {
                    let component = site.with_manifest(manifest);
                    assert(resolved_at(*load, models[i as int], component));
                    let ghost before = out@;
                    out.push(component);
                    assert forall|j: int| 0 <= j < i + 1 implies #[trigger] resolved_at(
                        *load,
                        models[j],
                        out@[j],
                    ) by {
                        if j < i {
                            assert(resolved_at(*load, models[j], before[j]));
                        }
                    }
                },
                Err(error) => {
                    proof {
                        assert forall|j: int| 0 <= j < i implies #[trigger] is_loaded(
                            *load,
                            models[j],
                        ) by {
                            assert(resolved_at(*load, models[j], out@[j]));
                        }
                        assert(first_failure(*load, models, i as int, error));
                    }
                    let name = site.name.clone();
                    assert(fails_first(*load, models, name@, error));
                    return Err(ComponentsError::Load { name, error });
                },
            }
            i = i + 1;
        }
        Ok(out)
    }

    /// The deploy target of a component: the composite's own for it, else the component's.
    pub fn deploy_for(&self, c: &ResolvedComponent) -> (r: Option<OpaqueTable>)
        ensures
            match (r, if self.deploy@.contains_key(c.name@) {
                Some(self.deploy@[c.name@])
            } else {
                c.manifest.deploy
            }) {
                (Some(table), Some(chosen)) => table.text@ == chosen.text@,
                (None, None) => true,
                _ => false,
            },
    {
        match self.deploy.get(c.name.as_str()) {
            Some(table) => Some(table.duplicate()),
            None => match &c.manifest.deploy {
                Some(table) => Some(table.duplicate()),
                None => None,
            },
        }
    }
}

/// Whether a loader gives one answer to each path.
pub open spec fn loads_once<E, L: Fn(String) -> Result<Manifest, E>>(load: L) -> bool {
    forall|p: String, q: String, a: Result<Manifest, E>, b: Result<Manifest, E>| #[trigger]
        call_ensures(load, (p,), a) && #[trigger] call_ensures(load, (q,), b) && p@ == q@ ==> a == b
}

/// Where a loader gives one answer to each path, resolving fails exactly where the manifest of some
/// component is not loaded.
pub proof fn one_failed_load_fails_the_whole<E, L: Fn(String) -> Result<Manifest, E>>(
    load: L,
    sites: Seq<SiteModel>,
    r: Result<Vec<ResolvedComponent>, ComponentsError<E>>,
)
    requires
        loads_once(load),
        resolves(load, sites, r),
    ensures
        r is Err <==> exists|i: int, error: E|
            0 <= i < sites.len() && #[trigger] loaded_at(load, sites[i], Err::<Manifest, E>(error)),
{
    match r {
        Ok(out) => {
            assert forall|i: int, error: E| 0 <= i < sites.len() implies !(#[trigger] loaded_at(
                load,
                sites[i],
                Err::<Manifest, E>(error),
            )) by {
                assert(resolved_at(load, sites[i], out@[i]));
            }
        },
        Err(ComponentsError::Load { name, error }) => {
            let i = choose|i: int| #[trigger]
                first_failure(load, sites, i, error) && name@ == sites[i].name;
            assert(loaded_at(load, sites[i], Err::<Manifest, E>(error)));
        },
        Err(ComponentsError::NoDomains) => {},
    }
}

/// The frozen injects are handed out and no others.
pub proof fn frozen_pairs_are_the_frozen_injects(
    injects: Seq<Inject>,
    dir: Seq<char>,
    pair: (Seq<char>, Seq<char>),
)
    ensures
        frozen_pairs(injects, dir).contains(pair) <==> exists|i: int|
            0 <= i < injects.len() && (#[trigger] injects[i]).frozen && pair == (
                paths::joined(dir, injects[i].src@),
                injects[i].dst@,
            ),
    decreases injects.len(),
{
    let all = frozen_pairs(injects, dir);
    if injects.len() > 0 {
        let init = injects.drop_last();
        let before = frozen_pairs(init, dir);
        let n = injects.len() - 1;
        frozen_pairs_are_the_frozen_injects(init, dir, pair);
        if all.contains(pair) {
            let k = choose|k: int| 0 <= k < all.len() && all[k] == pair;
            if k < before.len() {
                assert(before[k] == pair);
                let i = choose|i: int|
                    0 <= i < init.len() && (#[trigger] init[i]).frozen && pair == (
                        paths::joined(dir, init[i].src@),
                        init[i].dst@,
                    );
                assert(injects[i] == init[i]);
            } else {
                assert(injects[n].frozen);
            }
        }
        if exists|i: int|
            0 <= i < injects.len() && (#[trigger] injects[i]).frozen && pair == (
                paths::joined(dir, injects[i].src@),
                injects[i].dst@,
            ) {
            let i = choose|i: int|
                0 <= i < injects.len() && (#[trigger] injects[i]).frozen && pair == (
                    paths::joined(dir, injects[i].src@),
                    injects[i].dst@,
                );
            if i < n {
                assert(init[i] == injects[i]);
                let k = choose|k: int| 0 <= k < before.len() && before[k] == pair;
                assert(all[k] == pair);
            } else {
                assert(all[before.len() as int] == pair);
            }
        }
    }
}

/// A component has a place among the forks exactly where it declares one.
pub proof fn declared_forks_are_those_of_components(
    components: Seq<ComponentRef>,
    fork: (Seq<char>, Seq<char>),
)
    ensures
        declared_forks(components).contains(fork) <==> exists|i: int|
            0 <= i < components.len() && text::text_opt((#[trigger] components[i]).pr_repo) == Some(
                fork.1,
            ) && components[i].domain@ == fork.0,
    decreases components.len(),
{
    let all = declared_forks(components);
    if components.len() > 0 {
        let init = components.drop_last();
        let before = declared_forks(init);
        let n = components.len() - 1;
        declared_forks_are_those_of_components(init, fork);
        if all.contains(fork) {
            let k = choose|k: int| 0 <= k < all.len() && all[k] == fork;
            if k < before.len() {
                assert(before[k] == fork);
                let i = choose|i: int|
                    0 <= i < init.len() && text::text_opt((#[trigger] init[i]).pr_repo) == Some(
                        fork.1,
                    ) && init[i].domain@ == fork.0;
                assert(components[i] == init[i]);
            } else {
                assert(text::text_opt(components[n].pr_repo) == Some(fork.1));
            }
        }
        if exists|i: int|
            0 <= i < components.len() && text::text_opt((#[trigger] components[i]).pr_repo) == Some(
                fork.1,
            ) && components[i].domain@ == fork.0 {
            let i = choose|i: int|
                0 <= i < components.len() && text::text_opt((#[trigger] components[i]).pr_repo)
                    == Some(fork.1) && components[i].domain@ == fork.0;
            if i < n {
                assert(init[i] == components[i]);
                let k = choose|k: int| 0 <= k < before.len() && before[k] == fork;
                assert(all[k] == fork);
            } else {
                assert(all[before.len() as int] == fork);
            }
        }
    }
}

/// Two texts name a direction, each its own, and no other text names one.
pub proof fn two_texts_name_a_direction(value: Seq<char>)
    ensures
        direction_of("lower"@) == Some(Direction::Lower),
        direction_of("higher"@) == Some(Direction::Higher),
        direction_of(value) is Some <==> value == "lower"@ || value == "higher"@,
{
    reveal_strlit("lower");
    reveal_strlit("higher");
    assert("lower"@.len() != "higher"@.len());
}

/// An inject leads from below the manifest's directory to below the workspace, for names however
/// deep, and stays as frozen as it was.
pub proof fn inject_leads_from_the_manifest_to_the_workspace(
    cwd: Seq<char>,
    dir: Seq<char>,
    workspace: Seq<char>,
    inject: Inject,
    from: Seq<Seq<char>>,
    to: Seq<Seq<char>>,
)
    requires
        from.len() > 0,
        to.len() > 0,
        paths::plain_names(from),
        paths::plain_names(to),
        inject.src@ == text::join(from, "/"@),
        inject.dst@ == text::join(to, "/"@),
    ensures
        ({
            let (src, dst, frozen) = resolved_inject(inject, dir, workspace);
            &&& paths::resolved(cwd, src) == paths::resolved(cwd, dir) + from
            &&& paths::resolved(cwd, dst) == paths::resolved(cwd, workspace) + to
            &&& frozen == inject.frozen
        }),
{
    paths::names_lead_below(cwd, dir, from);
    paths::names_lead_below(cwd, workspace, to);
}

/// A source or destination from the root stays as it is.
pub proof fn rooted_inject_stays_as_it_is(inject: Inject, dir: Seq<char>, workspace: Seq<char>)
    ensures
        paths::rooted(inject.src@) ==> resolved_inject(inject, dir, workspace).0 == inject.src@,
        paths::rooted(inject.dst@) ==> resolved_inject(inject, dir, workspace).1 == inject.dst@,
        resolved_inject(inject, dir, workspace).2 == inject.frozen,
{
}

/// The frozen injects are handed out in their order: one more adds its pair at the end where it is
/// frozen, and nothing where it is not.
pub proof fn frozen_pairs_keep_their_order(injects: Seq<Inject>, inject: Inject, dir: Seq<char>)
    ensures
        frozen_pairs(Seq::empty(), dir) == Seq::<(Seq<char>, Seq<char>)>::empty(),
        inject.frozen ==> frozen_pairs(injects.push(inject), dir) == frozen_pairs(injects, dir).push(
            (paths::joined(dir, inject.src@), inject.dst@),
        ),
        !inject.frozen ==> frozen_pairs(injects.push(inject), dir) == frozen_pairs(injects, dir),
{
    assert(injects.push(inject).drop_last() == injects);
}

/// The forks are given in the order of the components: one more component adds its fork at the end
/// where it declares one, and nothing where it does not.
pub proof fn declared_forks_keep_their_order(
    components: Seq<ComponentRef>,
    component: ComponentRef,
)
    ensures
        declared_forks(Seq::empty()) == Seq::<(Seq<char>, Seq<char>)>::empty(),
        component.pr_repo matches Some(fork) ==> declared_forks(components.push(component))
            == declared_forks(components).push((component.domain@, fork@)),
        component.pr_repo is None ==> declared_forks(components.push(component)) == declared_forks(
            components,
        ),
{
    assert(components.push(component).drop_last() == components);
}

/// A component is found in the domain beside the composite's own directory, by its name, with its
/// manifest in `crucible.toml` there, and is checked out one step below the composite's workspace:
/// under the directory that it names, or under its own name.
pub proof fn component_lies_in_its_domain(
    cwd: Seq<char>,
    composite: CompositeManifest,
    manifest_dir: Seq<char>,
    domains: Seq<char>,
    i: int,
)
    requires
        0 <= i < composite.components@.len(),
        paths::plain_name(composite.components@[i].domain@),
        composite.components@[i].workspace_dir matches Some(dir) ==> paths::plain_name(dir@),
    ensures
        ({
            let component = composite.components@[i];
            let site = sites_of(composite, manifest_dir, domains)[i];
            let base = paths::joined(manifest_dir, composite.workspace.dir@);
            &&& sites_of(composite, manifest_dir, domains).len() == composite.components@.len()
            &&& site.name == component.domain@
            &&& paths::resolved(cwd, site.domain_dir) == paths::resolved(cwd, domains).push(
                component.domain@,
            )
            &&& paths::resolved(cwd, site.manifest_path) == paths::resolved(cwd, domains).push(
                component.domain@,
            ).push("crucible.toml"@)
            &&& paths::resolved(cwd, site.workspace) == paths::resolved(cwd, base).push(
                match component.workspace_dir {
                    Some(dir) => dir@,
                    None => component.domain@,
                },
            )
        }),
{
    let component = composite.components@[i];
    let site = sites_of(composite, manifest_dir, domains)[i];
    let base = paths::joined(manifest_dir, composite.workspace.dir@);
    paths::name_leads_one_step_below(cwd, domains, component.domain@);
    reveal_strlit("crucible.toml");
    reveal_strlit(".");
    reveal_strlit("..");
    assert(paths::plain_name("crucible.toml"@));
    paths::name_leads_one_step_below(cwd, site.domain_dir, "crucible.toml"@);
    paths::name_leads_one_step_below(cwd, base, checkout_name(component));
}

/// The domains are the directory above the composite's own, so a component's domain is its sibling.
pub proof fn domains_are_beside_the_composite(above: Seq<Seq<char>>, name: Seq<char>)
    requires
        above.len() > 0,
        paths::plain(above),
        paths::plain_name(name),
    ensures
        paths::parent_of(paths::joined(paths::path_text(above), name)) == Some(
            paths::path_text(above),
        ),
{
    let written = paths::path_text(above);
    paths::path_text_reads_back(above);
    if written.len() == 0 {
        assert(written == Seq::<char>::empty());
        paths::lemma_empty_path();
    }
    paths::directory_is_what_the_name_was_joined_to(written, name);
}

/// What is resolved is one component for each site, in order, each with the site's name and places
/// and with the manifest that was loaded from the site's path. What fails is reported for the
/// component whose manifest was not loaded.
pub proof fn resolved_components_are_those_of_their_sites<
    E,
    L: Fn(String) -> Result<Manifest, E>,
>(
    load: L,
    sites: Seq<SiteModel>,
    r: Result<Vec<ResolvedComponent>, ComponentsError<E>>,
    i: int,
)
    requires
        resolves(load, sites, r),
    ensures
        r matches Ok(out) ==> out@.len() == sites.len() && (0 <= i < sites.len() ==> {
            &&& out@[i].name@ == sites[i].name
            &&& out@[i].domain_dir@ == sites[i].domain_dir
            &&& out@[i].workspace@ == sites[i].workspace
            &&& exists|path: String|
                path@ == sites[i].manifest_path && #[trigger] call_ensures(
                    load,
                    (path,),
                    Ok::<Manifest, E>(out@[i].manifest),
                )
        }),
        !(r matches Err(ComponentsError::NoDomains)),
        r matches Err(ComponentsError::Load { name, error }) ==> exists|k: int, path: String|
            {
                &&& 0 <= k < sites.len()
                &&& name@ == (#[trigger] sites[k]).name
                &&& path@ == sites[k].manifest_path
                &&& #[trigger] call_ensures(load, (path,), Err::<Manifest, E>(error))
            },
{
    match r {
        Ok(out) => {
            if 0 <= i < sites.len() {
                assert(resolved_at(load, sites[i], out@[i]));
            }
        },
        Err(ComponentsError::Load { name, error }) => {
            let k = choose|k: int| #[trigger]
                first_failure(load, sites, k, error) && name@ == sites[k].name;
            assert(loaded_at(load, sites[k], Err::<Manifest, E>(error)));
            let path = choose|path: String|
                path@ == sites[k].manifest_path && #[trigger] call_ensures(
                    load,
                    (path,),
                    Err::<Manifest, E>(error),
                );
            assert(name@ == sites[k].name);
        },
        Err(ComponentsError::NoDomains) => {},
    }
}

/// A site is spoken of by all that it holds, and a resolved inject by its two paths and its mark.
pub proof fn sites_are_seen_as_they_are(
    site: ComponentSite,
    sites: Seq<ComponentSite>,
    injects: Seq<(String, String, bool)>,
    i: int,
)
    ensures
        site@.name == site.name@,
        site@.domain_dir == site.domain_dir@,
        site@.manifest_path == site.manifest_path@,
        site@.workspace == site.workspace@,
        site_models(sites).len() == sites.len(),
        0 <= i < sites.len() ==> site_models(sites)[i] == sites[i]@,
        inject_models(injects).len() == injects.len(),
        0 <= i < injects.len() ==> inject_models(injects)[i] == (
            injects[i].0@,
            injects[i].1@,
            injects[i].2,
        ),
{
}

/// The places of a component are joined of the domains and its name, and of the base and the name of
/// its checkout, whatever these are.
pub proof fn component_places_are_joined(
    component: ComponentRef,
    domains: Seq<char>,
    base: Seq<char>,
)
    ensures
        ({
            let site = site_of(component, domains, base);
            &&& site.domain_dir == paths::joined(domains, component.domain@)
            &&& site.manifest_path == paths::joined(
                paths::joined(domains, component.domain@),
                "crucible.toml"@,
            )
            &&& component.workspace_dir matches Some(dir) ==> site.workspace == paths::joined(
                base,
                dir@,
            )
            &&& component.workspace_dir is None ==> site.workspace == paths::joined(
                base,
                component.domain@,
            )
        }),
{
}

/// The paths of an inject are joined of the manifest's directory and the source, and of the workspace
/// and the destination, whatever these are.
pub proof fn inject_paths_are_joined(inject: Inject, dir: Seq<char>, workspace: Seq<char>)
    ensures
        resolved_inject(inject, dir, workspace).0 == paths::joined(dir, inject.src@),
        resolved_inject(inject, dir, workspace).1 == paths::joined(workspace, inject.dst@),
{
}

} // verus!
