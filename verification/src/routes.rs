use vstd::prelude::*;

use crate::names;
use crate::names::NameMap;
use crate::text;

verus! {

/// A tool as it is listed, by a service or by the broker. `definition` is all of it (schemas and
/// annotations with the rest), in JSON; the name and the description here are the ones that count.
#[derive(Debug)]
pub struct ListedTool {
    pub name: String,
    pub description: Option<String>,
    pub definition: String,
}

/// A listed tool, in its texts.
pub struct ListedModel {
    pub name: Seq<char>,
    pub description: Option<Seq<char>>,
    pub definition: Seq<char>,
}

impl View for ListedTool {
    type V = ListedModel;

    open spec fn view(&self) -> ListedModel {
        ListedModel {
            name: self.name@,
            description: text::text_opt(self.description),
            definition: self.definition@,
        }
    }
}

/// Listed tools, in their texts.
pub open spec fn listed_models(tools: Seq<ListedTool>) -> Seq<ListedModel> {
    Seq::new(tools.len(), |i: int| tools[i]@)
}

/// The names of listed tools.
pub open spec fn listed_names(tools: Seq<ListedModel>) -> Seq<Seq<char>> {
    Seq::new(tools.len(), |i: int| tools[i].name)
}

/// The tools that can be called, by name.
#[derive(Debug)]
pub struct ToolRoutes {
    map: NameMap<ListedTool>,
}

/// What is routed once the tools have been added in order; of two with one name the later counts.
pub open spec fn routed_with(
    routes: Map<Seq<char>, ListedModel>,
    tools: Seq<ListedModel>,
) -> Map<Seq<char>, ListedModel>
    decreases tools.len(),
{
    if tools.len() == 0 {
        routes
    } else {
        routed_with(routes, tools.drop_last()).insert(tools.last().name, tools.last())
    }
}

/// Whether the list holds the tools that are routed, each once and in the order of their names.
pub open spec fn lists_routes(
    list: Seq<ListedModel>,
    routes: Map<Seq<char>, ListedModel>,
) -> bool {
    &&& names::lists(listed_names(list), routes.dom())
    &&& forall|i: int| 0 <= i < list.len() ==> routes[(#[trigger] list[i]).name] == list[i]
}

/// References to listed tools, in their texts.
pub open spec fn listed_refs(tools: Seq<&ListedTool>) -> Seq<ListedModel> {
    Seq::new(tools.len(), |i: int| tools[i]@)
}

impl ToolRoutes {
    #[verifier::type_invariant]
    spec fn keyed(self) -> bool {
        forall|name: Seq<char>| #[trigger]
            self.map@.contains_key(name) ==> self.map@[name].name@ == name
    }

    pub closed spec fn view(self) -> Map<Seq<char>, ListedModel> {
        self.map@.map_values(|tool: ListedTool| tool@)
    }

    /// No tools.
    pub fn new() -> (r: ToolRoutes)
        ensures
            r@ == Map::<Seq<char>, ListedModel>::empty(),
    {
        let r = ToolRoutes { map: NameMap::new() };
        assert(r@ =~= Map::<Seq<char>, ListedModel>::empty());
        r
    }

    /// Adds a tool, in place of one with its name.
    pub fn add_route(&mut self, tool: ListedTool)
        ensures
            final(self)@ == old(self)@.insert(tool@.name, tool@),
    {
        proof {
            use_type_invariant(&*self);
        }
        let mut map: NameMap<ListedTool> = NameMap::new();
        std::mem::swap(&mut map, &mut self.map);
        map.insert(tool.name.clone(), tool);
        self.map = map;
        assert(self@ =~= old(self)@.insert(tool@.name, tool@));
    }

    /// Whether a name is routed.
    pub fn has_route(&self, name: &str) -> (r: bool)
        ensures
            r == self@.contains_key(name@),
    {
        self.map.get(name).is_some()
    }

    /// The tool of that name.
    pub fn get(&self, name: &str) -> (r: Option<&ListedTool>)
        ensures
            match r {
                Some(tool) => self@.contains_key(name@) && tool@ == self@[name@] && tool@.name
                    == name@,
                None => !self@.contains_key(name@),
            },
    {
        proof {
            use_type_invariant(self);
        }
        self.map.get(name)
    }

    /// All tools, in the order of their names.
    pub fn list_all(&self) -> (r: Vec<&ListedTool>)
        ensures
            lists_routes(listed_refs(r@), self@),
    {
        proof {
            use_type_invariant(self);
        }
        let keys = self.map.keys();
        let ghost all = text::texts(keys@);
        assert(self@.dom() =~= self.map@.dom());
        let mut out: Vec<&ListedTool> = Vec::new();
        let mut i: usize = 0;
        while i < keys.len()
            invariant
                i <= keys@.len(),
                all == text::texts(keys@),
                names::lists(all, self@.dom()),
                self@.dom() == self.map@.dom(),
                self.keyed(),
                out@.len() == i,
                forall|j: int|
                    0 <= j < i ==> (#[trigger] out@[j])@ == self@[all[j]] && out@[j]@.name == all[j],
            decreases keys@.len() - i,
        {
            proof {
                assert(all[i as int] == keys@[i as int]@);
                assert(all.contains(all[i as int]));
            }
            match self.map.get(keys[i].as_str()) {
                Some(tool) => {
                    out.push(tool);
                },
                None => {
                    assert(false);
                },
            }
            i = i + 1;
        }
        assert(listed_names(listed_refs(out@)) =~= all);
        out
    }

    /// Adds tools in order.
    pub fn add_all(&mut self, tools: Vec<ListedTool>)
        ensures
            final(self)@ == routed_with(old(self)@, listed_models(tools@)),
    {
        let ghost start = self@;
        let ghost models = listed_models(tools@);
        assert(models.take(0) =~= Seq::empty());
        let mut i: usize = 0;
        while i < tools.len()
            invariant
                i <= tools@.len(),
                models == listed_models(tools@),
                start == old(self)@,
                self@ == routed_with(start, models.take(i as int)),
            decreases tools@.len() - i,
        {
            assert(models.take(i + 1).drop_last() =~= models.take(i as int));
            self.add_route(tools[i].duplicate());
            i = i + 1;
        }
        assert(models.take(i as int) =~= models);
    }
}

impl ListedTool {
    /// The same tool again.
    pub fn duplicate(&self) -> (r: ListedTool)
        ensures
            r@ == self@,
    {
        ListedTool {
            name: self.name.clone(),
            description: match &self.description {
                Some(text) => Some(text.clone()),
                None => None,
            },
            definition: self.definition.clone(),
        }
    }
}

/// How many of the names can be routed before one collides with a name that is routed already.
pub open spec fn installable(routed: Set<Seq<char>>, names: Seq<Seq<char>>) -> int
    decreases names.len(),
{
    if names.len() == 0 || routed.contains(names[0]) {
        0
    } else {
        1 + installable(routed.insert(names[0]), names.drop_first())
    }
}

/// No name twice, and none of them routed.
pub open spec fn all_free(routed: Set<Seq<char>>, names: Seq<Seq<char>>) -> bool {
    &&& forall|i: int| 0 <= i < names.len() ==> !routed.contains(#[trigger] names[i])
    &&& forall|i: int, j: int| 0 <= i < j < names.len() ==> names[i] != names[j]
}

/// Every tool is routed exactly where no two are exposed under one name and no name was taken
/// before.
pub proof fn installs_where_names_are_free(routed: Set<Seq<char>>, names: Seq<Seq<char>>)
    ensures
        0 <= installable(routed, names) <= names.len(),
        installable(routed, names) == names.len() <==> all_free(routed, names),
    decreases names.len(),
{
    if names.len() > 0 {
        let rest = names.drop_first();
        let more = routed.insert(names[0]);
        installs_where_names_are_free(more, rest);
        if all_free(routed, names) {
            assert(!routed.contains(names[0]));
            assert forall|i: int| 0 <= i < rest.len() implies !more.contains(#[trigger] rest[i]) by {
                assert(rest[i] == names[i + 1]);
            }
        }
        if !routed.contains(names[0]) && all_free(more, rest) {
            assert forall|i: int| 0 <= i < names.len() implies !routed.contains(#[trigger] names[i]) by {
                if i > 0 {
                    assert(names[i] == rest[i - 1]);
                }
            }
            assert forall|i: int, j: int| 0 <= i < j < names.len() implies names[i] != names[j] by {
                assert(names[j] == rest[j - 1]);
                if i > 0 {
                    assert(names[i] == rest[i - 1]);
                } else {
                    assert(!more.contains(rest[j - 1]));
                }
            }
        }
    }
}

/// What is routed once tools with names of their own have been added: they, and what was routed
/// before, each with its definition.
pub proof fn added_tools_are_routed(
    routes: Map<Seq<char>, ListedModel>,
    tools: Seq<ListedModel>,
)
    requires
        all_free(routes.dom(), listed_names(tools)),
    ensures
        forall|name: Seq<char>| #[trigger]
            routed_with(routes, tools).contains_key(name) <==> routes.contains_key(name)
                || listed_names(tools).contains(name),
        forall|name: Seq<char>| #[trigger]
            routes.contains_key(name) ==> routed_with(routes, tools)[name] == routes[name],
        forall|i: int|
            0 <= i < tools.len() ==> routed_with(routes, tools)[(#[trigger] tools[i]).name]
                == tools[i],
    decreases tools.len(),
{
    let names = listed_names(tools);
    if tools.len() > 0 {
        let init = tools.drop_last();
        let before = routed_with(routes, init);
        let last = tools.last();
        let n = tools.len() - 1;
        assert(listed_names(init) =~= names.drop_last());
        assert forall|i: int| 0 <= i < init.len() implies !routes.dom().contains(
            #[trigger] listed_names(init)[i],
        ) by {
            assert(listed_names(init)[i] == names[i]);
        }
        assert forall|i: int, j: int| 0 <= i < j < init.len() implies listed_names(init)[i]
            != listed_names(init)[j] by {
            assert(names[i] != names[j]);
        }
        added_tools_are_routed(routes, init);
        assert forall|name: Seq<char>| #[trigger] names.contains(name) <==> listed_names(
            init,
        ).contains(name) || name == last.name by {
            if names.contains(name) {
                let i = choose|i: int| 0 <= i < names.len() && names[i] == name;
                if i < n {
                    assert(listed_names(init)[i] == name);
                }
            }
            if listed_names(init).contains(name) {
                let i = choose|i: int|
                    0 <= i < listed_names(init).len() && listed_names(init)[i] == name;
                assert(names[i] == name);
            }
            if name == last.name {
                assert(names[n] == name);
            }
        }
        assert(!routes.dom().contains(names[n]));
        assert forall|i: int| 0 <= i < tools.len() implies routed_with(routes, tools)[(
        #[trigger] tools[i]).name] == tools[i] by {
            if i < n {
                assert(init[i] == tools[i]);
                assert(names[i] != names[n]);
            }
        }
    } else {
        assert forall|name: Seq<char>| !(#[trigger] names.contains(name)) by {}
    }
}

/// A tool is listed exactly where it is found under its name, with the same definition, and no name
/// is listed twice.
pub proof fn listed_tools_are_those_found(
    list: Seq<ListedModel>,
    routes: Map<Seq<char>, ListedModel>,
    tool: ListedModel,
)
    requires
        lists_routes(list, routes),
    ensures
        list.contains(tool) <==> routes.contains_key(tool.name) && routes[tool.name] == tool,
        names::ascending(listed_names(list)),
        forall|i: int, j: int| 0 <= i < j < list.len() ==> list[i].name != list[j].name,
{
    let all = listed_names(list);
    if list.contains(tool) {
        let i = choose|i: int| 0 <= i < list.len() && list[i] == tool;
        assert(all[i] == tool.name);
        assert(all.contains(tool.name));
    }
    if routes.contains_key(tool.name) && routes[tool.name] == tool {
        assert(all.contains(tool.name));
        let i = choose|i: int| 0 <= i < all.len() && all[i] == tool.name;
        assert(list[i] == tool);
    }
    assert forall|i: int, j: int| 0 <= i < j < list.len() implies list[i].name != list[j].name by {
        assert(names::precedes(all[i], all[j]));
        names::lemma_precedes_irreflexive(all[i]);
    }
}

/// Where not every name is free, tools are routed up to the first whose name is taken: by what was
/// routed before, or by one of those just added.
pub proof fn installing_stops_at_the_first_collision(routed: Set<Seq<char>>, names: Seq<Seq<char>>)
    ensures
        ({
            let n = installable(routed, names);
            &&& 0 <= n <= names.len()
            &&& all_free(routed, names.take(n))
            &&& n < names.len() ==> routed.contains(names[n]) || names.take(n).contains(names[n])
        }),
    decreases names.len(),
{
    let n = installable(routed, names);
    installs_where_names_are_free(routed, names);
    if names.len() > 0 {
        installs_where_names_are_free(routed.insert(names[0]), names.drop_first());
    }
    if n > 0 {
        let rest = names.drop_first();
        let more = routed.insert(names[0]);
        installing_stops_at_the_first_collision(more, rest);
        let taken = names.take(n);
        let later = rest.take(n - 1);
        assert forall|i: int| 0 <= i < taken.len() implies !routed.contains(#[trigger] taken[i]) by {
            if i > 0 {
                assert(taken[i] == later[i - 1]);
            }
        }
        assert forall|i: int, j: int| 0 <= i < j < taken.len() implies taken[i] != taken[j] by {
            assert(taken[j] == later[j - 1]);
            assert(!more.contains(later[j - 1]));
            if i > 0 {
                assert(taken[i] == later[i - 1]);
            }
        }
        if n < names.len() {
            assert(names[n] == rest[n - 1]);
            if later.contains(names[n]) {
                let k = choose|k: int| 0 <= k < later.len() && later[k] == names[n];
                assert(taken[k + 1] == names[n]);
            } else if names[n] == names[0] {
                assert(taken[0] == names[n]);
            }
        }
    }
}

/// Of several tools with one name the last counts, and a name that none of them has stays as it was.
pub proof fn later_tool_counts(
    routes: Map<Seq<char>, ListedModel>,
    tools: Seq<ListedModel>,
    name: Seq<char>,
)
    ensures
        (forall|i: int| 0 <= i < tools.len() ==> (#[trigger] tools[i]).name != name) ==> {
            &&& routed_with(routes, tools).contains_key(name) <==> routes.contains_key(name)
            &&& routes.contains_key(name) ==> routed_with(routes, tools)[name] == routes[name]
        },
        forall|i: int|
            0 <= i < tools.len() && (#[trigger] tools[i]).name == name && (forall|k: int|
                i < k < tools.len() ==> (#[trigger] tools[k]).name != name) ==> routed_with(
                routes,
                tools,
            ).contains_key(name) && routed_with(routes, tools)[name] == tools[i],
    decreases tools.len(),
{
    if tools.len() > 0 {
        let init = tools.drop_last();
        later_tool_counts(routes, init, name);
        assert(tools[tools.len() - 1] == tools.last());
        if forall|i: int| 0 <= i < tools.len() ==> (#[trigger] tools[i]).name != name {
            assert forall|i: int| 0 <= i < init.len() implies (#[trigger] init[i]).name != name by {
                assert(init[i] == tools[i]);
            }
        }
        assert forall|i: int|
            0 <= i < tools.len() && (#[trigger] tools[i]).name == name && (forall|k: int|
                i < k < tools.len() ==> (#[trigger] tools[k]).name != name) implies routed_with(
            routes,
            tools,
        ).contains_key(name) && routed_with(routes, tools)[name] == tools[i] by {
            if i < init.len() {
                assert(init[i] == tools[i]);
                assert forall|k: int| i < k < init.len() implies (#[trigger] init[k]).name != name by {
                    assert(init[k] == tools[k]);
                }
            }
        }
    }
}

/// A listed tool is spoken of by all that it holds, and lists of tools tool by tool.
pub proof fn tools_are_seen_as_they_are(
    tool: ListedTool,
    tools: Seq<ListedTool>,
    refs: Seq<&ListedTool>,
    i: int,
)
    ensures
        tool@.name == tool.name@,
        tool@.description == text::text_opt(tool.description),
        tool@.definition == tool.definition@,
        listed_models(tools).len() == tools.len(),
        0 <= i < tools.len() ==> listed_models(tools)[i] == tools[i]@,
        listed_refs(refs).len() == refs.len(),
        0 <= i < refs.len() ==> listed_refs(refs)[i] == refs[i]@,
{
}

} // verus!
