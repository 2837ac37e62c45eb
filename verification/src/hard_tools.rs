use vstd::prelude::*;

use crate::json;
use crate::json::{JsonKind, Member};
use crate::manifest::hard_tools::HardToolCfg;
use crate::numeral;
use crate::routes;
use crate::routes::{ListedModel, ListedTool, ToolRoutes};
use crate::text;

verus! {

/// The protocol revision spoken to the services.
pub const PROTOCOL_VERSION: &'static str = "2026-07-28";

/// The most bytes that a response may have.
pub const MAX_RESPONSE_BYTES: usize = 2097152;

/// `StatusCode`'s `Display`: the code and its reason phrase, for one code.
pub uninterp spec fn status_text(code: u16) -> Seq<char>;

/// `reqwest::StatusCode::from_u16` and the `Display` of its result: the text is a function of the
/// code and begins with the code and a space. Which phrase goes with which code is left to the
/// crate and not stated. The codes from 100 to 999 are those that `from_u16` accepts.
#[verifier::external_body]
fn status_line(code: u16) -> (r: String)
    requires
        100 <= code <= 999,
    ensures
        r@ == status_text(code),
        (numeral::decimal(code as nat) + " "@).is_prefix_of(r@),
{
    reqwest::StatusCode::from_u16(code).unwrap().to_string()
}

/// The status of an HTTP response, from 100 to 999.
#[derive(Debug)]
pub struct HttpStatus {
    code: u16,
}

impl HttpStatus {
    #[verifier::type_invariant]
    spec fn in_range(self) -> bool {
        100 <= self.code <= 999
    }

    pub closed spec fn view(self) -> u16 {
        self.code
    }

    /// The status with a code, if there can be one.
    pub fn from_u16(code: u16) -> (r: Option<HttpStatus>)
        ensures
            match r {
                Some(status) => status@ == code && 100 <= code <= 999,
                None => !(100 <= code <= 999),
            },
    {
        if 100 <= code && code <= 999 {
            Some(HttpStatus { code })
        } else {
            None
        }
    }

    /// The code.
    pub fn as_u16(&self) -> (r: u16)
        ensures
            r == self@,
    {
        self.code
    }

    /// Whether the code is one of 200 to 299.
    pub fn is_success(&self) -> (r: bool)
        ensures
            r == (200 <= self@ <= 299),
    {
        200 <= self.code && self.code <= 299
    }

    /// The code with its reason phrase.
    pub fn line(&self) -> (r: String)
        ensures
            r@ == status_text(self@),
            (numeral::decimal(self@ as nat) + " "@).is_prefix_of(r@),
    {
        proof {
            use_type_invariant(self);
        }
        status_line(self.code)
    }
}

/// What goes wrong between the broker and a service.
#[derive(Debug)]
pub enum HardToolsError {
    EmptyToken { name: String },
    MissingToken { name: String, variable: String },
    ToolNameCollision { name: String },
    ResponseTooLarge,
    ResponseIdMismatch { request_id: u64 },
    /// The service answered with an error, in JSON.
    Rpc { status: HttpStatus, error: String },
    Http { status: HttpStatus },
    Undecodable { source: serde_json::Error },
    /// What a service lists is no list of tools.
    BadDefinitions { source: serde_json::Error },
    /// What a service answers to a call is no result of a tool.
    BadResult { source: serde_json::Error },
    MissingResult,
    MissingTools,
}

/// An error, in its texts.
pub enum HardToolsFault {
    EmptyToken(Seq<char>),
    MissingToken(Seq<char>, Seq<char>),
    ToolNameCollision(Seq<char>),
    ResponseTooLarge,
    ResponseIdMismatch(u64),
    Rpc(u16, Seq<char>),
    Http(u16),
    Undecodable,
    BadDefinitions,
    BadResult,
    MissingResult,
    MissingTools,
}

impl View for HardToolsError {
    type V = HardToolsFault;

    open spec fn view(&self) -> HardToolsFault {
        match *self {
            HardToolsError::EmptyToken { name } => HardToolsFault::EmptyToken(name@),
            HardToolsError::MissingToken { name, variable } => HardToolsFault::MissingToken(
                name@,
                variable@,
            ),
            HardToolsError::ToolNameCollision { name } => HardToolsFault::ToolNameCollision(name@),
            HardToolsError::ResponseTooLarge => HardToolsFault::ResponseTooLarge,
            HardToolsError::ResponseIdMismatch {
                request_id,
            } => HardToolsFault::ResponseIdMismatch(request_id),
            HardToolsError::Rpc { status, error } => HardToolsFault::Rpc(status@, error@),
            HardToolsError::Http { status } => HardToolsFault::Http(status@),
            HardToolsError::Undecodable { .. } => HardToolsFault::Undecodable,
            HardToolsError::BadDefinitions { .. } => HardToolsFault::BadDefinitions,
            HardToolsError::BadResult { .. } => HardToolsFault::BadResult,
            HardToolsError::MissingResult => HardToolsFault::MissingResult,
            HardToolsError::MissingTools => HardToolsFault::MissingTools,
        }
    }
}

/// What an error says.
pub open spec fn fault_message(fault: HardToolsFault) -> Seq<char> {
    match fault {
        HardToolsFault::EmptyToken(name) => "nm-hard-tools service "@ + text::debug_text(name)
            + " has an empty bearer token"@,
        HardToolsFault::MissingToken(name, variable) => "nm-hard-tools service "@
            + text::debug_text(name) + " requires environment variable "@ + text::debug_text(
            variable,
        ),
        HardToolsFault::ToolNameCollision(name) => "nm-hard-tools tool name collision: "@ + name,
        HardToolsFault::ResponseTooLarge => "MCP response exceeds the 2097152-byte limit"@,
        HardToolsFault::ResponseIdMismatch(id) => "MCP JSON-RPC response id did not match request "@
            + numeral::decimal(id as nat),
        HardToolsFault::Rpc(status, error) => "upstream returned HTTP "@ + status_text(status)
            + ": "@ + error,
        HardToolsFault::Http(status) => "upstream returned HTTP "@ + status_text(status),
        HardToolsFault::Undecodable => "decoding MCP JSON-RPC response"@,
        HardToolsFault::BadDefinitions => "decoding nm-hard-tools tool definitions"@,
        HardToolsFault::BadResult => "decoding nm-hard-tools tool result"@,
        HardToolsFault::MissingResult => "MCP JSON-RPC response omitted result"@,
        HardToolsFault::MissingTools => "tools/list result omitted tools"@,
    }
}

impl HardToolsError {
    /// The error in words.
    pub fn message(&self) -> (r: String)
        ensures
            r@ == fault_message(self@),
    {
        match self {
            HardToolsError::EmptyToken { name } => text::concat3(
                "nm-hard-tools service ",
                text::debug_of(name.as_str()).as_str(),
                " has an empty bearer token",
            ),
            HardToolsError::MissingToken { name, variable } => {
                let head = text::concat3(
                    "nm-hard-tools service ",
                    text::debug_of(name.as_str()).as_str(),
                    " requires environment variable ",
                );
                text::concat2(head.as_str(), text::debug_of(variable.as_str()).as_str())
            },
            HardToolsError::ToolNameCollision { name } => text::concat2(
                "nm-hard-tools tool name collision: ",
                name.as_str(),
            ),
            HardToolsError::ResponseTooLarge =>
                "MCP response exceeds the 2097152-byte limit".to_owned(),
            HardToolsError::ResponseIdMismatch { request_id } => text::concat2(
                "MCP JSON-RPC response id did not match request ",
                numeral::decimal_text(*request_id).as_str(),
            ),
            HardToolsError::Rpc { status, error } => {
                let head = text::concat3("upstream returned HTTP ", status.line().as_str(), ": ");
                text::concat2(head.as_str(), error.as_str())
            },
            HardToolsError::Http { status } => text::concat2(
                "upstream returned HTTP ",
                status.line().as_str(),
            ),
            HardToolsError::Undecodable { .. } => "decoding MCP JSON-RPC response".to_owned(),
            HardToolsError::BadDefinitions { .. } =>
                "decoding nm-hard-tools tool definitions".to_owned(),
            HardToolsError::BadResult { .. } => "decoding nm-hard-tools tool result".to_owned(),
            HardToolsError::MissingResult => "MCP JSON-RPC response omitted result".to_owned(),
            HardToolsError::MissingTools => "tools/list result omitted tools".to_owned(),
        }
    }
}

/// The bearer token of a service: none where no variable is named, else the variable's value
/// without the white space around it, which must exist and hold something.
pub open spec fn bearer_token(
    service: Seq<char>,
    variable: Option<Seq<char>>,
    value: Option<Seq<char>>,
) -> Result<Option<Seq<char>>, HardToolsFault> {
    match (variable, value) {
        (None, _) => Ok(None),
        (Some(variable), None) => Err(HardToolsFault::MissingToken(service, variable)),
        (Some(_), Some(value)) => if text::trimmed(value).len() == 0 {
            Err(HardToolsFault::EmptyToken(service))
        } else {
            Ok(Some(text::trimmed(value)))
        },
    }
}

/// Resolves the bearer token of a service from the variable that it names and the variable's
/// value.
pub fn resolve_bearer_token(
    service: &str,
    variable: &Option<String>,
    value: &Option<String>,
) -> (r: Result<Option<String>, HardToolsError>)
    ensures
        match r {
            Ok(token) => bearer_token(service@, text::text_opt(*variable), text::text_opt(*value))
                == Ok::<Option<Seq<char>>, HardToolsFault>(text::text_opt(token)),
            Err(e) => bearer_token(service@, text::text_opt(*variable), text::text_opt(*value))
                == Err::<Option<Seq<char>>, HardToolsFault>(e@),
        },
{
    match variable {
        None => Ok(None),
        Some(variable) => match value {
            None => Err(
                HardToolsError::MissingToken {
                    name: service.to_owned(),
                    variable: variable.clone(),
                },
            ),
            Some(value) => {
                let token = text::trim(value.as_str());
                if token.as_str().unicode_len() == 0 {
                    Err(HardToolsError::EmptyToken { name: service.to_owned() })
                } else {
                    Ok(Some(token))
                }
            },
        },
    }
}

/// A service as the broker calls it.
#[derive(Debug)]
pub struct Service {
    pub name: String,
    pub url: String,
    pub bearer_token: Option<String>,
}

/// A tool as the broker exposes it.
#[derive(Debug)]
pub struct ProxiedTool {
    /// Which service it belongs to, by position.
    pub service: usize,
    pub upstream_name: String,
    pub exposed_name: String,
    pub description: String,
    pub definition: String,
}

/// An exposed tool, in its texts.
pub struct ProxiedModel {
    pub service: int,
    pub upstream_name: Seq<char>,
    pub exposed_name: Seq<char>,
    pub description: Seq<char>,
    pub definition: Seq<char>,
}

impl View for ProxiedTool {
    type V = ProxiedModel;

    open spec fn view(&self) -> ProxiedModel {
        ProxiedModel {
            service: self.service as int,
            upstream_name: self.upstream_name@,
            exposed_name: self.exposed_name@,
            description: self.description@,
            definition: self.definition@,
        }
    }
}

pub open spec fn proxied_models(tools: Seq<ProxiedTool>) -> Seq<ProxiedModel> {
    Seq::new(tools.len(), |i: int| tools[i]@)
}

/// The name a service's tool is exposed under.
pub open spec fn exposed_name(service: Seq<char>, tool: Seq<char>) -> Seq<char> {
    "hard_"@ + service + "_"@ + tool
}

/// The description a service's tool is exposed with.
pub open spec fn exposed_description(service: Seq<char>, description: Option<Seq<char>>) -> Seq<
    char,
> {
    "nm-hard-tools service `"@ + service + "`: "@ + (match description {
        Some(text) => text,
        None => Seq::empty(),
    })
}

/// How a discovered tool is exposed: under a prefixed name and description, with the rest of its
/// definition as it came.
pub open spec fn proxied(service: int, name: Seq<char>, tool: ListedModel) -> ProxiedModel {
    ProxiedModel {
        service,
        upstream_name: tool.name,
        exposed_name: exposed_name(name, tool.name),
        description: exposed_description(name, tool.description),
        definition: tool.definition,
    }
}

/// How the tools of a service are exposed, in their order.
pub open spec fn all_proxied(service: int, name: Seq<char>, tools: Seq<ListedModel>) -> Seq<
    ProxiedModel,
> {
    Seq::new(tools.len(), |i: int| proxied(service, name, tools[i]))
}

/// How the broker lists an exposed tool.
pub open spec fn exposed(tool: ProxiedModel) -> ListedModel {
    ListedModel {
        name: tool.exposed_name,
        description: Some(tool.description),
        definition: tool.definition,
    }
}

/// How the broker lists exposed tools, in their order.
pub open spec fn all_exposed(tools: Seq<ProxiedModel>) -> Seq<ListedModel> {
    Seq::new(tools.len(), |i: int| exposed(tools[i]))
}

/// The names that the tools are exposed under.
pub open spec fn exposed_names(tools: Seq<ProxiedModel>) -> Seq<Seq<char>> {
    routes::listed_names(all_exposed(tools))
}

/// The tools of all configured services.
#[derive(Debug)]
pub struct HardTools {
    services: Vec<Service>,
    tools: Vec<ProxiedTool>,
}

/// The services that are called, and their tools as they are exposed.
pub struct HardToolsModel {
    pub services: Seq<Service>,
    pub tools: Seq<ProxiedModel>,
}

impl HardTools {
    /// Every tool belongs to a service.
    #[verifier::type_invariant]
    spec fn owned(self) -> bool {
        forall|i: int|
            0 <= i < self.tools@.len() ==> (#[trigger] self.tools@[i]).service
                < self.services@.len()
    }

    pub closed spec fn view(self) -> HardToolsModel {
        HardToolsModel { services: self.services@, tools: proxied_models(self.tools@) }
    }

    /// No services, no tools.
    pub fn empty() -> (r: HardTools)
        ensures
            r@.services == Seq::<Service>::empty(),
            r@.tools == Seq::<ProxiedModel>::empty(),
    {
        let r = HardTools { services: Vec::new(), tools: Vec::new() };
        assert(r@.tools =~= Seq::<ProxiedModel>::empty());
        r
    }

    /// The services, in the order in which they were added.
    pub fn services(&self) -> (r: &Vec<Service>)
        ensures
            r@ == self@.services,
    {
        &self.services
    }

    /// The exposed tools, in the order in which they were added, each with its service among
    /// `services`.
    pub fn tools(&self) -> (r: &Vec<ProxiedTool>)
        ensures
            proxied_models(r@) == self@.tools,
            forall|i: int|
                0 <= i < r@.len() ==> (#[trigger] r@[i]).service < self@.services.len(),
    {
        proof {
            use_type_invariant(self);
        }
        &self.tools
    }

    /// Adds a service with the tools that it listed, in their order.
    pub fn add_service(&mut self, service: Service, discovered: Vec<ListedTool>)
        ensures
            final(self)@.services == old(self)@.services.push(service),
            final(self)@.tools == old(self)@.tools + all_proxied(
                old(self)@.services.len() as int,
                service.name@,
                routes::listed_models(discovered@),
            ),
    {
        proof {
            use_type_invariant(&*self);
        }
        let index: usize = self.services.len();
        let ghost before = proxied_models(self.tools@);
        let ghost added = all_proxied(
            index as int,
            service.name@,
            routes::listed_models(discovered@),
        );
        let mut tools: Vec<ProxiedTool> = Vec::new();
        std::mem::swap(&mut tools, &mut self.tools);
        let mut i: usize = 0;
        assert(before + added.take(0) =~= before);
        while i < discovered.len()
            invariant
                i <= discovered@.len(),
                added == all_proxied(
                    index as int,
                    service.name@,
                    routes::listed_models(discovered@),
                ),
                proxied_models(tools@) == before + added.take(i as int),
                forall|j: int|
                    0 <= j < tools@.len() ==> (#[trigger] tools@[j]).service <= index,
            decreases discovered@.len() - i,
        {
            let tool = &discovered[i];
            let prefix = text::concat3("hard_", service.name.as_str(), "_");
            let opening = text::concat3("nm-hard-tools service `", service.name.as_str(), "`: ");
            let description = match &tool.description {
                Some(text) => text::concat2(opening.as_str(), text.as_str()),
                None => {
                    assert(opening@ + Seq::<char>::empty() =~= opening@);
                    opening
                },
            };
            let ghost models = proxied_models(tools@);
            let proxy = ProxiedTool {
                service: index,
                upstream_name: tool.name.clone(),
                exposed_name: text::concat2(prefix.as_str(), tool.name.as_str()),
                description,
                definition: tool.definition.clone(),
            };
            assert(proxy@ == added[i as int]);
            tools.push(proxy);
            i = i + 1;
            assert(proxied_models(tools@) =~= models.push(added[i - 1]));
            assert(before + added.take(i as int) =~= (before + added.take(i - 1)).push(
                added[i - 1],
            ));
        }
        assert(added.take(i as int) =~= added);
        let mut services: Vec<Service> = Vec::new();
        std::mem::swap(&mut services, &mut self.services);
        services.push(service);
        self.services = services;
        self.tools = tools;
    }

    /// Routes the exposed tools in order. The first name that is routed already stops it; the
    /// tools before that one stay routed.
    pub fn install(&self, routes: &mut ToolRoutes) -> (r: Result<(), HardToolsError>)
        ensures
            ({
                let names = exposed_names(self@.tools);
                let n = routes::installable(old(routes)@.dom(), names);
                &&& 0 <= n <= names.len()
                &&& final(routes)@ == routes::routed_with(
                    old(routes)@,
                    all_exposed(self@.tools).take(n),
                )
                &&& match r {
                    Ok(()) => n == names.len(),
                    Err(e) => n < names.len() && e@ == HardToolsFault::ToolNameCollision(names[n]),
                }
            }),
    {
        let ghost models = all_exposed(self@.tools);
        let ghost names = exposed_names(self@.tools);
        let ghost start = routes@;
        let mut i: usize = 0;
        assert(names.skip(0) =~= names);
        assert(models.take(0) =~= Seq::empty());
        while i < self.tools.len()
            invariant
                i <= self.tools@.len(),
                self@.tools == proxied_models(self.tools@),
                models == all_exposed(self@.tools),
                names == exposed_names(self@.tools),
                start == old(routes)@,
                routes@ == routes::routed_with(start, models.take(i as int)),
                routes::installable(start.dom(), names) == i + routes::installable(
                    routes@.dom(),
                    names.skip(i as int),
                ),
            decreases self.tools@.len() - i,
        {
            let tool = &self.tools[i];
            let ghost routed = routes@;
            assert(models[i as int] == exposed(tool@));
            assert(names.skip(i as int)[0] == tool.exposed_name@);
            if routes.has_route(tool.exposed_name.as_str()) {
                return Err(HardToolsError::ToolNameCollision { name: tool.exposed_name.clone() });
            }
            let listed = ListedTool {
                name: tool.exposed_name.clone(),
                description: Some(tool.description.clone()),
                definition: tool.definition.clone(),
            };
            assert(listed@ == models[i as int]);
            routes.add_route(listed);
            assert(routes@.dom() =~= routed.dom().insert(names[i as int]));
            assert(names.skip(i as int).drop_first() =~= names.skip(i + 1));
            assert(models.take(i + 1).drop_last() =~= models.take(i as int));
            i = i + 1;
        }
        assert(models.take(i as int) =~= models);
        assert(routes::installable(routes@.dom(), names.skip(i as int)) == 0);
        Ok(())
    }
}

/// The discovery of the configured services' tools, one service after the other.
#[derive(Debug)]
pub struct Discovery {
    configs: Vec<HardToolCfg>,
    found: HardTools,
}

/// The configured services, and what has been found of them.
pub struct DiscoveryModel {
    pub configs: Seq<HardToolCfg>,
    pub found: HardToolsModel,
}

impl DiscoveryModel {
    /// Which service is next.
    pub open spec fn at(self) -> int {
        self.found.services.len() as int
    }

    /// Whether a service is the one that is asked next.
    pub open spec fn asks(self, service: Service) -> bool {
        &&& self.at() < self.configs.len()
        &&& service.name@ == self.configs[self.at()].name@
        &&& service.url@ == self.configs[self.at()].url@
    }

    /// What is known once a service has listed its tools.
    pub open spec fn knows_more(
        self,
        after: DiscoveryModel,
        service: Service,
        tools: Seq<ListedModel>,
    ) -> bool {
        &&& after.configs == self.configs
        &&& after.found.services == self.found.services.push(service)
        &&& after.found.tools == self.found.tools + all_proxied(self.at(), service.name@, tools)
    }
}

impl Discovery {
    /// The services that were asked are the first of the configured ones, in order.
    #[verifier::type_invariant]
    spec fn in_order(self) -> bool {
        &&& self.found@.services.len() <= self.configs@.len()
        &&& forall|i: int|
            0 <= i < self.found@.services.len() ==> {
                &&& (#[trigger] self.found@.services[i]).name@ == self.configs@[i].name@
                &&& self.found@.services[i].url@ == self.configs@[i].url@
            }
    }

    pub closed spec fn view(self) -> DiscoveryModel {
        DiscoveryModel { configs: self.configs@, found: self.found@ }
    }

    /// Nothing has been asked yet.
    pub fn start(configs: Vec<HardToolCfg>) -> (r: Discovery)
        ensures
            r@.configs == configs@,
            r@.at() == 0,
            r@.found.tools == Seq::<ProxiedModel>::empty(),
    {
        Discovery { configs, found: HardTools::empty() }
    }

    /// The service to ask next; `None` when all have answered.
    pub fn pending(&self) -> (r: Option<&HardToolCfg>)
        ensures
            match r {
                Some(config) => self@.at() < self@.configs.len() && *config
                    == self@.configs[self@.at()],
                None => self@.at() == self@.configs.len(),
            },
    {
        proof {
            use_type_invariant(self);
        }
        let i: usize = self.found.services().len();
        if i < self.configs.len() {
            Some(&self.configs[i])
        } else {
            None
        }
    }

    /// The next service as it is called, given the value of the variable that holds its token.
    /// Without the token that it needs, nothing is asked of it.
    pub fn next_service(&self, value: &Option<String>) -> (r: Result<Option<Service>, HardToolsError>)
        ensures
            if self@.at() == self@.configs.len() {
                r matches Ok(None)
            } else {
                let config = self@.configs[self@.at()];
                let token = bearer_token(
                    config.name@,
                    text::text_opt(config.bearer_token_env),
                    text::text_opt(*value),
                );
                match r {
                    Ok(Some(service)) => self@.asks(service) && token == Ok::<
                        Option<Seq<char>>,
                        HardToolsFault,
                    >(text::text_opt(service.bearer_token)),
                    Ok(None) => false,
                    Err(e) => token == Err::<Option<Seq<char>>, HardToolsFault>(e@),
                }
            },
    {
        match self.pending() {
            None => Ok(None),
            Some(config) => match resolve_bearer_token(
                config.name.as_str(),
                &config.bearer_token_env,
                value,
            ) {
                Ok(bearer_token) => Ok(
                    Some(
                        Service {
                            name: config.name.clone(),
                            url: config.url.clone(),
                            bearer_token,
                        },
                    ),
                ),
                Err(error) => Err(error),
            },
        }
    }

    /// Takes over what the next service listed.
    pub fn listed(&mut self, service: Service, tools: Vec<ListedTool>)
        requires
            old(self)@.asks(service),
        ensures
            old(self)@.knows_more(final(self)@, service, routes::listed_models(tools@)),
    {
        proof {
            use_type_invariant(&*self);
        }
        let mut found = HardTools::empty();
        std::mem::swap(&mut found, &mut self.found);
        found.add_service(service, tools);
        self.found = found;
    }

    /// Takes over what the next service answered to `tools/list`. An answer that lists no tools is
    /// refused, and leaves what is known as it was.
    pub fn answered(&mut self, service: Service, result: &str) -> (r: Result<(), HardToolsError>)
        requires
            old(self)@.asks(service),
        ensures
            match listing(result@) {
                Ok(tools) => r is Ok && old(self)@.knows_more(final(self)@, service, tools),
                Err(fault) => (r matches Err(e) && e@ == fault) && final(self)@ == old(self)@,
            },
    {
        match discovered_tools(result) {
            Ok(tools) => {
                self.listed(service, tools);
                Ok(())
            },
            Err(error) => Err(error),
        }
    }

    /// What has been found.
    pub fn finish(self) -> (r: HardTools)
        ensures
            r@ == self@.found,
    {
        self.found
    }
}

/// Two tools of one service are never exposed under one name.
pub proof fn exposed_names_of_a_service_differ(service: Seq<char>, a: Seq<char>, b: Seq<char>)
    requires
        a != b,
    ensures
        exposed_name(service, a) != exposed_name(service, b),
{
    let prefix = "hard_"@ + service + "_"@;
    if exposed_name(service, a) == exposed_name(service, b) {
        assert(exposed_name(service, a).skip(prefix.len() as int) == a);
        assert(exposed_name(service, b).skip(prefix.len() as int) == b);
    }
}

/// The id of the request after `n` others: from 1 up. The counter is 64 bits wide and starts over
/// behind its last number.
pub open spec fn nth_id(n: nat) -> u64 {
    ((1 + n) % 0x1_0000_0000_0000_0000) as u64
}

/// The ids of a service's requests.
pub struct RequestIds {
    next: u64,
    issued: Ghost<nat>,
}

impl RequestIds {
    #[verifier::type_invariant]
    spec fn counted(self) -> bool {
        self.next == nth_id(self.issued@)
    }

    /// How many ids have been taken.
    pub closed spec fn view(self) -> nat {
        self.issued@
    }

    /// No id has been taken.
    pub fn new() -> (r: RequestIds)
        ensures
            r@ == 0,
    {
        RequestIds { next: 1, issued: Ghost(0) }
    }

    /// Takes the next id. It is taken whether or not the request that carries it succeeds.
    pub fn take(&mut self) -> (r: u64)
        ensures
            r == nth_id(old(self)@),
            final(self)@ == old(self)@ + 1,
    {
        proof {
            use_type_invariant(&*self);
        }
        let id: u64 = self.next;
        let ghost n = self.issued@;
        let following: u64 = if id == u64::MAX {
            0
        } else {
            id + 1
        };
        assert(nth_id(n + 1) == following);
        *self = RequestIds { next: following, issued: Ghost(n + 1) };
        id
    }
}

/// The first request has the id 1, each has the id after that of the one before, and no id comes a
/// second time before the counter has gone round.
pub proof fn request_ids_count_up_and_differ(i: nat, j: nat)
    requires
        i < j,
        j - i < 0x1_0000_0000_0000_0000,
    ensures
        nth_id(0) == 1,
        nth_id(i) != nth_id(j),
        j < u64::MAX ==> nth_id(j) == 1 + j,
{
}

/// What is asked of a service.
pub enum RpcCall {
    ListTools,
    /// With the arguments as a JSON object.
    CallTool { name: String, arguments: String },
}

/// A call, in its texts.
pub enum CallModel {
    ListTools,
    CallTool(Seq<char>, Seq<char>),
}

impl View for RpcCall {
    type V = CallModel;

    open spec fn view(&self) -> CallModel {
        match *self {
            RpcCall::ListTools => CallModel::ListTools,
            RpcCall::CallTool { name, arguments } => CallModel::CallTool(name@, arguments@),
        }
    }
}

/// A request that is ready to be sent.
#[derive(Debug)]
pub struct RequestPlan {
    pub url: String,
    pub headers: Vec<(String, String)>,
    pub bearer_token: Option<String>,
    /// JSON.
    pub body: String,
}

pub open spec fn method_of(call: CallModel) -> Seq<char> {
    match call {
        CallModel::ListTools => "tools/list"@,
        CallModel::CallTool(_, _) => "tools/call"@,
    }
}

/// The headers of a request. The tool's name is among them where there is one.
pub open spec fn request_headers(call: CallModel) -> Seq<(Seq<char>, Seq<char>)> {
    let common = seq![
        ("accept"@, "application/json, text/event-stream"@),
        ("content-type"@, "application/json"@),
        ("mcp-protocol-version"@, PROTOCOL_VERSION@),
        ("mcp-method"@, method_of(call)),
    ];
    match call {
        CallModel::ListTools => common,
        CallModel::CallTool(name, _) => common.push(("mcp-name"@, name)),
    }
}

/// The protocol revision and the client, as every request carries them.
pub open spec fn request_meta(client_version: Seq<char>) -> Seq<char> {
    "\"_meta\":{\"io.modelcontextprotocol/protocolVersion\":"@ + json::json_string(
        PROTOCOL_VERSION@,
    )
        + ",\"io.modelcontextprotocol/clientInfo\":{\"name\":\"crucible-broker\",\"version\":"@
        + json::json_string(client_version)
        + "},\"io.modelcontextprotocol/clientCapabilities\":{}}"@
}

/// The parameters of a request, without the enclosing braces.
pub open spec fn request_params(call: CallModel, client_version: Seq<char>) -> Seq<char> {
    match call {
        CallModel::ListTools => request_meta(client_version),
        CallModel::CallTool(name, arguments) => "\"name\":"@ + json::json_string(name)
            + ",\"arguments\":"@ + arguments + ","@ + request_meta(client_version),
    }
}

/// A JSON-RPC request.
pub open spec fn request_body(id: u64, call: CallModel, client_version: Seq<char>) -> Seq<char> {
    "{\"jsonrpc\":\"2.0\",\"id\":"@ + numeral::decimal(id as nat) + ",\"method\":"@
        + json::json_string(method_of(call)) + ",\"params\":{"@ + request_params(
        call,
        client_version,
    ) + "}}"@
}

impl RpcCall {
    /// The method's name.
    pub fn method(&self) -> (r: String)
        ensures
            r@ == method_of(self@),
    {
        match self {
            RpcCall::ListTools => "tools/list".to_owned(),
            RpcCall::CallTool { .. } => "tools/call".to_owned(),
        }
    }

    fn params(&self, client_version: &str) -> (r: String)
        ensures
            r@ == request_params(self@, client_version@),
    {
        let revision = text::concat3(
            "\"_meta\":{\"io.modelcontextprotocol/protocolVersion\":",
            json::string_text(PROTOCOL_VERSION).as_str(),
            ",\"io.modelcontextprotocol/clientInfo\":{\"name\":\"crucible-broker\",\"version\":",
        );
        let meta = text::concat3(
            revision.as_str(),
            json::string_text(client_version).as_str(),
            "},\"io.modelcontextprotocol/clientCapabilities\":{}}",
        );
        match self {
            RpcCall::ListTools => meta,
            RpcCall::CallTool { name, arguments } => {
                let head = text::concat3(
                    "\"name\":",
                    json::string_text(name.as_str()).as_str(),
                    ",\"arguments\":",
                );
                let call = text::concat3(head.as_str(), arguments.as_str(), ",");
                text::concat2(call.as_str(), meta.as_str())
            },
        }
    }
}

/// The request for a call: addressed to the service, with the protocol's headers and the service's
/// token, under the given id.
pub fn plan_request(service: &Service, id: u64, call: &RpcCall, client_version: &str) -> (r:
    RequestPlan)
    ensures
        r.url@ == service.url@,
        text::text_opt(r.bearer_token) == text::text_opt(service.bearer_token),
        text::pairs(r.headers@) == request_headers(call@),
        r.body@ == request_body(id, call@, client_version@),
{
    let method = call.method();
    let mut headers: Vec<(String, String)> = Vec::new();
    headers.push(("accept".to_owned(), "application/json, text/event-stream".to_owned()));
    headers.push(("content-type".to_owned(), "application/json".to_owned()));
    headers.push(("mcp-protocol-version".to_owned(), PROTOCOL_VERSION.to_owned()));
    headers.push(("mcp-method".to_owned(), method.clone()));
    match call {
        RpcCall::CallTool { name, .. } => {
            headers.push(("mcp-name".to_owned(), name.clone()));
        },
        RpcCall::ListTools => {},
    }
    assert(text::pairs(headers@) =~= request_headers(call@));
    let start = text::concat3(
        "{\"jsonrpc\":\"2.0\",\"id\":",
        numeral::decimal_text(id).as_str(),
        ",\"method\":",
    );
    let head = text::concat3(
        start.as_str(),
        json::string_text(method.as_str()).as_str(),
        ",\"params\":{",
    );
    let bearer_token = match &service.bearer_token {
        Some(token) => Some(token.clone()),
        None => None,
    };
    RequestPlan {
        url: service.url.clone(),
        headers,
        bearer_token,
        body: text::concat3(head.as_str(), call.params(client_version).as_str(), "}}"),
    }
}

/// The next request to a service: under the id that is next, which is taken with it.
pub fn next_request(
    service: &Service,
    ids: &mut RequestIds,
    call: &RpcCall,
    client_version: &str,
) -> (r: (u64, RequestPlan))
    ensures
        r.0 == nth_id(old(ids)@),
        final(ids)@ == old(ids)@ + 1,
        r.1.url@ == service.url@,
        text::text_opt(r.1.bearer_token) == text::text_opt(service.bearer_token),
        text::pairs(r.1.headers@) == request_headers(call@),
        r.1.body@ == request_body(r.0, call@, client_version@),
{
    let id: u64 = ids.take();
    (id, plan_request(service, id, call, client_version))
}

/// A response as it arrives, never longer than the limit.
#[derive(Debug)]
pub struct ResponseBuffer {
    bytes: Vec<u8>,
}

impl ResponseBuffer {
    #[verifier::type_invariant]
    spec fn bounded(self) -> bool {
        self.bytes@.len() <= MAX_RESPONSE_BYTES
    }

    pub closed spec fn view(self) -> Seq<u8> {
        self.bytes@
    }

    /// An empty buffer for a response, which may announce its length.
    pub fn start(content_length: Option<u64>) -> (r: Result<ResponseBuffer, HardToolsError>)
        ensures
            match r {
                Ok(buffer) => buffer@ == Seq::<u8>::empty() && (content_length matches Some(n)
                    ==> n <= MAX_RESPONSE_BYTES),
                Err(e) => e@ == HardToolsFault::ResponseTooLarge && (content_length matches Some(n)
                    && n > MAX_RESPONSE_BYTES),
            },
    {
        match content_length {
            Some(size) => if size > MAX_RESPONSE_BYTES as u64 {
                return Err(HardToolsError::ResponseTooLarge);
            },
            None => {},
        }
        Ok(ResponseBuffer { bytes: Vec::new() })
    }

    /// Appends a chunk, unless the response would become longer than the limit.
    pub fn push_chunk(&mut self, chunk: &[u8]) -> (r: Result<(), HardToolsError>)
        ensures
            match r {
                Ok(()) => old(self)@.len() + chunk@.len() <= MAX_RESPONSE_BYTES && final(self)@
                    == old(self)@ + chunk@,
                Err(e) => e@ == HardToolsFault::ResponseTooLarge && old(self)@.len() + chunk@.len()
                    > MAX_RESPONSE_BYTES && final(self)@ == old(self)@,
            },
    {
        proof {
            use_type_invariant(&*self);
        }
        if chunk.len() > MAX_RESPONSE_BYTES - self.bytes.len() {
            return Err(HardToolsError::ResponseTooLarge);
        }
        let mut bytes: Vec<u8> = Vec::new();
        std::mem::swap(&mut bytes, &mut self.bytes);
        let ghost before = bytes@;
        bytes.extend_from_slice(chunk);
        assert(bytes@ =~= before + chunk@);
        self.bytes = bytes;
        Ok(())
    }

    /// The bytes that have arrived.
    pub fn bytes(&self) -> (r: &Vec<u8>)
        ensures
            r@ == self@,
            r@.len() <= MAX_RESPONSE_BYTES,
    {
        proof {
            use_type_invariant(self);
        }
        &self.bytes
    }
}

/// The result in a JSON-RPC response, as JSON. The response must carry the request's id; then an
/// error in it counts before a failure of the transport, and that before a missing result.
pub open spec fn envelope_result(
    id: u64,
    status: u16,
    members: Seq<json::MemberModel>,
) -> Result<Seq<char>, HardToolsFault> {
    if !(json::lookup(members, "id"@) matches Some(m) && m.kind == json::KindModel::Number(
        Some(id),
    )) {
        Err(HardToolsFault::ResponseIdMismatch(id))
    } else {
        match json::lookup(members, "error"@) {
            Some(error) => Err(HardToolsFault::Rpc(status, error.json)),
            None => if !(200 <= status <= 299) {
                Err(HardToolsFault::Http(status))
            } else {
                match json::lookup(members, "result"@) {
                    Some(result) => Ok(result.json),
                    None => Err(HardToolsFault::MissingResult),
                }
            },
        }
    }
}

/// Takes the result out of the members of a JSON-RPC response.
pub fn read_envelope(id: u64, status: HttpStatus, members: &Vec<Member>) -> (r: Result<
    String,
    HardToolsError,
>)
    ensures
        match r {
            Ok(result) => envelope_result(id, status@, json::members_model(members@)) == Ok::<
                Seq<char>,
                HardToolsFault,
            >(result@),
            Err(e) => envelope_result(id, status@, json::members_model(members@)) == Err::<
                Seq<char>,
                HardToolsFault,
            >(e@),
        },
{
    let matched = match json::find_member(members, "id") {
        Some(member) => match &member.kind {
            JsonKind::Number { unsigned: Some(n) } => *n == id,
            _ => false,
        },
        None => false,
    };
    if !matched {
        return Err(HardToolsError::ResponseIdMismatch { request_id: id });
    }
    match json::find_member(members, "error") {
        Some(error) => return Err(HardToolsError::Rpc { status, error: error.json.clone() }),
        None => {},
    }
    if !status.is_success() {
        return Err(HardToolsError::Http { status });
    }
    match json::find_member(members, "result") {
        Some(result) => Ok(result.json.clone()),
        None => Err(HardToolsError::MissingResult),
    }
}

/// The result in a response, read from its bytes.
pub fn read_response(id: u64, status: HttpStatus, bytes: &Vec<u8>) -> (r: Result<
    String,
    HardToolsError,
>)
    ensures
        match json::json_members_of_bytes(bytes@) {
            None => r matches Err(e) && e@ == HardToolsFault::Undecodable,
            Some(members) => match r {
                Ok(result) => envelope_result(id, status@, members) == Ok::<
                    Seq<char>,
                    HardToolsFault,
                >(result@),
                Err(e) => envelope_result(id, status@, members) == Err::<
                    Seq<char>,
                    HardToolsFault,
                >(e@),
            },
        },
{
    match json::parse_bytes(bytes) {
        Ok(members) => read_envelope(id, status, &members),
        Err(source) => Err(HardToolsError::Undecodable { source }),
    }
}

/// The tool definitions among the members of a `tools/list` result.
pub fn tools_among(members: &Vec<Member>) -> (r: Result<String, HardToolsError>)
    ensures
        match json::lookup(json::members_model(members@), "tools"@) {
            Some(tools) => r matches Ok(text) && text@ == tools.json,
            None => r matches Err(e) && e@ == HardToolsFault::MissingTools,
        },
{
    match json::find_member(members, "tools") {
        Some(tools) => Ok(tools.json.clone()),
        None => Err(HardToolsError::MissingTools),
    }
}

/// The tool definitions in a `tools/list` result, as JSON.
pub fn listed_tools(result: &str) -> (r: Result<String, HardToolsError>)
    ensures
        match json::json_members(result@) {
            None => r matches Err(e) && e@ == HardToolsFault::Undecodable,
            Some(members) => match json::lookup(members, "tools"@) {
                Some(tools) => r matches Ok(text) && text@ == tools.json,
                None => r matches Err(e) && e@ == HardToolsFault::MissingTools,
            },
        },
{
    match json::parse_text(result) {
        Ok(members) => tools_among(&members),
        Err(source) => Err(HardToolsError::Undecodable { source }),
    }
}

/// The tools that a JSON array defines; `None` where the text is no array of tool definitions.
pub uninterp spec fn tool_definitions(text: Seq<char>) -> Option<Seq<ListedModel>>;

/// `serde_json::from_str` into a list of `rmcp::model::Tool`, and `serde_json::to_string` of each
/// tool: the names, the descriptions and the definitions, in the order in which they stand, are a
/// function of the text. What they are on a given text is not stated, nor that a definition holds
/// the schemas and annotations as they came.
#[verifier::external_body]
fn decode_tools(tools: &str) -> (r: Result<Vec<ListedTool>, serde_json::Error>)
    ensures
        match r {
            Ok(list) => tool_definitions(tools@) == Some(routes::listed_models(list@)),
            Err(_) => tool_definitions(tools@) is None,
        },
{
    let tools: Vec<rmcp::model::Tool> = serde_json::from_str(tools)?;
    tools.into_iter().map(|tool| Ok(ListedTool {
        name: tool.name.to_string(),
        description: tool.description.as_ref().map(|text| text.to_string()),
        definition: serde_json::to_string(&tool)?,
    })).collect()
}

/// The tools that the result of a `tools/list` call lists.
pub open spec fn listing(result: Seq<char>) -> Result<Seq<ListedModel>, HardToolsFault> {
    match json::json_members(result) {
        None => Err(HardToolsFault::Undecodable),
        Some(members) => match json::lookup(members, "tools"@) {
            None => Err(HardToolsFault::MissingTools),
            Some(tools) => match tool_definitions(tools.json) {
                None => Err(HardToolsFault::BadDefinitions),
                Some(models) => Ok(models),
            },
        },
    }
}

/// Takes the tools out of the result of a `tools/list` call. One definition that is none refuses
/// the whole list.
pub fn discovered_tools(result: &str) -> (r: Result<Vec<ListedTool>, HardToolsError>)
    ensures
        match r {
            Ok(list) => listing(result@) == Ok::<Seq<ListedModel>, HardToolsFault>(
                routes::listed_models(list@),
            ),
            Err(e) => listing(result@) == Err::<Seq<ListedModel>, HardToolsFault>(e@),
        },
{
    match listed_tools(result) {
        Err(error) => Err(error),
        Ok(tools) => match decode_tools(tools.as_str()) {
            Ok(list) => Ok(list),
            Err(source) => Err(HardToolsError::BadDefinitions { source }),
        },
    }
}

/// The result of a tool call in a JSON text, as the protocol writes it; `None` where the text holds
/// no result of a tool call.
pub uninterp spec fn call_result(text: Seq<char>) -> Option<Seq<char>>;

/// `serde_json::from_str` into an `rmcp::model::CallToolResult`, and `serde_json::to_string` of it:
/// the result, in JSON, is a function of the text. What it is on a given text is not stated.
#[verifier::external_body]
fn decode_result(text: &str) -> (r: Result<String, serde_json::Error>)
    ensures
        match r {
            Ok(result) => call_result(text@) == Some(result@),
            Err(_) => call_result(text@) is None,
        },
{
    serde_json::to_string(&serde_json::from_str::<rmcp::model::CallToolResult>(text)?)
}

/// What a service answered to a `tools/call`, as the protocol writes it. Anything else is refused.
pub fn called_result(result: &str) -> (r: Result<String, HardToolsError>)
    ensures
        match call_result(result@) {
            Some(written) => r matches Ok(text) && text@ == written,
            None => r matches Err(e) && e@ == HardToolsFault::BadResult,
        },
{
    match decode_result(result) {
        Ok(text) => Ok(text),
        Err(source) => Err(HardToolsError::BadResult { source }),
    }
}

impl ProxiedTool {
    /// The call that a call of the exposed tool is forwarded as: under the name that the service
    /// knows the tool by, with the arguments as they came, in JSON, or with none.
    pub fn forwarded(&self, arguments: Option<String>) -> (r: RpcCall)
        ensures
            r@ == CallModel::CallTool(
                self.upstream_name@,
                match arguments {
                    Some(given) => given@,
                    None => "{}"@,
                },
            ),
    {
        let arguments = match arguments {
            Some(given) => given,
            None => "{}".to_owned(),
        };
        RpcCall::CallTool { name: self.upstream_name.clone(), arguments }
    }
}

/// What the agent is told when a call of a service's tool fails.
pub open spec fn failure_of(service: Seq<char>, causes: Seq<char>) -> Seq<char> {
    "nm-hard-tools service "@ + text::debug_text(service) + " failed: "@ + causes
}

/// What a call of an exposed tool is answered: the service's result as it came, or, where the call
/// failed, an error reply with this text, and never an error of the protocol.
pub fn routed_reply<T>(service: &str, outcome: Result<T, String>) -> (r: Result<T, String>)
    ensures
        match outcome {
            Ok(result) => r == Ok::<T, String>(result),
            Err(causes) => r matches Err(text) && text@ == failure_of(service@, causes@),
        },
{
    match outcome {
        Ok(result) => Ok(result),
        Err(causes) => Err(failure_text(service, causes.as_str())),
    }
}

/// What the agent is told when a call of a service's tool fails, with the error and its causes.
pub fn failure_text(service: &str, causes: &str) -> (r: String)
    ensures
        r@ == failure_of(service@, causes@),
{
    let head = text::concat3(
        "nm-hard-tools service ",
        text::debug_of(service).as_str(),
        " failed: ",
    );
    text::concat2(head.as_str(), causes)
}

/// Only a response that carries the id of the request yields a result, and only with a status of
/// success and without an error in it.
pub proof fn result_answers_the_request(
    id: u64,
    status: u16,
    members: Seq<json::MemberModel>,
)
    requires
        envelope_result(id, status, members) is Ok,
    ensures
        json::lookup(members, "id"@) matches Some(m) && m.kind == json::KindModel::Number(Some(id)),
        json::lookup(members, "error"@) is None,
        200 <= status <= 299,
        json::lookup(members, "result"@) matches Some(m) && envelope_result(id, status, members)
            == Ok::<Seq<char>, HardToolsFault>(m.json),
{
}

/// The first value under a header's name.
pub open spec fn header(headers: Seq<(Seq<char>, Seq<char>)>, name: Seq<char>) -> Option<Seq<char>>
    decreases headers.len(),
{
    if headers.len() == 0 {
        None
    } else if headers[0].0 == name {
        Some(headers[0].1)
    } else {
        header(headers.drop_first(), name)
    }
}

/// The names of the headers are five different ones.
proof fn lemma_header_names()
    ensures
        "accept"@.len() == 6,
        "content-type"@.len() == 12,
        "mcp-protocol-version"@.len() == 20,
        "mcp-method"@.len() == 10,
        "mcp-name"@.len() == 8,
{
    reveal_strlit("accept");
    reveal_strlit("content-type");
    reveal_strlit("mcp-protocol-version");
    reveal_strlit("mcp-method");
    reveal_strlit("mcp-name");
}

proof fn lemma_headers(call: CallModel)
    ensures
        ({
            let headers = request_headers(call);
            &&& header(headers, "accept"@) == Some("application/json, text/event-stream"@)
            &&& header(headers, "content-type"@) == Some("application/json"@)
            &&& header(headers, "mcp-protocol-version"@) == Some(PROTOCOL_VERSION@)
            &&& header(headers, "mcp-method"@) == Some(method_of(call))
            &&& header(headers, "mcp-name"@) == (match call {
                CallModel::ListTools => None,
                CallModel::CallTool(name, _) => Some(name),
            })
        }),
{
    lemma_header_names();
    reveal_with_fuel(header, 6);
    let headers = request_headers(call);
    let h1 = headers.drop_first();
    let h2 = h1.drop_first();
    let h3 = h2.drop_first();
    assert(h1[0] == headers[1]);
    assert(h2[0] == headers[2]);
    assert(h3[0] == headers[3]);
    if call is CallTool {
        assert(h3.drop_first()[0] == headers[4]);
    } else {
        assert(h3.drop_first().len() == 0);
    }
}

/// The members that tell a service who is asking: the protocol revision, the client with its
/// version, and no capabilities.
pub open spec fn client_members(revision: Seq<char>, client_version: Seq<char>) -> Seq<
    (Seq<char>, Seq<char>),
> {
    seq![
        ("io.modelcontextprotocol/protocolVersion"@, json::json_string(revision)),
        (
            "io.modelcontextprotocol/clientInfo"@,
            json::object_of(
                seq![
                    ("name"@, json::json_string("crucible-broker"@)),
                    ("version"@, json::json_string(client_version)),
                ],
            ),
        ),
        ("io.modelcontextprotocol/clientCapabilities"@, json::object_of(Seq::empty())),
    ]
}

#[verifier::spinoff_prover]
#[verifier::rlimit(40)]
proof fn lemma_meta(client_version: Seq<char>)
    ensures
        request_meta(client_version) == "\"_meta\":"@ + json::object_of(
            client_members(PROTOCOL_VERSION@, client_version),
        ),
{
    let v = json::json_string(client_version);
    let p = json::json_string(PROTOCOL_VERSION@);
    let q = seq!['"'];
    let revision_key = "io.modelcontextprotocol/protocolVersion"@;
    let info_key = "io.modelcontextprotocol/clientInfo"@;
    let capabilities_key = "io.modelcontextprotocol/clientCapabilities"@;
    reveal_strlit("io.modelcontextprotocol/protocolVersion");
    reveal_strlit("io.modelcontextprotocol/clientInfo");
    reveal_strlit("io.modelcontextprotocol/clientCapabilities");
    reveal_strlit("name");
    reveal_strlit("version");
    reveal_strlit("crucible-broker");
    reveal_strlit("{");
    reveal_strlit("}");
    reveal_strlit("{}");
    reveal_strlit(",");
    reveal_strlit(":");
    json::plain_text_is_only_quoted(revision_key);
    json::plain_text_is_only_quoted(info_key);
    json::plain_text_is_only_quoted(capabilities_key);
    json::plain_text_is_only_quoted("name"@);
    json::plain_text_is_only_quoted("version"@);
    json::plain_text_is_only_quoted("crucible-broker"@);
    let name = ("name"@, json::json_string("crucible-broker"@));
    let info_members = seq![name, ("version"@, v)];
    json::lemma_object_grows(seq![name], "name"@, json::json_string("crucible-broker"@));
    json::lemma_object_grows(seq![name], "version"@, v);
    assert(seq![name].push(("version"@, v)) == info_members);
    let info = json::object_of(info_members);
    let none = json::object_of(Seq::empty());
    let first = seq![(revision_key, p)];
    let two = first.push((info_key, info));
    json::lemma_object_grows(first, revision_key, p);
    json::lemma_object_grows(first, info_key, info);
    json::lemma_object_grows(two, capabilities_key, none);
    assert(two.push((capabilities_key, none)) == client_members(PROTOCOL_VERSION@, client_version));
    reveal_strlit("\"_meta\":");
    reveal_strlit("\"_meta\":{\"io.modelcontextprotocol/protocolVersion\":");
    reveal_strlit(
        ",\"io.modelcontextprotocol/clientInfo\":{\"name\":\"crucible-broker\",\"version\":",
    );
    reveal_strlit("},\"io.modelcontextprotocol/clientCapabilities\":{}}");
    let l1 = "\"_meta\":{\"io.modelcontextprotocol/protocolVersion\":"@;
    let l2 = ",\"io.modelcontextprotocol/clientInfo\":{\"name\":\"crucible-broker\",\"version\":"@;
    let l3 = "},\"io.modelcontextprotocol/clientCapabilities\":{}}"@;
    let info_head = "{"@ + (q + "name"@ + q) + ":"@ + (q + "crucible-broker"@ + q) + ","@ + (q
        + "version"@ + q) + ":"@;
    assert(info =~= info_head + v + "}"@);
    assert(json::object_of(first).drop_last() =~= "{"@ + (q + revision_key + q) + ":"@ + p);
    assert(json::object_of(two).drop_last() =~= "{"@ + (q + revision_key + q) + ":"@ + p + ","@ + (q
        + info_key + q) + ":"@ + info);
    assert(l1 =~= "\"_meta\":"@ + "{"@ + (q + revision_key + q) + ":"@);
    assert(l2 =~= ","@ + (q + info_key + q) + ":"@ + info_head);
    assert(l3 =~= "}"@ + ","@ + (q + capabilities_key + q) + ":"@ + none + "}"@);
    let whole = json::object_of(client_members(PROTOCOL_VERSION@, client_version));
    assert("\"_meta\":"@ + whole =~= ("\"_meta\":"@ + "{"@ + (q + revision_key + q) + ":"@) + p + (","@
        + (q + info_key + q) + ":"@ + info_head) + v + ("}"@ + ","@ + (q + capabilities_key + q) + ":"@
        + none + "}"@));
}

/// The parameters of a request as members: the tool's name and its arguments where a tool is called,
/// then who is asking.
pub open spec fn param_members(
    call: CallModel,
    revision: Seq<char>,
    client_version: Seq<char>,
) -> Seq<(Seq<char>, Seq<char>)> {
    let meta = ("_meta"@, json::object_of(client_members(revision, client_version)));
    match call {
        CallModel::ListTools => seq![meta],
        CallModel::CallTool(name, arguments) => seq![
            ("name"@, json::json_string(name)),
            ("arguments"@, arguments),
            meta,
        ],
    }
}

#[verifier::spinoff_prover]
#[verifier::rlimit(40)]
proof fn lemma_params(call: CallModel, client_version: Seq<char>)
    ensures
        "{"@ + request_params(call, client_version) + "}"@ == json::object_of(
            param_members(call, PROTOCOL_VERSION@, client_version),
        ),
{
    let meta = json::object_of(client_members(PROTOCOL_VERSION@, client_version));
    let q = seq!['"'];
    lemma_meta(client_version);
    reveal_strlit("_meta");
    reveal_strlit("name");
    reveal_strlit("arguments");
    reveal_strlit("\"_meta\":");
    reveal_strlit("\"name\":");
    reveal_strlit(",\"arguments\":");
    reveal_strlit("{");
    reveal_strlit("}");
    reveal_strlit(",");
    reveal_strlit(":");
    json::plain_text_is_only_quoted("_meta"@);
    json::plain_text_is_only_quoted("name"@);
    json::plain_text_is_only_quoted("arguments"@);
    assert("\"_meta\":"@ =~= (q + "_meta"@ + q) + ":"@);
    assert("\"name\":"@ =~= (q + "name"@ + q) + ":"@);
    assert(",\"arguments\":"@ =~= ","@ + (q + "arguments"@ + q) + ":"@);
    match call {
        CallModel::ListTools => {
            json::lemma_object_grows(seq![("_meta"@, meta)], "_meta"@, meta);
            assert("{"@ + ((q + "_meta"@ + q) + ":"@ + meta) + "}"@ =~= "{"@ + (q + "_meta"@ + q)
                + ":"@ + meta + "}"@);
        },
        CallModel::CallTool(name, arguments) => {
            let n = json::json_string(name);
            let one = seq![("name"@, n)];
            let two = one.push(("arguments"@, arguments));
            json::lemma_object_grows(one, "name"@, n);
            json::lemma_object_grows(one, "arguments"@, arguments);
            json::lemma_object_grows(two, "_meta"@, meta);
            assert(two.push(("_meta"@, meta)) == param_members(
                call,
                PROTOCOL_VERSION@,
                client_version,
            ));
            let head = "{"@ + (q + "name"@ + q) + ":"@ + n;
            let middle = head + ","@ + (q + "arguments"@ + q) + ":"@ + arguments;
            assert(json::object_of(one).drop_last() =~= head);
            assert(json::object_of(two).drop_last() =~= middle);
            let params = request_params(call, client_version);
            assert("{"@ + params + "}"@ =~= middle + ","@ + (q + "_meta"@ + q) + ":"@ + meta + "}"@);
        },
    }
}

/// The body of a request is a JSON object that says what the headers say. It has four members:
/// `jsonrpc` is 2.0, `id` is the id, `method` is the text under `mcp-method`, and `params` holds the
/// text under `mcp-name` with the arguments as they came, where a tool is called, and then who is
/// asking, under the revision in `mcp-protocol-version`. The method is `tools/call` for the call of a
/// tool and `tools/list` for a listing, which names no tool.
#[verifier::spinoff_prover]
#[verifier::rlimit(40)]
pub proof fn request_says_what_its_headers_say(id: u64, call: CallModel, client_version: Seq<char>)
    ensures
        ({
            let headers = request_headers(call);
            let method = header(headers, "mcp-method"@);
            let revision = header(headers, "mcp-protocol-version"@);
            &&& method is Some && revision == Some("2026-07-28"@)
            &&& method == Some("tools/call"@) <==> call is CallTool
            &&& method == Some("tools/list"@) <==> call is ListTools
            &&& header(headers, "mcp-name"@) == (match call {
                CallModel::CallTool(name, _) => Some(name),
                CallModel::ListTools => None,
            })
            &&& header(headers, "content-type"@) == Some("application/json"@)
            &&& header(headers, "accept"@) == Some("application/json, text/event-stream"@)
            &&& request_body(id, call, client_version) == json::object_of(
                seq![
                    ("jsonrpc"@, json::json_string("2.0"@)),
                    ("id"@, numeral::decimal(id as nat)),
                    ("method"@, json::json_string(method->0)),
                    (
                        "params"@,
                        json::object_of(param_members(call, revision->0, client_version)),
                    ),
                ],
            )
        }),
{
    lemma_headers(call);
    lemma_params(call, client_version);
    let q = seq!['"'];
    reveal_strlit("tools/call");
    reveal_strlit("tools/list");
    assert("tools/call"@[6] != "tools/list"@[6]);
    reveal_strlit("jsonrpc");
    reveal_strlit("2.0");
    reveal_strlit("id");
    reveal_strlit("method");
    reveal_strlit("params");
    reveal_strlit("{");
    reveal_strlit("}");
    reveal_strlit("}}");
    reveal_strlit(",");
    reveal_strlit(":");
    reveal_strlit("{\"jsonrpc\":\"2.0\",\"id\":");
    reveal_strlit(",\"method\":");
    reveal_strlit(",\"params\":{");
    json::plain_text_is_only_quoted("jsonrpc"@);
    json::plain_text_is_only_quoted("2.0"@);
    json::plain_text_is_only_quoted("id"@);
    json::plain_text_is_only_quoted("method"@);
    json::plain_text_is_only_quoted("params"@);
    let version = json::json_string("2.0"@);
    let n = numeral::decimal(id as nat);
    let method = json::json_string(method_of(call));
    let inner = request_params(call, client_version);
    let params = json::object_of(param_members(call, PROTOCOL_VERSION@, client_version));
    let one = seq![("jsonrpc"@, version)];
    let two = one.push(("id"@, n));
    let three = two.push(("method"@, method));
    json::lemma_object_grows(one, "jsonrpc"@, version);
    json::lemma_object_grows(one, "id"@, n);
    json::lemma_object_grows(two, "method"@, method);
    json::lemma_object_grows(three, "params"@, params);
    let a = "{"@ + (q + "jsonrpc"@ + q) + ":"@ + (q + "2.0"@ + q);
    let b = a + ","@ + (q + "id"@ + q) + ":"@ + n;
    let c = b + ","@ + (q + "method"@ + q) + ":"@ + method;
    assert(json::object_of(one).drop_last() =~= a);
    assert(json::object_of(two).drop_last() =~= b);
    assert(json::object_of(three).drop_last() =~= c);
    assert("{\"jsonrpc\":\"2.0\",\"id\":"@ =~= a + ","@ + (q + "id"@ + q) + ":"@);
    assert(",\"method\":"@ =~= ","@ + (q + "method"@ + q) + ":"@);
    assert(",\"params\":{"@ =~= ","@ + (q + "params"@ + q) + ":"@ + "{"@);
    assert("}}"@ =~= "}"@ + "}"@);
    let members = seq![
        ("jsonrpc"@, version),
        ("id"@, n),
        ("method"@, method),
        ("params"@, params),
    ];
    assert(three.push(("params"@, params)) == members);
    assert(c + (","@ + (q + "params"@ + q) + ":"@ + "{"@) + inner + ("}"@ + "}"@) =~= c + ","@ + (q
        + "params"@ + q) + ":"@ + ("{"@ + inner + "}"@) + "}"@);
    assert(request_body(id, call, client_version) =~= json::object_of(members));
}

/// A service that names no variable is called without a token. Otherwise the token is the
/// variable's value without the white space around it; a variable that is not set, or that holds
/// nothing else, is an error that names the service.
pub proof fn token_is_the_value_without_white_space(
    service: Seq<char>,
    variable: Seq<char>,
    value: Option<Seq<char>>,
    before: Seq<char>,
    token: Seq<char>,
    after: Seq<char>,
)
    requires
        text::blank(before),
        text::blank(after),
        token.len() > 0,
        !text::white_space(token[0]),
        !text::white_space(token.last()),
    ensures
        bearer_token(service, None, value) == Ok::<Option<Seq<char>>, HardToolsFault>(None),
        bearer_token(service, Some(variable), None) == Err::<Option<Seq<char>>, HardToolsFault>(
            HardToolsFault::MissingToken(service, variable),
        ),
        bearer_token(service, Some(variable), Some(before)) == Err::<
            Option<Seq<char>>,
            HardToolsFault,
        >(HardToolsFault::EmptyToken(service)),
        bearer_token(service, Some(variable), Some(before + token + after)) == Ok::<
            Option<Seq<char>>,
            HardToolsFault,
        >(Some(token)),
{
    text::trimming_takes_only_the_white_space_around(before, token, after);
    text::trimmed_text_is_a_part(before);
}

/// What a service lists is exposed behind what is known already, tool by tool and in order: each
/// belongs to the service, is called there by its own name, and is listed by the broker under
/// `hard_`, the service's name, an underscore and that name, with the service in front of its
/// description and its definition as it came.
pub proof fn listed_tools_are_exposed_in_order(
    before: DiscoveryModel,
    after: DiscoveryModel,
    service: Service,
    tools: Seq<ListedModel>,
    k: int,
)
    requires
        before.knows_more(after, service, tools),
        0 <= k < tools.len(),
    ensures
        ({
            let known = before.found.tools.len() as int;
            let tool = after.found.tools[known + k];
            let listed = all_exposed(after.found.tools)[known + k];
            &&& after.configs == before.configs
            &&& after.found.tools.len() == known + tools.len()
            &&& after.found.tools.take(known) == before.found.tools
            &&& after.found.services.len() == before.found.services.len() + 1
            &&& tool.service == before.found.services.len()
            &&& after.found.services[tool.service] == service
            &&& tool.upstream_name == tools[k].name
            &&& listed.name == "hard_"@ + service.name@ + "_"@ + tools[k].name
            &&& listed.description == Some(
                "nm-hard-tools service `"@ + service.name@ + "`: "@ + (match tools[k].description {
                    Some(text) => text,
                    None => Seq::empty(),
                }),
            )
            &&& listed.definition == tools[k].definition
            &&& exposed_names(after.found.tools)[known + k] == listed.name
        }),
{
    assert(after.found.tools.take(before.found.tools.len() as int) =~= before.found.tools);
}

/// The service that is asked next is the first of the configured ones that has not answered.
pub proof fn services_are_asked_in_their_order(discovery: DiscoveryModel, service: Service)
    requires
        discovery.asks(service),
    ensures
        discovery.found.services.len() < discovery.configs.len(),
        service.name@ == discovery.configs[discovery.found.services.len() as int].name@,
        service.url@ == discovery.configs[discovery.found.services.len() as int].url@,
{
}

/// How a response is read. One with another id, or none, is refused. An error in it is reported
/// with the status, whatever else it holds; without one, a status that is no success is reported. A
/// result is taken as it came, and a response without one is refused.
pub proof fn response_is_read_for_its_request(
    id: u64,
    status: u16,
    members: Seq<json::MemberModel>,
)
    ensures
        ({
            let answers = json::lookup(members, "id"@) matches Some(m) && m.kind
                == json::KindModel::Number(Some(id));
            let error = json::lookup(members, "error"@);
            let result = json::lookup(members, "result"@);
            let read = envelope_result(id, status, members);
            &&& !answers <==> read == Err::<Seq<char>, HardToolsFault>(
                HardToolsFault::ResponseIdMismatch(id),
            )
            &&& answers && error is Some ==> read == Err::<Seq<char>, HardToolsFault>(
                HardToolsFault::Rpc(status, (error->0).json),
            )
            &&& answers && error is None && (status < 200 || status >= 300) ==> read == Err::<
                Seq<char>,
                HardToolsFault,
            >(HardToolsFault::Http(status))
            &&& answers && error is None && 200 <= status < 300 ==> (match result {
                Some(m) => read == Ok::<Seq<char>, HardToolsFault>(m.json),
                None => read == Err::<Seq<char>, HardToolsFault>(HardToolsFault::MissingResult),
            })
        }),
{
}

/// A listing is accepted exactly where it is a document with `tools` that are all definitions of
/// tools, and is then those tools; what is missing is what it is refused for.
pub proof fn listing_is_its_tool_definitions(result: Seq<char>, members: Seq<json::MemberModel>)
    requires
        json::json_members(result) == Some(members),
    ensures
        ({
            let tools = json::lookup(members, "tools"@);
            &&& tools is None ==> listing(result) == Err::<Seq<ListedModel>, HardToolsFault>(
                HardToolsFault::MissingTools,
            )
            &&& tools matches Some(m) ==> (match tool_definitions(m.json) {
                Some(models) => listing(result) == Ok::<Seq<ListedModel>, HardToolsFault>(models),
                None => listing(result) == Err::<Seq<ListedModel>, HardToolsFault>(
                    HardToolsFault::BadDefinitions,
                ),
            })
        }),
{
}

/// The agent is told which service failed and why: the causes stand at the end, word for word.
pub proof fn failure_names_service_and_causes(service: Seq<char>, causes: Seq<char>)
    ensures
        ("nm-hard-tools service "@ + text::debug_text(service) + " failed: "@).is_prefix_of(
            failure_of(service, causes),
        ),
        failure_of(service, causes).skip(
            ("nm-hard-tools service "@ + text::debug_text(service) + " failed: "@).len() as int,
        ) == causes,
{
    let head = "nm-hard-tools service "@ + text::debug_text(service) + " failed: "@;
    let whole = failure_of(service, causes);
    assert(whole.subrange(0, head.len() as int) =~= head);
    assert(whole.skip(head.len() as int) =~= causes);
}

/// An error names what it is about: the service and the variable, the tool, the id, the status with
/// what the service said.
pub proof fn error_names_what_it_is_about(fault: HardToolsFault)
    ensures
        match fault {
            HardToolsFault::EmptyToken(name) => text::mentions(
                fault_message(fault),
                text::debug_text(name),
            ),
            HardToolsFault::MissingToken(name, variable) => text::mentions(
                fault_message(fault),
                text::debug_text(name),
            ) && text::mentions(fault_message(fault), text::debug_text(variable)),
            HardToolsFault::ToolNameCollision(name) => text::mentions(fault_message(fault), name),
            HardToolsFault::ResponseIdMismatch(id) => text::mentions(
                fault_message(fault),
                numeral::decimal(id as nat),
            ),
            HardToolsFault::Rpc(status, error) => text::mentions(
                fault_message(fault),
                status_text(status),
            ) && text::mentions(fault_message(fault), error),
            HardToolsFault::Http(status) => text::mentions(
                fault_message(fault),
                status_text(status),
            ),
            _ => true,
        },
{
    let e = Seq::<char>::empty();
    match fault {
        HardToolsFault::EmptyToken(name) => {
            text::lemma_mentions(
                "nm-hard-tools service "@,
                text::debug_text(name),
                " has an empty bearer token"@,
            );
        },
        HardToolsFault::MissingToken(name, variable) => {
            let head = "nm-hard-tools service "@;
            let middle = " requires environment variable "@;
            let service = text::debug_text(name);
            let key = text::debug_text(variable);
            text::lemma_mentions(head, service, middle + key);
            assert(head + service + middle + key == head + service + (middle + key));
            text::lemma_mentions(head + service + middle, key, e);
        },
        HardToolsFault::ToolNameCollision(name) => {
            text::lemma_mentions("nm-hard-tools tool name collision: "@, name, e);
        },
        HardToolsFault::ResponseIdMismatch(id) => {
            text::lemma_mentions(
                "MCP JSON-RPC response id did not match request "@,
                numeral::decimal(id as nat),
                e,
            );
        },
        HardToolsFault::Rpc(status, error) => {
            let head = "upstream returned HTTP "@;
            let line = status_text(status);
            text::lemma_mentions(head, line, ": "@ + error);
            assert(head + line + ": "@ + error == head + line + (": "@ + error));
            text::lemma_mentions(head + line + ": "@, error, e);
        },
        HardToolsFault::Http(status) => {
            text::lemma_mentions("upstream returned HTTP "@, status_text(status), e);
        },
        _ => {},
    }
}

/// A response may have two mebibytes.
pub proof fn responses_are_bounded_by_two_mebibytes()
    ensures
        MAX_RESPONSE_BYTES == 2 * 1024 * 1024,
{
}

/// A call of an exposed tool goes to the service: to its URL, with its token, as the call of the
/// tool by the name that the service gave it, with the arguments as they came, or with none.
pub proof fn exposed_call_reaches_its_service(
    tool: &ProxiedTool,
    arguments: Option<String>,
    call: RpcCall,
    service: &Service,
    id: u64,
    client_version: &str,
    plan: RequestPlan,
)
    requires
        call_ensures(ProxiedTool::forwarded, (tool, arguments), call),
        call_ensures(plan_request, (service, id, &call, client_version), plan),
    ensures
        plan.url@ == service.url@,
        text::text_opt(plan.bearer_token) == text::text_opt(service.bearer_token),
        header(text::pairs(plan.headers@), "mcp-method"@) == Some("tools/call"@),
        header(text::pairs(plan.headers@), "mcp-name"@) == Some(tool.upstream_name@),
        ({
            let given = match arguments {
                Some(text) => text@,
                None => "{}"@,
            };
            let params = seq![
                ("name"@, json::json_string(tool.upstream_name@)),
                ("arguments"@, given),
                ("_meta"@, json::object_of(client_members("2026-07-28"@, client_version@))),
            ];
            plan.body@ == json::object_of(
                seq![
                    ("jsonrpc"@, json::json_string("2.0"@)),
                    ("id"@, numeral::decimal(id as nat)),
                    ("method"@, json::json_string("tools/call"@)),
                    ("params"@, json::object_of(params)),
                ],
            )
        }),
{
    request_says_what_its_headers_say(id, call@, client_version@);
    let given = match arguments {
        Some(given) => given@,
        None => "{}"@,
    };
    assert(call@ == CallModel::CallTool(tool.upstream_name@, given));
    assert(param_members(call@, "2026-07-28"@, client_version@) == seq![
        ("name"@, json::json_string(tool.upstream_name@)),
        ("arguments"@, given),
        ("_meta"@, json::object_of(client_members("2026-07-28"@, client_version@))),
    ]);
    assert(header(request_headers(call@), "mcp-method"@)->0 == "tools/call"@);
    assert(header(request_headers(call@), "mcp-protocol-version"@)->0 == "2026-07-28"@);
    let params = json::object_of(param_members(call@, "2026-07-28"@, client_version@));
    assert(request_body(id, call@, client_version@) == json::object_of(
        seq![
            ("jsonrpc"@, json::json_string("2.0"@)),
            ("id"@, numeral::decimal(id as nat)),
            ("method"@, json::json_string("tools/call"@)),
            ("params"@, params),
        ],
    ));
}

/// An exposed tool is spoken of by all that it holds, and so is a call.
pub proof fn exposed_tools_are_seen_as_they_are(
    tool: ProxiedTool,
    tools: Seq<ProxiedTool>,
    i: int,
    name: String,
    arguments: String,
)
    ensures
        tool@.service == tool.service,
        tool@.upstream_name == tool.upstream_name@,
        tool@.exposed_name == tool.exposed_name@,
        tool@.description == tool.description@,
        tool@.definition == tool.definition@,
        proxied_models(tools).len() == tools.len(),
        0 <= i < tools.len() ==> proxied_models(tools)[i] == tools[i]@,
        (RpcCall::CallTool { name, arguments })@ == CallModel::CallTool(name@, arguments@),
        RpcCall::ListTools@ == CallModel::ListTools,
{
}

/// A listing that is no JSON document is refused as one that cannot be decoded.
pub proof fn undecodable_listing_is_refused(result: Seq<char>)
    ensures
        json::json_document(result) is None ==> listing(result) == Err::<
            Seq<ListedModel>,
            HardToolsFault,
        >(HardToolsFault::Undecodable),
{
}

/// Behind the last id the count begins again.
pub proof fn request_ids_begin_again(n: nat)
    ensures
        nth_id((n + 0x1_0000_0000_0000_0000) as nat) == nth_id(n),
        nth_id(u64::MAX as nat) == 0,
{
}

} // verus!
