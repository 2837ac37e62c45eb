use vstd::prelude::*;

use crate::json;
use crate::manifest::broker;
use crate::text;

verus! {

/// One nm-hard-tools service aggregated behind the privileged broker.
#[derive(Clone, Debug)]
pub struct HardToolCfg {
    /// Prefix of every tool of the service as the broker exposes it.
    pub name: String,
    /// The full Streamable HTTP endpoint, with its `/mcp`.
    pub url: String,
    /// The environment variable that holds the service's bearer token. The broker resolves it;
    /// the value never enters the sandbox.
    pub bearer_token_env: Option<String>,
}

/// A service as a JSON object; a variable that is not named is null.
pub open spec fn service_json(service: HardToolCfg) -> Seq<char> {
    "{\"name\":"@ + json::json_string(service.name@) + ",\"url\":"@ + json::json_string(service.url@)
        + ",\"bearer_token_env\":"@ + (match service.bearer_token_env {
        Some(variable) => json::json_string(variable@),
        None => "null"@,
    }) + "}"@
}

/// The services as a JSON array, in their order.
pub open spec fn services_json(services: Seq<HardToolCfg>) -> Seq<char> {
    "["@ + text::join(Seq::new(services.len(), |i: int| service_json(services[i])), ","@) + "]"@
}

fn service_text(service: &HardToolCfg) -> (r: String)
    ensures
        r@ == service_json(*service),
{
    let name = text::concat3(
        "{\"name\":",
        json::string_text(service.name.as_str()).as_str(),
        ",\"url\":",
    );
    let url = text::concat3(
        name.as_str(),
        json::string_text(service.url.as_str()).as_str(),
        ",\"bearer_token_env\":",
    );
    let variable = match &service.bearer_token_env {
        Some(variable) => json::string_text(variable.as_str()),
        None => "null".to_owned(),
    };
    text::concat3(url.as_str(), variable.as_str(), "}")
}

/// The services in JSON, as the broker's process reads them.
pub fn services_text(services: &Vec<HardToolCfg>) -> (r: String)
    ensures
        r@ == services_json(services@),
{
    let ghost all = Seq::new(services@.len(), |i: int| service_json(services@[i]));
    let mut parts: Vec<String> = Vec::new();
    let mut i: usize = 0;
    while i < services.len()
        invariant
            i <= services@.len(),
            parts@.len() == i,
            forall|j: int| 0 <= j < i ==> (#[trigger] parts@[j])@ == service_json(services@[j]),
        decreases services@.len() - i,
    {
        parts.push(service_text(&services[i]));
        i = i + 1;
    }
    assert(text::texts(parts@) =~= all);
    text::concat3("[", text::join_with(&parts, ",").as_str(), "]")
}

/// Why the configured services are refused.
#[derive(Debug)]
pub enum HardToolConfigError {
    RequiresBroker,
    EmptyName,
    InvalidName { name: String },
    DuplicateName { name: String },
    InvalidUrl { name: String, reason: String },
    EmptyTokenEnv { name: String },
}

/// A refusal, in its texts.
pub enum HardToolFault {
    RequiresBroker,
    EmptyName,
    InvalidName(Seq<char>),
    DuplicateName(Seq<char>),
    InvalidUrl(Seq<char>, Seq<char>),
    EmptyTokenEnv(Seq<char>),
}

impl View for HardToolConfigError {
    type V = HardToolFault;

    open spec fn view(&self) -> HardToolFault {
        match *self {
            HardToolConfigError::RequiresBroker => HardToolFault::RequiresBroker,
            HardToolConfigError::EmptyName => HardToolFault::EmptyName,
            HardToolConfigError::InvalidName { name } => HardToolFault::InvalidName(name@),
            HardToolConfigError::DuplicateName { name } => HardToolFault::DuplicateName(name@),
            HardToolConfigError::InvalidUrl { name, reason } => HardToolFault::InvalidUrl(
                name@,
                reason@,
            ),
            HardToolConfigError::EmptyTokenEnv { name } => HardToolFault::EmptyTokenEnv(name@),
        }
    }
}

/// An ASCII letter or digit, an underscore or a hyphen.
pub open spec fn name_char(c: char) -> bool {
    'a' <= c <= 'z' || 'A' <= c <= 'Z' || '0' <= c <= '9' || c == '_' || c == '-'
}

pub open spec fn plain_name(name: Seq<char>) -> bool {
    forall|i: int| 0 <= i < name.len() ==> name_char(#[trigger] name[i])
}

/// Whether one of the first `n` services has the name.
pub open spec fn named_before(services: Seq<HardToolCfg>, n: int, name: Seq<char>) -> bool {
    exists|j: int| 0 <= j < n && (#[trigger] services[j]).name@ == name
}

/// What is wrong with the service at `i`, given those before it.
pub open spec fn service_fault(services: Seq<HardToolCfg>, i: int) -> Option<HardToolFault> {
    let service = services[i];
    if text::blank(service.name@) {
        Some(HardToolFault::EmptyName)
    } else if !plain_name(service.name@) {
        Some(HardToolFault::InvalidName(service.name@))
    } else if named_before(services, i, service.name@) {
        Some(HardToolFault::DuplicateName(service.name@))
    } else {
        match broker::endpoint(service.url@) {
            Err(fault) => Some(
                HardToolFault::InvalidUrl(
                    service.name@,
                    broker::url_fault_message(fault, service.url@),
                ),
            ),
            Ok(_) => match service.bearer_token_env {
                Some(env) if text::blank(env@) => Some(HardToolFault::EmptyTokenEnv(service.name@)),
                _ => None,
            },
        }
    }
}

/// The first fault among the first `n` services.
pub open spec fn first_service_fault(services: Seq<HardToolCfg>, n: int) -> Option<HardToolFault>
    decreases n,
{
    if n <= 0 {
        None
    } else {
        match first_service_fault(services, n - 1) {
            Some(fault) => Some(fault),
            None => service_fault(services, n - 1),
        }
    }
}

/// What is wrong with the configured services: they need the broker, and the first faulty one is
/// reported.
pub open spec fn services_fault(services: Seq<HardToolCfg>, broker_enabled: bool) -> Option<
    HardToolFault,
> {
    if services.len() > 0 && !broker_enabled {
        Some(HardToolFault::RequiresBroker)
    } else {
        first_service_fault(services, services.len() as int)
    }
}

fn is_plain_name(name: &str) -> (r: bool)
    ensures
        r == plain_name(name@),
{
    let chars = text::chars_of(name);
    let mut i: usize = 0;
    while i < chars.len()
        invariant
            chars@ == name@,
            i <= chars@.len(),
            forall|j: int| 0 <= j < i ==> name_char(#[trigger] chars@[j]),
        decreases chars@.len() - i,
    {
        let c = chars[i];
        if !(('a' <= c && c <= 'z') || ('A' <= c && c <= 'Z') || ('0' <= c && c <= '9') || c == '_'
            || c == '-') {
            assert(!name_char(name@[i as int]));
            return false;
        }
        i = i + 1;
    }
    true
}

fn is_named_before(services: &Vec<HardToolCfg>, n: usize, name: &str) -> (r: bool)
    requires
        n <= services@.len(),
    ensures
        r == named_before(services@, n as int, name@),
{
    let mut j: usize = 0;
    while j < n
        invariant
            j <= n <= services@.len(),
            forall|k: int| 0 <= k < j ==> (#[trigger] services@[k]).name@ != name@,
        decreases n - j,
    {
        if text::same_text(services[j].name.as_str(), name) {
            assert(services@[j as int].name@ == name@);
            return true;
        }
        j = j + 1;
    }
    false
}

/// Checks the service at `i` against those before it.
fn validate_service(services: &Vec<HardToolCfg>, i: usize) -> (r: Result<(), HardToolConfigError>)
    requires
        i < services@.len(),
    ensures
        match r {
            Ok(()) => service_fault(services@, i as int) is None,
            Err(e) => service_fault(services@, i as int) == Some(e@),
        },
{
    let service = &services[i];
    if text::is_blank(service.name.as_str()) {
        return Err(HardToolConfigError::EmptyName);
    }
    if !is_plain_name(service.name.as_str()) {
        return Err(HardToolConfigError::InvalidName { name: service.name.clone() });
    }
    if is_named_before(services, i, service.name.as_str()) {
        return Err(HardToolConfigError::DuplicateName { name: service.name.clone() });
    }
    match broker::broker_endpoint_from_url(service.url.as_str()) {
        Err(error) => {
            return Err(
                HardToolConfigError::InvalidUrl {
                    name: service.name.clone(),
                    reason: error.message(),
                },
            );
        },
        Ok(_) => {},
    }
    match &service.bearer_token_env {
        Some(env) => {
            if text::is_blank(env.as_str()) {
                return Err(HardToolConfigError::EmptyTokenEnv { name: service.name.clone() });
            }
        },
        None => {},
    }
    Ok(())
}

/// Checks the configured services: only under an enabled broker, with plain names that differ,
/// endpoints that can be allowlisted, and no empty name of a token variable.
pub fn validate(services: &Vec<HardToolCfg>, broker_enabled: bool) -> (r: Result<
    (),
    HardToolConfigError,
>)
    ensures
        match r {
            Ok(()) => services_fault(services@, broker_enabled) is None,
            Err(e) => services_fault(services@, broker_enabled) == Some(e@),
        },
{
    if services.len() > 0 && !broker_enabled {
        return Err(HardToolConfigError::RequiresBroker);
    }
    let mut i: usize = 0;
    while i < services.len()
        invariant
            services@.len() > 0 ==> broker_enabled,
            i <= services@.len(),
            first_service_fault(services@, i as int) is None,
        decreases services@.len() - i,
    {
        match validate_service(services, i) {
            Ok(()) => {},
            Err(error) => {
                proof {
                    lemma_first_fault_stays(services@, i + 1, services@.len() as int);
                }
                return Err(error);
            },
        }
        i = i + 1;
    }
    Ok(())
}

/// Further services do not displace a fault.
proof fn lemma_first_fault_stays(services: Seq<HardToolCfg>, m: int, n: int)
    requires
        m <= n,
        first_service_fault(services, m) is Some,
    ensures
        first_service_fault(services, n) == first_service_fault(services, m),
    decreases n - m,
{
    if m < n {
        lemma_first_fault_stays(services, m, n - 1);
    }
}

/// What a refusal says.
pub open spec fn fault_message(fault: HardToolFault) -> Seq<char> {
    match fault {
        HardToolFault::RequiresBroker =>
            "[[agent.broker.hard_tool]] requires [agent.broker].enabled = true"@,
        HardToolFault::EmptyName => "[[agent.broker.hard_tool]].name must not be empty"@,
        HardToolFault::InvalidName(name) => "nm-hard-tools service name "@ + text::debug_text(name)
            + " may contain only ASCII letters, digits, '_' and '-'"@,
        HardToolFault::DuplicateName(name) => "duplicate nm-hard-tools service name "@
            + text::debug_text(name),
        HardToolFault::InvalidUrl(name, reason) => "invalid nm-hard-tools service URL for "@
            + text::debug_text(name) + ": "@ + reason,
        HardToolFault::EmptyTokenEnv(name) => "nm-hard-tools service "@ + text::debug_text(name)
            + " has an empty bearer_token_env"@,
    }
}

impl HardToolConfigError {
    /// The refusal in words.
    pub fn message(&self) -> (r: String)
        ensures
            r@ == fault_message(self@),
    {
        match self {
            HardToolConfigError::RequiresBroker =>
                "[[agent.broker.hard_tool]] requires [agent.broker].enabled = true".to_owned(),
            HardToolConfigError::EmptyName =>
                "[[agent.broker.hard_tool]].name must not be empty".to_owned(),
            HardToolConfigError::InvalidName { name } => text::concat3(
                "nm-hard-tools service name ",
                text::debug_of(name.as_str()).as_str(),
                " may contain only ASCII letters, digits, '_' and '-'",
            ),
            HardToolConfigError::DuplicateName { name } => text::concat2(
                "duplicate nm-hard-tools service name ",
                text::debug_of(name.as_str()).as_str(),
            ),
            HardToolConfigError::InvalidUrl { name, reason } => {
                let head = text::concat3(
                    "invalid nm-hard-tools service URL for ",
                    text::debug_of(name.as_str()).as_str(),
                    ": ",
                );
                text::concat2(head.as_str(), reason.as_str())
            },
            HardToolConfigError::EmptyTokenEnv { name } => text::concat3(
                "nm-hard-tools service ",
                text::debug_of(name.as_str()).as_str(),
                " has an empty bearer_token_env",
            ),
        }
    }
}

proof fn lemma_no_service_fault(services: Seq<HardToolCfg>, n: int, i: int)
    requires
        first_service_fault(services, n) is None,
        0 <= i < n,
    ensures
        service_fault(services, i) is None,
    decreases n,
{
    if i < n - 1 {
        lemma_no_service_fault(services, n - 1, i);
    }
}

/// Accepted services have names that differ from one another, and each URL has an endpoint.
pub proof fn accepted_services_are_distinct(
    services: Seq<HardToolCfg>,
    broker_enabled: bool,
    i: int,
    j: int,
)
    requires
        services_fault(services, broker_enabled) is None,
        0 <= i < j < services.len(),
    ensures
        broker_enabled,
        services[i].name@ != services[j].name@,
        broker::endpoint(services[i].url@) is Ok,
        broker::endpoint(services[j].url@) is Ok,
{
    lemma_no_service_fault(services, services.len() as int, i);
    lemma_no_service_fault(services, services.len() as int, j);
    assert(!named_before(services, j, services[j].name@));
}

/// Whether the service at `i` is in order: a name of ASCII letters, digits, underscores and
/// hyphens that no service before it has, a URL with an endpoint, and no blank name of a token
/// variable.
pub open spec fn service_in_order(services: Seq<HardToolCfg>, i: int) -> bool {
    let service = services[i];
    &&& !text::blank(service.name@)
    &&& forall|k: int|
        0 <= k < service.name@.len() ==> {
            let c = #[trigger] service.name@[k];
            'a' <= c <= 'z' || 'A' <= c <= 'Z' || '0' <= c <= '9' || c == '_' || c == '-'
        }
    &&& forall|j: int| 0 <= j < i ==> (#[trigger] services[j]).name@ != service.name@
    &&& broker::endpoint(service.url@) is Ok
    &&& service.bearer_token_env matches Some(variable) ==> !text::blank(variable@)
}

proof fn lemma_service_in_order(services: Seq<HardToolCfg>, i: int)
    ensures
        service_fault(services, i) is None <==> service_in_order(services, i),
{
    let name = services[i].name@;
    if service_in_order(services, i) {
        assert(plain_name(name)) by {
            assert forall|k: int| 0 <= k < name.len() implies name_char(#[trigger] name[k]) by {}
        }
        assert(!named_before(services, i, name));
    }
    if service_fault(services, i) is None {
        assert(plain_name(name));
        assert forall|k: int| 0 <= k < name.len() implies {
            let c = #[trigger] name[k];
            'a' <= c <= 'z' || 'A' <= c <= 'Z' || '0' <= c <= '9' || c == '_' || c == '-'
        } by {
            assert(name_char(name[k]));
        }
        assert(!named_before(services, i, name));
        assert forall|j: int| 0 <= j < i implies (#[trigger] services[j]).name@ != name by {}
    }
}

proof fn lemma_all_services_in_order(services: Seq<HardToolCfg>, n: int)
    requires
        forall|i: int| 0 <= i < n ==> #[trigger] service_in_order(services, i),
    ensures
        first_service_fault(services, n) is None,
    decreases n,
{
    if n > 0 {
        lemma_all_services_in_order(services, n - 1);
        lemma_service_in_order(services, n - 1);
        assert(service_in_order(services, n - 1));
    }
}

/// Services are accepted exactly where each of them is in order and the broker they need is
/// enabled; no service needs no broker.
pub proof fn services_in_order_are_accepted(services: Seq<HardToolCfg>, broker_enabled: bool)
    ensures
        services_fault(services, broker_enabled) is None <==> {
            &&& services.len() > 0 ==> broker_enabled
            &&& forall|i: int| 0 <= i < services.len() ==> #[trigger] service_in_order(services, i)
        },
{
    let n = services.len() as int;
    if services_fault(services, broker_enabled) is None {
        assert forall|i: int| 0 <= i < n implies #[trigger] service_in_order(services, i) by {
            lemma_no_service_fault(services, n, i);
            lemma_service_in_order(services, i);
        }
    }
    if forall|i: int| 0 <= i < n ==> #[trigger] service_in_order(services, i) {
        lemma_all_services_in_order(services, n);
    }
}

/// Where something is wrong, the first service that is not in order is the one reported, for what
/// is wrong with it; services without an enabled broker are refused for that.
#[verifier::spinoff_prover]
pub proof fn first_faulty_service_is_reported(
    services: Seq<HardToolCfg>,
    broker_enabled: bool,
    i: int,
)
    requires
        0 <= i < services.len(),
        forall|j: int| 0 <= j < i ==> #[trigger] service_in_order(services, j),
        !service_in_order(services, i),
    ensures
        !broker_enabled ==> services_fault(services, broker_enabled) == Some(
            HardToolFault::RequiresBroker,
        ),
        broker_enabled ==> (match services_fault(services, broker_enabled) {
            Some(HardToolFault::EmptyName) => text::blank(services[i].name@),
            Some(HardToolFault::InvalidName(name)) => name == services[i].name@ && exists|k: int|
                0 <= k < name.len() && !name_char(#[trigger] name[k]),
            Some(HardToolFault::DuplicateName(name)) => name == services[i].name@ && exists|j: int|
                0 <= j < i && (#[trigger] services[j]).name@ == name,
            Some(HardToolFault::InvalidUrl(name, reason)) => name == services[i].name@ && (
            broker::endpoint(services[i].url@) matches Err(fault) && reason
                == broker::url_fault_message(fault, services[i].url@)),
            Some(HardToolFault::EmptyTokenEnv(name)) => name == services[i].name@ && (
            services[i].bearer_token_env matches Some(variable) && text::blank(variable@)),
            _ => false,
        }),
{
    let n = services.len() as int;
    lemma_all_services_in_order(services, i);
    lemma_service_in_order(services, i);
    assert(first_service_fault(services, i + 1) == service_fault(services, i));
    lemma_first_fault_stays(services, i + 1, n);
    lemma_fault_has_its_cause(services, i);
}

/// A fault of a service has its cause in the service.
proof fn lemma_fault_has_its_cause(services: Seq<HardToolCfg>, i: int)
    requires
        service_fault(services, i) is Some,
    ensures
        match service_fault(services, i)->0 {
            HardToolFault::RequiresBroker => false,
            HardToolFault::EmptyName => text::blank(services[i].name@),
            HardToolFault::InvalidName(name) => name == services[i].name@ && exists|k: int|
                0 <= k < name.len() && !name_char(#[trigger] name[k]),
            HardToolFault::DuplicateName(name) => name == services[i].name@ && exists|j: int|
                0 <= j < i && (#[trigger] services[j]).name@ == name,
            HardToolFault::InvalidUrl(name, reason) => name == services[i].name@ && (
            broker::endpoint(services[i].url@) matches Err(fault) && reason
                == broker::url_fault_message(fault, services[i].url@)),
            HardToolFault::EmptyTokenEnv(name) => name == services[i].name@ && (
            services[i].bearer_token_env matches Some(variable) && text::blank(variable@)),
        },
{
    let name = services[i].name@;
    if !text::blank(name) && !plain_name(name) {
        let k = choose|k: int| 0 <= k < name.len() && !name_char(#[trigger] name[k]);
        assert(!name_char(name[k]));
    }
}

/// The services are handed to the broker as one JSON array: each of them an object with its name,
/// its URL and the name of its token variable, in their order and separated by commas.
pub proof fn services_are_handed_over_in_order(services: Seq<HardToolCfg>, service: HardToolCfg)
    ensures
        services_json(Seq::empty()) == "[]"@,
        services_json(seq![service]) == "[{\"name\":"@ + json::json_string(service.name@)
            + ",\"url\":"@ + json::json_string(service.url@) + ",\"bearer_token_env\":"@ + (
        match service.bearer_token_env {
            Some(variable) => json::json_string(variable@),
            None => "null"@,
        }) + "}]"@,
        services.len() > 0 ==> services_json(services.push(service)) == services_json(
            services,
        ).drop_last() + ","@ + services_json(seq![service]).skip(1),
{
    let all = Seq::new(services.len(), |i: int| service_json(services[i]));
    let one = service_json(service);
    let more = services.push(service);
    let longer = Seq::new(more.len(), |i: int| service_json(more[i]));
    assert(longer.drop_last() =~= all);
    let single = Seq::new(1, |i: int| service_json(seq![service][i]));
    let none = Seq::new(0, |i: int| service_json(Seq::<HardToolCfg>::empty()[i]));
    assert(none =~= Seq::<Seq<char>>::empty());
    assert(text::join(none, ","@) == Seq::<char>::empty());
    assert(text::join(single, ","@) == one);
    reveal_strlit("[");
    reveal_strlit("]");
    reveal_strlit("[]");
    reveal_strlit("{\"name\":");
    reveal_strlit("[{\"name\":");
    reveal_strlit("}");
    reveal_strlit("}]");
    assert(services_json(Seq::empty()) =~= "[]"@);
    assert("["@ + "{\"name\":"@ =~= "[{\"name\":"@);
    assert("}"@ + "]"@ =~= "}]"@);
    let name = json::json_string(service.name@);
    let url = json::json_string(service.url@);
    let variable = match service.bearer_token_env {
        Some(variable) => json::json_string(variable@),
        None => "null"@,
    };
    assert("["@ + one + "]"@ =~= ("["@ + "{\"name\":"@) + name + ",\"url\":"@ + url
        + ",\"bearer_token_env\":"@ + variable + ("}"@ + "]"@));
    assert(services_json(seq![service]).skip(1) =~= one + "]"@);
    if services.len() > 0 {
        assert(services_json(services).drop_last() =~= "["@ + text::join(all, ","@));
        assert(text::join(longer, ","@) == text::join(all, ","@) + ","@ + one);
        assert(services_json(more) =~= "["@ + text::join(all, ","@) + ","@ + (one + "]"@));
    }
}

/// A refusal of a service names it, and gives the reason where the URL is at fault.
pub proof fn service_refusal_names_the_service(fault: HardToolFault)
    ensures
        match fault {
            HardToolFault::InvalidName(name) => text::mentions(
                fault_message(fault),
                text::debug_text(name),
            ),
            HardToolFault::DuplicateName(name) => text::mentions(
                fault_message(fault),
                text::debug_text(name),
            ),
            HardToolFault::InvalidUrl(name, reason) => text::mentions(
                fault_message(fault),
                text::debug_text(name),
            ) && text::mentions(fault_message(fault), reason),
            HardToolFault::EmptyTokenEnv(name) => text::mentions(
                fault_message(fault),
                text::debug_text(name),
            ),
            _ => true,
        },
{
    let e = Seq::<char>::empty();
    match fault {
        HardToolFault::InvalidName(name) => {
            text::lemma_mentions(
                "nm-hard-tools service name "@,
                text::debug_text(name),
                " may contain only ASCII letters, digits, '_' and '-'"@,
            );
        },
        HardToolFault::DuplicateName(name) => {
            text::lemma_mentions(
                "duplicate nm-hard-tools service name "@,
                text::debug_text(name),
                e,
            );
        },
        HardToolFault::InvalidUrl(name, reason) => {
            let head = "invalid nm-hard-tools service URL for "@;
            let service = text::debug_text(name);
            text::lemma_mentions(head, service, ": "@ + reason);
            assert(head + service + ": "@ + reason == head + service + (": "@ + reason));
            text::lemma_mentions(head + service + ": "@, reason, e);
        },
        HardToolFault::EmptyTokenEnv(name) => {
            text::lemma_mentions(
                "nm-hard-tools service "@,
                text::debug_text(name),
                " has an empty bearer_token_env"@,
            );
        },
        _ => {},
    }
}

} // verus!
