use vstd::prelude::*;

use crate::json;
use crate::text;

verus! {

/// Where the broker listens unless it is told otherwise: on all interfaces, so that the sandbox
/// reaches it.
pub const DEFAULT_BIND: &'static str = "0.0.0.0:8849";

/// The path of the endpoint.
pub const MCP_PATH: &'static str = "/mcp";

/// The address to listen on, from the value of `BROKER_BIND`.
pub fn bind_address(value: Option<String>) -> (r: String)
    ensures
        match value {
            Some(bind) => r@ == bind@,
            None => r@ == DEFAULT_BIND@,
        },
{
    match value {
        Some(bind) => bind,
        None => DEFAULT_BIND.to_owned(),
    }
}

/// Whether the value of a variable switches something on: `1` and `true` do.
pub fn switched_on(value: &Option<String>) -> (r: bool)
    ensures
        r == (text::text_opt(*value) == Some("1"@) || text::text_opt(*value) == Some("true"@)),
{
    match value {
        Some(text) => text::same_text(text.as_str(), "1") || text::same_text(text.as_str(), "true"),
        None => false,
    }
}

/// The configured services, from the value of `BROKER_HARD_TOOLS`; a blank value counts as none.
pub fn hard_tools_config(value: Option<String>) -> (r: Option<String>)
    ensures
        match value {
            Some(raw) if !text::blank(raw@) => text::text_opt(r) == Some(raw@),
            _ => r is None,
        },
{
    match value {
        Some(raw) => if text::is_blank(raw.as_str()) {
            None
        } else {
            Some(raw)
        },
        None => None,
    }
}

/// What is printed once the broker listens.
pub fn listening_line(bind: &str) -> (r: String)
    ensures
        r@ == "crucible-broker listening on http://"@ + bind@ + MCP_PATH@,
{
    text::concat3("crucible-broker listening on http://", bind, MCP_PATH)
}

/// Which cluster a job is submitted to.
#[derive(Debug)]
pub enum KubeTarget {
    /// The one that the process runs in or is logged in to.
    Ambient,
    Kubeconfig { path: Option<String>, context: Option<String>, proxy_url: Option<String> },
}

/// The cluster that the options name: the ambient one where none is given.
pub fn spoke_target(
    kubeconfig: Option<String>,
    context: Option<String>,
    proxy_url: Option<String>,
) -> (r: KubeTarget)
    ensures
        if kubeconfig is None && context is None && proxy_url is None {
            r is Ambient
        } else {
            r == (KubeTarget::Kubeconfig { path: kubeconfig, context, proxy_url })
        },
{
    if kubeconfig.is_none() && context.is_none() && proxy_url.is_none() {
        KubeTarget::Ambient
    } else {
        KubeTarget::Kubeconfig { path: kubeconfig, context, proxy_url }
    }
}

/// The fields of the line that reports a failed probe of a spoke.
pub open spec fn spoke_error_fields(spoke: Seq<char>, tier: Seq<char>, error: Seq<char>) -> Seq<
    (Seq<char>, Seq<char>),
> {
    seq![("status"@, "error"@), ("spoke"@, spoke), ("tier"@, tier), ("error"@, error)]
}

/// The line that reports a failed probe of a spoke.
fn spoke_error(spoke: &str, tier: &str, error: &str) -> (r: String)
    ensures
        r@ == json::text_object(spoke_error_fields(spoke@, tier@, error@)),
{
    let mut fields: Vec<(String, String)> = Vec::new();
    fields.push(("status".to_owned(), "error".to_owned()));
    fields.push(("spoke".to_owned(), spoke.to_owned()));
    fields.push(("tier".to_owned(), tier.to_owned()));
    fields.push(("error".to_owned(), error.to_owned()));
    assert(text::pairs(fields@) =~= spoke_error_fields(spoke@, tier@, error@));
    json::object_text(&fields)
}

/// What a probe of a spoke prints, and whether the process then fails.
#[derive(Debug)]
pub struct SpokeReport {
    pub line: String,
    pub failed: bool,
}

/// Reports a probe of a spoke: its result as it came, or the error with the spoke and its tier.
pub fn run_spoke_smoke(outcome: Result<String, String>, spoke: &str, tier: &str) -> (r: SpokeReport)
    ensures
        match outcome {
            Ok(result) => !r.failed && r.line@ == result@,
            Err(error) => r.failed && r.line@ == json::text_object(
                spoke_error_fields(spoke@, tier@, error@),
            ),
        },
{
    match outcome {
        Ok(result) => SpokeReport { line: result, failed: false },
        Err(error) => SpokeReport { line: spoke_error(spoke, tier, error.as_str()), failed: true },
    }
}

/// The line that reports a failed probe is an object with the status `error`, the spoke, its tier
/// and the error, each under its own name.
pub proof fn failed_probe_is_reported_in_full(spoke: Seq<char>, tier: Seq<char>, error: Seq<char>)
    ensures
        json::text_object(spoke_error_fields(spoke, tier, error)) == json::object_of(
            seq![
                ("status"@, json::json_string("error"@)),
                ("spoke"@, json::json_string(spoke)),
                ("tier"@, json::json_string(tier)),
                ("error"@, json::json_string(error)),
            ],
        ),
{
    let fields = spoke_error_fields(spoke, tier, error);
    json::text_object_has_its_fields(fields);
    assert(Seq::new(fields.len(), |i: int| (fields[i].0, json::json_string(fields[i].1))) =~= seq![
        ("status"@, json::json_string("error"@)),
        ("spoke"@, json::json_string(spoke)),
        ("tier"@, json::json_string(tier)),
        ("error"@, json::json_string(error)),
    ]);
}

} // verus!
