use vstd::prelude::*;

use opentelemetry::propagation::TextMapPropagator;
use opentelemetry::trace::TraceContextExt;

use crate::text;

verus! {

/// The parent of a span in another process.
#[derive(Debug)]
pub struct RemoteParent {
    pub trace_id: u128,
    pub span_id: u64,
    pub sampled: bool,
    pub remote: bool,
    /// The vendors' state, as the header that carries it.
    pub trace_state: String,
}

/// A parent, in its texts.
pub struct ParentModel {
    pub trace_id: u128,
    pub span_id: u64,
    pub sampled: bool,
    pub remote: bool,
    pub trace_state: Seq<char>,
}

impl View for RemoteParent {
    type V = ParentModel;

    open spec fn view(&self) -> ParentModel {
        ParentModel {
            trace_id: self.trace_id,
            span_id: self.span_id,
            sampled: self.sampled,
            remote: self.remote,
            trace_state: self.trace_state@,
        }
    }
}

/// Neither id is zero.
pub open spec fn valid(parent: ParentModel) -> bool {
    parent.trace_id != 0 && parent.span_id != 0
}

/// What a W3C trace context says, given its two carrier values; the empty context where it cannot
/// be read.
pub uninterp spec fn w3c_context(
    traceparent: Seq<char>,
    tracestate: Option<Seq<char>>,
) -> ParentModel;

/// The texts behind an optional reference.
pub open spec fn str_opt(s: Option<&str>) -> Option<Seq<char>> {
    match s {
        Some(t) => Some(t@),
        None => None,
    }
}

/// `TraceContextPropagator::extract_with_context` of opentelemetry_sdk, from an empty context: the
/// span context that comes out is a function of the two carrier values, and one with both ids is
/// always remote. How the values are read is not stated.
#[verifier::external_body]
fn read_w3c(traceparent: &str, tracestate: Option<&str>) -> (r: RemoteParent)
    ensures
        r@ == w3c_context(traceparent@, str_opt(tracestate)),
        valid(r@) ==> r.remote,
{
    let mut carrier = std::collections::HashMap::new();
    carrier.insert("traceparent".to_string(), traceparent.to_string());
    carrier.extend(tracestate.map(|state| ("tracestate".to_string(), state.to_string())));
    let context = opentelemetry_sdk::propagation::TraceContextPropagator::new()
        .extract_with_context(&opentelemetry::Context::new(), &carrier);
    let span = context.span().span_context().clone();
    RemoteParent {
        trace_id: u128::from_be_bytes(span.trace_id().to_bytes()),
        span_id: u64::from_be_bytes(span.span_id().to_bytes()),
        sampled: span.is_sampled(),
        remote: span.is_remote(),
        trace_state: span.trace_state().header(),
    }
}

/// A carrier value, unless it is blank.
pub open spec fn unless_blank(value: Option<Seq<char>>) -> Option<Seq<char>> {
    match value {
        Some(text) if !text::blank(text) => Some(text),
        _ => None,
    }
}

/// The parent that the carrier values name: none where the first is missing, blank or invalid.
pub open spec fn parent_from(
    traceparent: Option<Seq<char>>,
    tracestate: Option<Seq<char>>,
) -> Option<ParentModel> {
    match unless_blank(traceparent) {
        Some(value) => if valid(w3c_context(value, unless_blank(tracestate))) {
            Some(w3c_context(value, unless_blank(tracestate)))
        } else {
            None
        },
        None => None,
    }
}

/// A context that was read, unless it is invalid.
pub fn accept_parent(parent: RemoteParent) -> (r: Option<RemoteParent>)
    ensures
        match r {
            Some(accepted) => valid(parent@) && accepted == parent,
            None => !valid(parent@),
        },
{
    if parent.trace_id != 0 && parent.span_id != 0 {
        Some(parent)
    } else {
        None
    }
}

/// The remote parent that the carrier values name. What cannot be read is no error: the span is
/// then a root.
pub fn extract_parent(traceparent: &Option<String>, tracestate: &Option<String>) -> (r: Option<
    RemoteParent,
>)
    ensures
        match r {
            Some(parent) => parent_from(text::text_opt(*traceparent), text::text_opt(*tracestate))
                == Some(parent@) && parent.remote,
            None => parent_from(text::text_opt(*traceparent), text::text_opt(*tracestate)) is None,
        },
{
    let value = match traceparent {
        Some(value) => value,
        None => return None,
    };
    if text::is_blank(value.as_str()) {
        return None;
    }
    let state: Option<&str> = match tracestate {
        Some(state) => if text::is_blank(state.as_str()) {
            None
        } else {
            Some(state.as_str())
        },
        None => None,
    };
    accept_parent(read_w3c(value.as_str(), state))
}

/// A trace context as its two carrier values.
#[derive(Debug)]
pub struct Carrier {
    pub traceparent: Option<String>,
    pub tracestate: Option<String>,
}

impl Carrier {
    pub open spec fn parent(self) -> Option<ParentModel> {
        parent_from(text::text_opt(self.traceparent), text::text_opt(self.tracestate))
    }
}

/// Where a tool call's parent can come from: the request's own metadata, its HTTP headers, the
/// file that the engine writes for each turn, the environment of the process.
#[derive(Debug)]
pub struct TraceSources {
    pub meta: Carrier,
    pub header: Carrier,
    pub turn: Carrier,
    pub env: Carrier,
}

/// The parent of a tool call: the most specific source that names a valid one.
pub open spec fn parent_of_call(sources: TraceSources) -> Option<ParentModel> {
    match sources.meta.parent() {
        Some(parent) => Some(parent),
        None => match sources.header.parent() {
            Some(parent) => Some(parent),
            None => match sources.turn.parent() {
                Some(parent) => Some(parent),
                None => sources.env.parent(),
            },
        },
    }
}

/// The parent of a tool call. Without one the call's span is a root.
pub fn parent_context(sources: &TraceSources) -> (r: Option<RemoteParent>)
    ensures
        match r {
            Some(parent) => parent_of_call(*sources) == Some(parent@) && parent.remote,
            None => parent_of_call(*sources) is None,
        },
{
    match extract_parent(&sources.meta.traceparent, &sources.meta.tracestate) {
        Some(parent) => return Some(parent),
        None => {},
    }
    match extract_parent(&sources.header.traceparent, &sources.header.tracestate) {
        Some(parent) => return Some(parent),
        None => {},
    }
    match extract_parent(&sources.turn.traceparent, &sources.turn.tracestate) {
        Some(parent) => return Some(parent),
        None => {},
    }
    extract_parent(&sources.env.traceparent, &sources.env.tracestate)
}

/// The request's own metadata counts before every other source, and a blank source does not count.
pub proof fn metadata_is_the_source_of_truth(sources: TraceSources)
    ensures
        sources.meta.parent() is Some ==> parent_of_call(sources) == sources.meta.parent(),
        unless_blank(text::text_opt(sources.meta.traceparent)) is None && sources.header.parent() is Some
            ==> parent_of_call(sources) == sources.header.parent(),
{
}

/// A parent that is found has both its ids.
pub proof fn found_parent_is_valid(traceparent: Option<Seq<char>>, tracestate: Option<Seq<char>>)
    ensures
        parent_from(traceparent, tracestate) matches Some(parent) ==> valid(parent),
        traceparent is None ==> parent_from(traceparent, tracestate) is None,
{
}

/// The parent comes from the first source, in the order metadata, header, turn and environment, that
/// names a valid one; where none does, there is none.
pub proof fn most_specific_source_counts(sources: TraceSources, i: int)
    requires
        0 <= i < 4,
    ensures
        ({
            let all = seq![sources.meta, sources.header, sources.turn, sources.env];
            &&& all[i].parent() is Some && (forall|k: int|
                0 <= k < i ==> (#[trigger] all[k]).parent() is None) ==> parent_of_call(sources)
                == all[i].parent()
            &&& (forall|k: int| 0 <= k < 4 ==> (#[trigger] all[k]).parent() is None)
                ==> parent_of_call(sources) is None
        }),
{
    let all = seq![sources.meta, sources.header, sources.turn, sources.env];
    if all[i].parent() is Some && (forall|k: int|
        0 <= k < i ==> (#[trigger] all[k]).parent() is None) {
        assert(i > 0 ==> all[0].parent() is None);
        assert(i > 1 ==> all[1].parent() is None);
        assert(i > 2 ==> all[2].parent() is None);
    }
    if forall|k: int| 0 <= k < 4 ==> (#[trigger] all[k]).parent() is None {
        assert(all[0].parent() is None);
        assert(all[1].parent() is None);
        assert(all[2].parent() is None);
        assert(all[3].parent() is None);
    }
}

/// A carrier names the parent that its two values are read as, exactly where neither id is zero; a
/// blank state counts as none, and without the first value there is no parent.
pub proof fn carrier_names_what_it_is_read_as(
    traceparent: Seq<char>,
    tracestate: Seq<char>,
    blank: Seq<char>,
    state: Option<Seq<char>>,
)
    requires
        !text::blank(traceparent),
        !text::blank(tracestate),
        text::blank(blank),
    ensures
        ({
            let bare = w3c_context(traceparent, None);
            let full = w3c_context(traceparent, Some(tracestate));
            &&& parent_from(Some(traceparent), None) == (if bare.trace_id != 0 && bare.span_id != 0 {
                Some(bare)
            } else {
                None
            })
            &&& parent_from(Some(traceparent), Some(tracestate)) == (if full.trace_id != 0
                && full.span_id != 0 {
                Some(full)
            } else {
                None
            })
            &&& parent_from(Some(traceparent), Some(blank)) == parent_from(Some(traceparent), None)
            &&& parent_from(Some(blank), state) is None
            &&& parent_from(None, state) is None
        }),
{
}

/// A parent is spoken of by all that it holds.
pub proof fn parents_are_seen_as_they_are(parent: RemoteParent)
    ensures
        parent@.trace_id == parent.trace_id,
        parent@.span_id == parent.span_id,
        parent@.sampled == parent.sampled,
        parent@.remote == parent.remote,
        parent@.trace_state == parent.trace_state@,
{
}

} // verus!
