use vstd::prelude::*;

use crate::json;
use crate::json::{JsonKind, KindModel, Member, MemberModel};
use crate::text;

verus! {

/// The most characters that an attribute of a span may have.
pub const ATTR_VALUE_MAX: usize = 256;

/// The first characters of a value, as many as an attribute may have.
pub open spec fn capped(s: Seq<char>) -> Seq<char> {
    if s.len() <= ATTR_VALUE_MAX {
        s
    } else {
        s.take(ATTR_VALUE_MAX as int)
    }
}

/// Caps the value of an attribute.
pub fn cap_attr(s: String) -> (r: String)
    ensures
        r@ == capped(s@),
{
    let chars = text::chars_of(s.as_str());
    if chars.len() <= ATTR_VALUE_MAX {
        s
    } else {
        let r = text::text_between(&chars, 0, ATTR_VALUE_MAX);
        assert(r@ == s@.take(ATTR_VALUE_MAX as int));
        r
    }
}

/// A capped value is a prefix of the value, within the limit, and a short value is left alone.
pub proof fn capped_value_is_a_bounded_prefix(s: Seq<char>)
    ensures
        capped(s).len() <= ATTR_VALUE_MAX,
        capped(s).is_prefix_of(s),
        s.len() <= ATTR_VALUE_MAX ==> capped(s) == s,
        capped(capped(s)) == capped(s),
{
    assert(capped(s) == s.subrange(0, capped(s).len() as int));
}

/// A JSON scalar as the value of an attribute; empty for what is no scalar.
pub open spec fn scalar(member: MemberModel) -> Seq<char> {
    match member.kind {
        KindModel::Text(value) => value,
        KindModel::Bool => member.json,
        KindModel::Number(_) => member.json,
        _ => Seq::empty(),
    }
}

/// A JSON scalar as the value of an attribute.
pub fn scalar_string(member: &Member) -> (r: String)
    ensures
        r@ == scalar(member@),
{
    match &member.kind {
        JsonKind::Text { value } => value.clone(),
        JsonKind::Bool => member.json.clone(),
        JsonKind::Number { .. } => member.json.clone(),
        _ => String::new(),
    }
}

/// The attribute that a member of a reply becomes, unless it is missing or says nothing.
pub open spec fn attr(members: Seq<MemberModel>, key: Seq<char>) -> Seq<(Seq<char>, Seq<char>)> {
    match json::lookup(members, key) {
        Some(member) if scalar(member).len() > 0 => seq![(key, capped(scalar(member)))],
        _ => Seq::empty(),
    }
}

/// Whether a reply reports a failure.
pub open spec fn reports_failure(members: Seq<MemberModel>) -> bool {
    json::lookup(members, "status"@) matches Some(member) && (member.kind == KindModel::Text(
        "error"@,
    ) || member.kind == KindModel::Text("job_failed"@))
}

/// The attributes of a reply: the outcome, then the fields that prove it, then the mark of a
/// failure. Nothing else of the reply is recorded.
pub open spec fn member_attrs(members: Seq<MemberModel>) -> Seq<(Seq<char>, Seq<char>)> {
    attr(members, "status"@) + attr(members, "digest"@) + attr(members, "tree_hash"@) + attr(
        members,
        "mode"@,
    ) + attr(members, "cached"@) + (if reports_failure(members) {
        seq![("otel.status_code"@, "ERROR"@)]
    } else {
        Seq::empty()
    })
}

fn push_attr(list: &mut Vec<(String, String)>, members: &Vec<Member>, key: &str)
    ensures
        text::pairs(final(list)@) == text::pairs(old(list)@) + attr(
            json::members_model(members@),
            key@,
        ),
{
    match json::find_member(members, key) {
        Some(member) => {
            let value = scalar_string(member);
            if value.as_str().unicode_len() > 0 {
                list.push((key.to_owned(), cap_attr(value)));
                assert(text::pairs(list@) =~= text::pairs(old(list)@) + attr(
                    json::members_model(members@),
                    key@,
                ));
            } else {
                assert(text::pairs(list@) =~= text::pairs(old(list)@) + Seq::empty());
            }
        },
        None => {
            assert(text::pairs(list@) =~= text::pairs(old(list)@) + Seq::empty());
        },
    }
}

/// The attributes of a reply with these members.
pub fn attrs_of_members(members: &Vec<Member>) -> (r: Vec<(String, String)>)
    ensures
        text::pairs(r@) == member_attrs(json::members_model(members@)),
{
    let mut out: Vec<(String, String)> = Vec::new();
    let ghost all = json::members_model(members@);
    assert(text::pairs(out@) =~= Seq::empty());
    push_attr(&mut out, members, "status");
    assert(text::pairs(out@) =~= attr(all, "status"@));
    push_attr(&mut out, members, "digest");
    push_attr(&mut out, members, "tree_hash");
    push_attr(&mut out, members, "mode");
    push_attr(&mut out, members, "cached");
    let ghost before = text::pairs(out@);
    let failed = match json::find_member(members, "status") {
        Some(member) => match &member.kind {
            JsonKind::Text { value } => text::same_text(value.as_str(), "error")
                || text::same_text(value.as_str(), "job_failed"),
            _ => false,
        },
        None => false,
    };
    if failed {
        out.push(("otel.status_code".to_owned(), "ERROR".to_owned()));
        assert(text::pairs(out@) =~= before + seq![("otel.status_code"@, "ERROR"@)]);
    } else {
        assert(before + Seq::empty() =~= before);
    }
    out
}

/// What the attributes of a reply are: none where the reply is no JSON.
pub open spec fn text_attrs(text: Seq<char>) -> Seq<(Seq<char>, Seq<char>)> {
    match json::json_members(text) {
        Some(members) => member_attrs(members),
        None => Seq::empty(),
    }
}

/// Whether the attributes of every reply that is an object of strings are those of its fields.
pub open spec fn attrs_of_fields(text: Seq<char>, attrs: Seq<(Seq<char>, Seq<char>)>) -> bool {
    forall|fields: Seq<(Seq<char>, Seq<char>)>|
        json::plain_fields(fields) && text == #[trigger] json::text_object(fields) ==> exists|
            members: Seq<MemberModel>,
        | #[trigger] json::are_texts(members, fields) && attrs == member_attrs(members)
}

/// The attributes of a tool's reply. Of a reply that the broker wrote as an object of strings they
/// are those of its fields.
pub fn reply_attrs(reply: &str) -> (r: Vec<(String, String)>)
    ensures
        text::pairs(r@) == text_attrs(reply@),
        attrs_of_fields(reply@, text::pairs(r@)),
{
    match json::parse_text(reply) {
        Ok(members) => {
            let out = attrs_of_members(&members);
            assert(attrs_of_fields(reply@, text::pairs(out@))) by {
                assert forall|fields: Seq<(Seq<char>, Seq<char>)>|
                    json::plain_fields(fields) && reply@ == #[trigger] json::text_object(
                        fields,
                    ) implies exists|members: Seq<MemberModel>| #[trigger] json::are_texts(
                    members,
                    fields,
                ) && text::pairs(out@) == member_attrs(members) by {
                    assert(json::are_texts(json::members_model(members@), fields));
                }
            }
            out
        },
        Err(_) => {
            let out: Vec<(String, String)> = Vec::new();
            assert(text::pairs(out@) =~= Seq::empty());
            out
        },
    }
}

/// How a tool call ended.
pub enum CallOutcome {
    /// With a reply, whose first part is text or is not.
    Complete { first_text: Option<String> },
    /// In some other way than with a reply.
    Other,
    ProtocolError { message: String },
}

/// The attributes of an outcome.
pub open spec fn outcome_model(outcome: CallOutcome) -> Seq<(Seq<char>, Seq<char>)> {
    match outcome {
        CallOutcome::Complete { first_text: Some(text) } => text_attrs(text@),
        CallOutcome::ProtocolError { message } => seq![
            ("otel.status_code"@, "ERROR"@),
            ("status"@, capped("protocol_error: "@ + message@)),
        ],
        _ => Seq::empty(),
    }
}

/// What is recorded of a tool call when it has ended. A protocol error marks the span as failed.
pub fn record_outcome(outcome: &CallOutcome) -> (r: Vec<(String, String)>)
    ensures
        text::pairs(r@) == outcome_model(*outcome),
{
    match outcome {
        CallOutcome::Complete { first_text } => match first_text {
            Some(text) => reply_attrs(text.as_str()),
            None => {
                let out: Vec<(String, String)> = Vec::new();
                assert(text::pairs(out@) =~= Seq::empty());
                out
            },
        },
        CallOutcome::Other => {
            let out: Vec<(String, String)> = Vec::new();
            assert(text::pairs(out@) =~= Seq::empty());
            out
        },
        CallOutcome::ProtocolError { message } => {
            let mut out: Vec<(String, String)> = Vec::new();
            out.push(("otel.status_code".to_owned(), "ERROR".to_owned()));
            let status = cap_attr(text::concat2("protocol_error: ", message.as_str()));
            out.push(("status".to_owned(), status));
            assert(text::pairs(out@) =~= outcome_model(*outcome));
            out
        },
    }
}

/// The name a tool call's span is exported under.
pub fn span_name(tool: &str) -> (r: String)
    ensures
        r@ == "mcp."@ + tool@,
{
    text::concat2("mcp.", tool)
}

/// Only the listed attributes are ever recorded, each within the limit.
pub proof fn recorded_attributes_are_listed(members: Seq<MemberModel>, i: int)
    requires
        0 <= i < member_attrs(members).len(),
    ensures
        ({
            let (key, value) = member_attrs(members)[i];
            &&& key == "status"@ || key == "digest"@ || key == "tree_hash"@ || key == "mode"@ || key
                == "cached"@ || key == "otel.status_code"@
            &&& 0 < value.len() <= ATTR_VALUE_MAX
        }),
{
    reveal_strlit("ERROR");
    let a = attr(members, "status"@);
    let b = a + attr(members, "digest"@);
    let c = b + attr(members, "tree_hash"@);
    let d = c + attr(members, "mode"@);
    let e = d + attr(members, "cached"@);
    let all = member_attrs(members);
    if i < a.len() {
        assert(all[i] == a[i]);
    } else if i < b.len() {
        assert(all[i] == attr(members, "digest"@)[i - a.len()]);
    } else if i < c.len() {
        assert(all[i] == attr(members, "tree_hash"@)[i - b.len()]);
    } else if i < d.len() {
        assert(all[i] == attr(members, "mode"@)[i - c.len()]);
    } else if i < e.len() {
        assert(all[i] == attr(members, "cached"@)[i - d.len()]);
    } else {
        assert(all[i] == ("otel.status_code"@, "ERROR"@));
    }
}

/// The reply to a failed request is recorded as the outcome `error`, marked as a failure; the
/// message itself is not recorded.
pub proof fn error_reply_is_recorded_as_failure(members: Seq<MemberModel>, message: Seq<char>)
    requires
        json::are_texts(members, seq![("status"@, "error"@), ("error"@, message)]),
    ensures
        member_attrs(members) == seq![
            ("status"@, "error"@),
            ("otel.status_code"@, "ERROR"@),
        ],
{
    let fields = seq![("status"@, "error"@), ("error"@, message)];
    reveal_strlit("status");
    reveal_strlit("error");
    reveal_strlit("digest");
    reveal_strlit("tree_hash");
    reveal_strlit("mode");
    reveal_strlit("cached");
    assert("status"@[0] == 's' && "error"@[0] == 'e' && "digest"@[0] == 'd' && "tree_hash"@[0] == 't'
        && "mode"@[0] == 'm' && "cached"@[0] == 'c');
    assert(json::distinct_keys(fields));
    json::field_is_found(members, fields, 0);
    assert(members[0].key == fields[0].0 && members[1].key == fields[1].0);
    lemma_only_two(members, "digest"@);
    lemma_only_two(members, "tree_hash"@);
    lemma_only_two(members, "mode"@);
    lemma_only_two(members, "cached"@);
    assert(scalar(members[0]) == "error"@);
    assert(member_attrs(members) =~= seq![("status"@, "error"@), ("otel.status_code"@, "ERROR"@)]);
}

proof fn lemma_only_two(members: Seq<MemberModel>, key: Seq<char>)
    requires
        members.len() == 2,
        members[0].key != key,
        members[1].key != key,
    ensures
        json::lookup(members, key) is None,
{
    let rest = members.drop_first();
    assert(rest[0] == members[1]);
    assert(json::lookup(rest.drop_first(), key) is None);
    assert(json::lookup(rest, key) is None);
}

/// The first 256 characters of a value are kept, and all of a shorter one.
pub proof fn capped_value_keeps_what_fits(s: Seq<char>, i: int)
    ensures
        capped(s).len() == (if s.len() < 256 {
            s.len()
        } else {
            256
        }),
        0 <= i < capped(s).len() ==> capped(s)[i] == s[i],
{
}

/// The five keys of a reply that are recorded.
pub open spec fn recorded_key(key: Seq<char>) -> bool {
    key == "status"@ || key == "digest"@ || key == "tree_hash"@ || key == "mode"@ || key == "cached"@
}

proof fn lemma_keys_differ()
    ensures
        "status"@.len() == 6,
        "digest"@.len() == 6,
        "cached"@.len() == 6,
        "status"@[0] == 's',
        "digest"@[0] == 'd',
        "cached"@[0] == 'c',
        "tree_hash"@.len() == 9,
        "mode"@.len() == 4,
        "otel.status_code"@.len() == 16,
{
    reveal_strlit("status");
    reveal_strlit("digest");
    reveal_strlit("cached");
    reveal_strlit("tree_hash");
    reveal_strlit("mode");
    reveal_strlit("otel.status_code");
}

/// A member under one of the recorded keys is recorded exactly where it is a string, a boolean or a
/// number that is not empty: a string as it is, anything else as JSON, the first 256 characters of
/// it. Members under other keys are not recorded.
pub proof fn scalars_under_recorded_keys_are_recorded(
    members: Seq<MemberModel>,
    key: Seq<char>,
    value: Seq<char>,
)
    requires
        key != "otel.status_code"@,
    ensures
        member_attrs(members).contains((key, value)) <==> {
            &&& recorded_key(key)
            &&& json::lookup(members, key) matches Some(member) && {
                let whole = match member.kind {
                    KindModel::Text(text) => text,
                    KindModel::Bool => member.json,
                    KindModel::Number(_) => member.json,
                    KindModel::Null => Seq::empty(),
                    KindModel::Array => Seq::empty(),
                    KindModel::Object => Seq::empty(),
                };
                &&& whole.len() > 0
                &&& value == (if whole.len() <= 256 {
                    whole
                } else {
                    whole.take(256)
                })
            }
        },
{
    lemma_keys_differ();
    lemma_attr_contains(members, "status"@, key, value);
    lemma_attr_contains(members, "digest"@, key, value);
    lemma_attr_contains(members, "tree_hash"@, key, value);
    lemma_attr_contains(members, "mode"@, key, value);
    lemma_attr_contains(members, "cached"@, key, value);
    lemma_attrs_contain(members, (key, value));
}

proof fn lemma_attr_contains(
    members: Seq<MemberModel>,
    name: Seq<char>,
    key: Seq<char>,
    value: Seq<char>,
)
    ensures
        attr(members, name).contains((key, value)) <==> key == name && (json::lookup(members, name)
            matches Some(member) && scalar(member).len() > 0 && value == capped(scalar(member))),
{
    let list = attr(members, name);
    if key == name && (json::lookup(members, name) matches Some(member) && scalar(member).len() > 0
        && value == capped(scalar(member))) {
        assert(list[0] == (key, value));
    }
}

/// What is recorded of a reply, piece by piece.
proof fn lemma_attrs_contain(members: Seq<MemberModel>, entry: (Seq<char>, Seq<char>))
    ensures
        member_attrs(members).contains(entry) <==> {
            ||| attr(members, "status"@).contains(entry)
            ||| attr(members, "digest"@).contains(entry)
            ||| attr(members, "tree_hash"@).contains(entry)
            ||| attr(members, "mode"@).contains(entry)
            ||| attr(members, "cached"@).contains(entry)
            ||| reports_failure(members) && entry == ("otel.status_code"@, "ERROR"@)
        },
{
    let a = attr(members, "status"@);
    let b = attr(members, "digest"@);
    let c = attr(members, "tree_hash"@);
    let d = attr(members, "mode"@);
    let e = attr(members, "cached"@);
    let f = if reports_failure(members) {
        seq![("otel.status_code"@, "ERROR"@)]
    } else {
        Seq::empty()
    };
    lemma_concat_contains(a, b, entry);
    lemma_concat_contains(a + b, c, entry);
    lemma_concat_contains(a + b + c, d, entry);
    lemma_concat_contains(a + b + c + d, e, entry);
    lemma_concat_contains(a + b + c + d + e, f, entry);
    if reports_failure(members) && entry == ("otel.status_code"@, "ERROR"@) {
        assert(f[0] == entry);
    }
}

proof fn lemma_concat_contains(
    a: Seq<(Seq<char>, Seq<char>)>,
    b: Seq<(Seq<char>, Seq<char>)>,
    entry: (Seq<char>, Seq<char>),
)
    ensures
        (a + b).contains(entry) <==> a.contains(entry) || b.contains(entry),
{
    if a.contains(entry) {
        let i = choose|i: int| 0 <= i < a.len() && a[i] == entry;
        assert((a + b)[i] == entry);
    }
    if b.contains(entry) {
        let i = choose|i: int| 0 <= i < b.len() && b[i] == entry;
        assert((a + b)[a.len() + i] == entry);
    }
}

/// A reply is marked as a failure exactly where its status is the string `error` or `job_failed`.
pub proof fn failed_replies_are_marked(members: Seq<MemberModel>)
    ensures
        member_attrs(members).contains(("otel.status_code"@, "ERROR"@)) <==> (json::lookup(
            members,
            "status"@,
        ) matches Some(member) && (member.kind == KindModel::Text("error"@) || member.kind
            == KindModel::Text("job_failed"@))),
{
    lemma_keys_differ();
    let entry = ("otel.status_code"@, "ERROR"@);
    lemma_attr_contains(members, "status"@, entry.0, entry.1);
    lemma_attr_contains(members, "digest"@, entry.0, entry.1);
    lemma_attr_contains(members, "tree_hash"@, entry.0, entry.1);
    lemma_attr_contains(members, "mode"@, entry.0, entry.1);
    lemma_attr_contains(members, "cached"@, entry.0, entry.1);
    lemma_attrs_contain(members, entry);
}

/// A call that ended in an error of the protocol is marked as a failure, with the message behind
/// `protocol_error: ` as its status; one that ended otherwise than with text records nothing; and
/// text that is JSON is recorded by its members, other text not at all.
pub proof fn every_outcome_is_recorded(outcome: CallOutcome)
    ensures
        match outcome {
            CallOutcome::ProtocolError { message } => {
                let status = "protocol_error: "@ + message@;
                outcome_model(outcome) == seq![
                    ("otel.status_code"@, "ERROR"@),
                    (
                        "status"@,
                        if status.len() <= 256 {
                            status
                        } else {
                            status.take(256)
                        },
                    ),
                ]
            },
            CallOutcome::Other => outcome_model(outcome).len() == 0,
            CallOutcome::Complete { first_text: None } => outcome_model(outcome).len() == 0,
            CallOutcome::Complete { first_text: Some(text) } => match json::json_document(text@) {
                Some(Some(members)) => outcome_model(outcome) == member_attrs(members),
                Some(None) => outcome_model(outcome).len() == 0,
                None => outcome_model(outcome).len() == 0,
            },
        },
{
    if let CallOutcome::Complete { first_text: Some(text) } = outcome {
        if json::json_document(text@) == Some(None::<Seq<MemberModel>>) {
            assert(json::lookup(Seq::empty(), "status"@) is None);
            assert(json::lookup(Seq::empty(), "digest"@) is None);
            assert(json::lookup(Seq::empty(), "tree_hash"@) is None);
            assert(json::lookup(Seq::empty(), "mode"@) is None);
            assert(json::lookup(Seq::empty(), "cached"@) is None);
        }
    }
}

/// The place of a key among the attributes.
pub open spec fn rank(key: Seq<char>) -> int {
    if key == "status"@ {
        0
    } else if key == "digest"@ {
        1
    } else if key == "tree_hash"@ {
        2
    } else if key == "mode"@ {
        3
    } else if key == "cached"@ {
        4
    } else {
        5
    }
}

spec fn ranked_below(list: Seq<(Seq<char>, Seq<char>)>, n: int) -> bool {
    &&& forall|i: int| 0 <= i < list.len() ==> rank((#[trigger] list[i]).0) < n
    &&& forall|i: int, j: int|
        0 <= i < j < list.len() ==> rank((#[trigger] list[i]).0) < rank((#[trigger] list[j]).0)
}

proof fn lemma_ranked(
    list: Seq<(Seq<char>, Seq<char>)>,
    more: Seq<(Seq<char>, Seq<char>)>,
    n: int,
)
    requires
        ranked_below(list, n),
        more.len() <= 1,
        more.len() == 1 ==> rank(more[0].0) == n,
    ensures
        ranked_below(list + more, n + 1),
{
    let whole = list + more;
    assert forall|i: int| 0 <= i < whole.len() implies rank((#[trigger] whole[i]).0) < n + 1 by {
        if i < list.len() {
            assert(rank(list[i].0) < n);
        }
    }
    assert forall|i: int, j: int| 0 <= i < j < whole.len() implies rank((#[trigger] whole[i]).0)
        < rank((#[trigger] whole[j]).0) by {
        assert(rank(list[i].0) < n);
        if j < list.len() {
            assert(rank(list[i].0) < rank(list[j].0));
        }
    }
}

/// The attributes come in a fixed order, the outcome first and the mark of a failure last, and none
/// comes twice.
pub proof fn attributes_come_once_and_in_order(members: Seq<MemberModel>, i: int, j: int)
    requires
        0 <= i < j < member_attrs(members).len(),
    ensures
        rank(member_attrs(members)[i].0) < rank(member_attrs(members)[j].0),
{
    lemma_keys_differ();
    let a = attr(members, "status"@);
    let b = attr(members, "digest"@);
    let c = attr(members, "tree_hash"@);
    let d = attr(members, "mode"@);
    let e = attr(members, "cached"@);
    let f = if reports_failure(members) {
        seq![("otel.status_code"@, "ERROR"@)]
    } else {
        Seq::empty()
    };
    let none = Seq::<(Seq<char>, Seq<char>)>::empty();
    assert(ranked_below(none, 0));
    lemma_ranked(none, a, 0);
    assert(none + a == a);
    lemma_ranked(a, b, 1);
    lemma_ranked(a + b, c, 2);
    lemma_ranked(a + b + c, d, 3);
    lemma_ranked(a + b + c + d, e, 4);
    lemma_ranked(a + b + c + d + e, f, 5);
    assert(member_attrs(members) == a + b + c + d + e + f);
}

} // verus!
