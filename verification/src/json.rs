use vstd::prelude::*;

use crate::numeral;
use crate::text;

verus! {

/// Why a text is no JSON document.
#[verifier::external_type_specification]
#[verifier::external_body]
pub struct ExJsonError(serde_json::Error);

/// What kind of JSON value a member holds.
#[derive(Clone, Debug)]
pub enum JsonKind {
    Null,
    Bool,
    /// With the number itself where it is an unsigned 64-bit integer.
    Number { unsigned: Option<u64> },
    Text { value: String },
    Array,
    Object,
}

/// One member of a JSON object: its key, its value as compact JSON, and the kind of the value.
#[derive(Clone, Debug)]
pub struct Member {
    pub key: String,
    pub json: String,
    pub kind: JsonKind,
}

/// A kind, in its texts.
pub enum KindModel {
    Null,
    Bool,
    Number(Option<u64>),
    Text(Seq<char>),
    Array,
    Object,
}

/// A member, in its texts.
pub struct MemberModel {
    pub key: Seq<char>,
    pub json: Seq<char>,
    pub kind: KindModel,
}

impl View for JsonKind {
    type V = KindModel;

    open spec fn view(&self) -> KindModel {
        match *self {
            JsonKind::Null => KindModel::Null,
            JsonKind::Bool => KindModel::Bool,
            JsonKind::Number { unsigned } => KindModel::Number(unsigned),
            JsonKind::Text { value } => KindModel::Text(value@),
            JsonKind::Array => KindModel::Array,
            JsonKind::Object => KindModel::Object,
        }
    }
}

impl View for Member {
    type V = MemberModel;

    open spec fn view(&self) -> MemberModel {
        MemberModel { key: self.key@, json: self.json@, kind: self.kind@ }
    }
}

/// A list of members, in their texts.
pub open spec fn members_model(members: Seq<Member>) -> Seq<MemberModel> {
    Seq::new(members.len(), |i: int| members[i]@)
}

/// The JSON document in a text: its members where it is an object, `Some(None)` where it is not,
/// and `None` where the text is no JSON.
pub uninterp spec fn json_document(text: Seq<char>) -> Option<Option<Seq<MemberModel>>>;

/// The JSON document in a byte string, in the same way.
pub uninterp spec fn json_document_of_bytes(bytes: Seq<u8>) -> Option<Option<Seq<MemberModel>>>;

/// The members of a document: one that is no object has none.
pub open spec fn members_within(document: Option<Seq<MemberModel>>) -> Seq<MemberModel> {
    match document {
        Some(members) => members,
        None => Seq::empty(),
    }
}

/// The members of the JSON document in a text; `None` where the text is no JSON.
pub open spec fn json_members(text: Seq<char>) -> Option<Seq<MemberModel>> {
    match json_document(text) {
        Some(document) => Some(members_within(document)),
        None => None,
    }
}

/// The members of the JSON document in a byte string, in the same way.
pub open spec fn json_members_of_bytes(bytes: Seq<u8>) -> Option<Seq<MemberModel>> {
    match json_document_of_bytes(bytes) {
        Some(document) => Some(members_within(document)),
        None => None,
    }
}

/// A document, in its texts.
pub open spec fn document_model(document: Option<Vec<Member>>) -> Option<Seq<MemberModel>> {
    match document {
        Some(members) => Some(members_model(members@)),
        None => None,
    }
}

/// A character inside a JSON string: quotes, backslashes and control characters are escaped, and
/// nothing else.
pub open spec fn json_char(c: char) -> Seq<char> {
    let code = c as int;
    if c == '"' || c == '\\' {
        seq!['\\', c]
    } else if code == 8 {
        seq!['\\', 'b']
    } else if code == 9 {
        seq!['\\', 't']
    } else if code == 10 {
        seq!['\\', 'n']
    } else if code == 12 {
        seq!['\\', 'f']
    } else if code == 13 {
        seq!['\\', 'r']
    } else if code < 32 {
        seq!['\\', 'u', '0', '0', numeral::digit(code / 16), numeral::digit(code % 16)]
    } else {
        seq![c]
    }
}

/// The characters of a text inside a JSON string.
pub open spec fn json_chars(s: Seq<char>) -> Seq<char>
    decreases s.len(),
{
    if s.len() == 0 {
        Seq::empty()
    } else {
        json_chars(s.drop_last()) + json_char(s.last())
    }
}

/// A text as a JSON string, with its quotes.
pub open spec fn json_string(s: Seq<char>) -> Seq<char> {
    seq!['"'] + json_chars(s) + seq!['"']
}

/// `key` and `value` as a member of a JSON object.
pub open spec fn text_member(field: (Seq<char>, Seq<char>)) -> Seq<char> {
    json_string(field.0) + ":"@ + json_string(field.1)
}

/// A JSON object whose values are all strings, in compact form.
pub open spec fn text_object(fields: Seq<(Seq<char>, Seq<char>)>) -> Seq<char> {
    "{"@ + text::join(Seq::new(fields.len(), |i: int| text_member(fields[i])), ","@) + "}"@
}

/// No key twice.
pub open spec fn distinct_keys(fields: Seq<(Seq<char>, Seq<char>)>) -> bool {
    forall|i: int, j: int| 0 <= i < j < fields.len() ==> fields[i].0 != fields[j].0
}

/// No key twice, and none that begins with a dollar sign: of such a key the parser may take the
/// object for something else.
pub open spec fn plain_fields(fields: Seq<(Seq<char>, Seq<char>)>) -> bool {
    &&& distinct_keys(fields)
    &&& forall|i: int|
        0 <= i < fields.len() && (#[trigger] fields[i]).0.len() > 0 ==> fields[i].0[0] != '$'
}

/// Whether the members are the fields, each a string.
pub open spec fn are_texts(
    members: Seq<MemberModel>,
    fields: Seq<(Seq<char>, Seq<char>)>,
) -> bool {
    &&& members.len() == fields.len()
    &&& forall|i: int|
        0 <= i < fields.len() ==> (#[trigger] members[i]).key == fields[i].0 && members[i].kind
            == KindModel::Text(fields[i].1)
}

/// What was written as an object of strings is read as one.
pub open spec fn text_objects_read_back(
    text: Seq<char>,
    read: Result<Option<Vec<Member>>, serde_json::Error>,
) -> bool {
    forall|fields: Seq<(Seq<char>, Seq<char>)>|
        plain_fields(fields) && text == #[trigger] text_object(fields) ==> (read matches Ok(
            Some(members),
        ) && are_texts(members_model(members@), fields))
}

/// `serde_json::from_str` into a `Value`: whether the document is an object, and its members in the
/// order in which they stand, are a function of the text. Of a compact object of strings, without a repeated key or one
/// that begins with a dollar sign, the strings come back. What other documents hold is not stated.
#[verifier::external_body]
fn read_text(text: &str) -> (r: Result<Option<Vec<Member>>, serde_json::Error>)
    ensures
        match r {
            Ok(document) => json_document(text@) == Some(document_model(document)),
            Err(_) => json_document(text@) is None,
        },
        text_objects_read_back(text@, r),
{
    let value: serde_json::Value = serde_json::from_str(text)?;
    let serde_json::Value::Object(map) = value else { return Ok(None) };
    Ok(Some(map.into_iter().map(|(key, v)| Member {
        json: v.to_string(),
        kind: match v {
            serde_json::Value::Null => JsonKind::Null,
            serde_json::Value::Bool(_) => JsonKind::Bool,
            serde_json::Value::Number(n) => JsonKind::Number { unsigned: n.as_u64() },
            serde_json::Value::String(value) => JsonKind::Text { value },
            serde_json::Value::Array(_) => JsonKind::Array,
            serde_json::Value::Object(_) => JsonKind::Object,
        },
        key,
    }).collect()))
}

/// `serde_json::from_slice` into a `Value`: whether the document is an object, and its members in
/// the order in which they stand, are a function of the bytes. What they are on given bytes is not stated.
#[verifier::external_body]
fn read_bytes(bytes: &Vec<u8>) -> (r: Result<Option<Vec<Member>>, serde_json::Error>)
    ensures
        match r {
            Ok(document) => json_document_of_bytes(bytes@) == Some(document_model(document)),
            Err(_) => json_document_of_bytes(bytes@) is None,
        },
{
    let value: serde_json::Value = serde_json::from_slice(bytes)?;
    let serde_json::Value::Object(map) = value else { return Ok(None) };
    Ok(Some(map.into_iter().map(|(key, v)| Member {
        json: v.to_string(),
        kind: match v {
            serde_json::Value::Null => JsonKind::Null,
            serde_json::Value::Bool(_) => JsonKind::Bool,
            serde_json::Value::Number(n) => JsonKind::Number { unsigned: n.as_u64() },
            serde_json::Value::String(value) => JsonKind::Text { value },
            serde_json::Value::Array(_) => JsonKind::Array,
            serde_json::Value::Object(_) => JsonKind::Object,
        },
        key,
    }).collect()))
}

/// The members of a document that was read.
pub fn members_of(document: Option<Vec<Member>>) -> (r: Vec<Member>)
    ensures
        members_model(r@) == members_within(document_model(document)),
{
    match document {
        Some(members) => members,
        None => {
            let none: Vec<Member> = Vec::new();
            assert(members_model(none@) =~= Seq::empty());
            none
        },
    }
}

/// Reads the members of the JSON document in a text.
pub(crate) fn parse_text(text: &str) -> (r: Result<Vec<Member>, serde_json::Error>)
    ensures
        match r {
            Ok(members) => json_members(text@) == Some(members_model(members@)),
            Err(_) => json_members(text@) is None,
        },
        forall|fields: Seq<(Seq<char>, Seq<char>)>|
            plain_fields(fields) && text@ == #[trigger] text_object(fields) ==> (r matches Ok(members)
                && are_texts(members_model(members@), fields)),
{
    match read_text(text) {
        Ok(document) => Ok(members_of(document)),
        Err(error) => Err(error),
    }
}

/// Reads the members of the JSON document in a byte string.
pub(crate) fn parse_bytes(bytes: &Vec<u8>) -> (r: Result<Vec<Member>, serde_json::Error>)
    ensures
        match r {
            Ok(members) => json_members_of_bytes(bytes@) == Some(members_model(members@)),
            Err(_) => json_members_of_bytes(bytes@) is None,
        },
{
    match read_bytes(bytes) {
        Ok(document) => Ok(members_of(document)),
        Err(error) => Err(error),
    }
}

/// `serde_json::Value`'s `Display`, of a string: the text between quotes, with quotes, backslashes
/// and control characters escaped, a control character without a letter of its own by its code in
/// lower-case hexadecimal.
#[verifier::external_body]
pub(crate) fn string_text(s: &str) -> (r: String)
    ensures
        r@ == json_string(s@),
{
    serde_json::Value::from(s).to_string()
}

/// A JSON object of the given strings, in their order.
pub fn object_text(fields: &Vec<(String, String)>) -> (r: String)
    ensures
        r@ == text_object(text::pairs(fields@)),
{
    let ghost all = text::pairs(fields@);
    let ghost rendered = Seq::new(all.len(), |i: int| text_member(all[i]));
    let mut parts: Vec<String> = Vec::new();
    let mut i: usize = 0;
    while i < fields.len()
        invariant
            i <= fields@.len(),
            all == text::pairs(fields@),
            rendered == Seq::new(all.len(), |i: int| text_member(all[i])),
            parts@.len() == i,
            forall|j: int| 0 <= j < i ==> (#[trigger] parts@[j])@ == rendered[j],
        decreases fields@.len() - i,
    {
        let key = string_text(fields[i].0.as_str());
        let value = string_text(fields[i].1.as_str());
        parts.push(text::concat3(key.as_str(), ":", value.as_str()));
        assert(parts@[i as int]@ == rendered[i as int]);
        i = i + 1;
    }
    assert(text::texts(parts@) =~= rendered);
    text::concat3("{", text::join_with(&parts, ",").as_str(), "}")
}

/// The first member with the key.
pub open spec fn lookup(members: Seq<MemberModel>, key: Seq<char>) -> Option<MemberModel>
    decreases members.len(),
{
    if members.len() == 0 {
        None
    } else if members[0].key == key {
        Some(members[0])
    } else {
        lookup(members.drop_first(), key)
    }
}

/// Finds the member with the key.
pub fn find_member<'a>(members: &'a Vec<Member>, key: &str) -> (r: Option<&'a Member>)
    ensures
        match r {
            Some(member) => lookup(members_model(members@), key@) == Some(member@),
            None => lookup(members_model(members@), key@) is None,
        },
{
    let ghost all = members_model(members@);
    let mut i: usize = 0;
    assert(all.skip(0) == all);
    while i < members.len()
        invariant
            i <= members@.len(),
            all == members_model(members@),
            lookup(all, key@) == lookup(all.skip(i as int), key@),
        decreases members@.len() - i,
    {
        assert(all.skip(i as int)[0] == members@[i as int]@);
        assert(all.skip(i as int).drop_first() == all.skip(i + 1));
        if text::same_text(members[i].key.as_str(), key) {
            return Some(&members[i]);
        }
        i = i + 1;
    }
    None
}

/// In an object of strings, a field is found under its key.
pub proof fn field_is_found(
    members: Seq<MemberModel>,
    fields: Seq<(Seq<char>, Seq<char>)>,
    i: int,
)
    requires
        are_texts(members, fields),
        distinct_keys(fields),
        0 <= i < fields.len(),
    ensures
        lookup(members, fields[i].0) == Some(members[i]),
        members[i].kind == KindModel::Text(fields[i].1),
    decreases i,
{
    if i > 0 {
        assert(members[0].key == fields[0].0);
        let rest = members.drop_first();
        let later = fields.drop_first();
        assert(are_texts(rest, later)) by {
            assert forall|k: int| 0 <= k < later.len() implies (#[trigger] rest[k]).key == later[k].0
                && rest[k].kind == KindModel::Text(later[k].1) by {
                assert(rest[k] == members[k + 1]);
            }
        }
        field_is_found(rest, later, i - 1);
    }
}

/// A lookup finds the first member with the key, and fails exactly where no member has it.
pub proof fn lookup_finds_the_first(members: Seq<MemberModel>, key: Seq<char>)
    ensures
        match lookup(members, key) {
            Some(member) => member.key == key && exists|i: int|
                0 <= i < members.len() && member == #[trigger] members[i] && forall|k: int|
                    0 <= k < i ==> (#[trigger] members[k]).key != key,
            None => forall|i: int| 0 <= i < members.len() ==> (#[trigger] members[i]).key != key,
        },
    decreases members.len(),
{
    if members.len() > 0 {
        let rest = members.drop_first();
        if members[0].key == key {
            assert(members[0] == lookup(members, key)->0);
        } else {
            lookup_finds_the_first(rest, key);
            match lookup(rest, key) {
                Some(member) => {
                    let i = choose|i: int|
                        0 <= i < rest.len() && member == #[trigger] rest[i] && forall|k: int|
                            0 <= k < i ==> (#[trigger] rest[k]).key != key;
                    assert(members[i + 1] == member);
                    assert forall|k: int| 0 <= k < i + 1 implies (#[trigger] members[k]).key
                        != key by {
                        if k > 0 {
                            assert(rest[k - 1].key != key);
                        }
                    }
                },
                None => {
                    assert forall|i: int| 0 <= i < members.len() implies (
                    #[trigger] members[i]).key != key by {
                        if i > 0 {
                            assert(rest[i - 1].key != key);
                        }
                    }
                },
            }
        }
    }
}

/// A member that comes first under its key is the one that a lookup finds.
pub proof fn first_member_is_found(members: Seq<MemberModel>, key: Seq<char>, i: int)
    requires
        0 <= i < members.len(),
        members[i].key == key,
        forall|k: int| 0 <= k < i ==> (#[trigger] members[k]).key != key,
    ensures
        lookup(members, key) == Some(members[i]),
    decreases i,
{
    if i > 0 {
        assert(members[0].key != key);
        let rest = members.drop_first();
        assert forall|k: int| 0 <= k < i - 1 implies (#[trigger] rest[k]).key != key by {
            assert(members[k + 1].key != key);
        }
        first_member_is_found(rest, key, i - 1);
    }
}

/// A text is escaped character by character.
pub proof fn escapes_go_by_characters(a: Seq<char>, b: Seq<char>)
    ensures
        json_chars(a + b) == json_chars(a) + json_chars(b),
    decreases b.len(),
{
    if b.len() == 0 {
        assert(a + b == a);
        assert(json_chars(a) + json_chars(b) == json_chars(a));
    } else {
        let init = b.drop_last();
        escapes_go_by_characters(a, init);
        assert((a + b).drop_last() == a + init);
        assert((a + b).last() == b.last());
        assert(json_chars(a) + json_chars(init) + json_char(b.last()) == json_chars(a) + (json_chars(
            init,
        ) + json_char(b.last())));
    }
}

/// A character that a JSON string holds as it is.
pub open spec fn unescaped(c: char) -> bool {
    c != '"' && c != '\\' && c >= ' '
}

/// A text without quotes, backslashes and control characters stands between the quotes as it is.
pub proof fn plain_text_is_only_quoted(s: Seq<char>)
    requires
        forall|i: int| 0 <= i < s.len() ==> unescaped(#[trigger] s[i]),
    ensures
        json_string(s) == seq!['"'] + s + seq!['"'],
{
    lemma_plain_chars(s);
}

proof fn lemma_plain_chars(s: Seq<char>)
    requires
        forall|i: int| 0 <= i < s.len() ==> unescaped(#[trigger] s[i]),
    ensures
        json_chars(s) == s,
    decreases s.len(),
{
    if s.len() == 0 {
        assert(s == Seq::<char>::empty());
    } else {
        let init = s.drop_last();
        assert forall|i: int| 0 <= i < init.len() implies unescaped(#[trigger] init[i]) by {
            assert(init[i] == s[i]);
        }
        lemma_plain_chars(init);
        assert(unescaped(s[s.len() - 1]));
        assert(json_char(s.last()) == seq![s.last()]);
        assert(init + seq![s.last()] =~= s);
    }
}

/// No quote, backslash or control character stands bare in a JSON string: each becomes a backslash
/// with more behind it.
pub proof fn special_characters_are_escaped(c: char)
    requires
        !unescaped(c),
    ensures
        json_chars(seq![c]).len() >= 2,
        json_chars(seq![c])[0] == '\\',
        forall|i: int| 1 <= i < json_chars(seq![c]).len() ==> (#[trigger] json_chars(seq![c])[i]) >= ' ',
{
    lemma_one_char(c);
}

proof fn lemma_one_char(c: char)
    ensures
        json_chars(seq![c]) == json_char(c),
{
    assert(seq![c].drop_last() == Seq::<char>::empty());
    assert(json_chars(Seq::<char>::empty()) == Seq::<char>::empty());
    assert(Seq::<char>::empty() + json_char(c) == json_char(c));
}

/// The escape of one character does not begin that of another.
proof fn lemma_escapes_differ(c: char, d: char, x: Seq<char>, y: Seq<char>)
    requires
        json_char(c) + x == json_char(d) + y,
    ensures
        c == d,
        x == y,
{
    let p = json_char(c) + x;
    let q = json_char(d) + y;
    let a = json_char(c);
    let b = json_char(d);
    assert(p[0] == a[0] && q[0] == b[0]);
    if a.len() > 1 && b.len() > 1 {
        assert(p[1] == a[1] && q[1] == b[1]);
        if a.len() == 6 && b.len() == 6 {
            assert(p[4] == a[4] && q[4] == b[4]);
            assert(p[5] == a[5] && q[5] == b[5]);
            assert(c as int == d as int);
        }
    }
    assert(c == d);
    assert(p.skip(a.len() as int) == x);
    assert(q.skip(a.len() as int) == y);
}

/// Different texts are different JSON strings: nothing is lost in the escapes.
pub proof fn json_string_is_injective(a: Seq<char>, b: Seq<char>)
    requires
        json_string(a) == json_string(b),
    ensures
        a == b,
{
    let ja = json_string(a);
    let jb = json_string(b);
    assert(ja.subrange(1, ja.len() - 1) == json_chars(a));
    assert(jb.subrange(1, jb.len() - 1) == json_chars(b));
    lemma_chars_injective(a, b);
}

proof fn lemma_chars_injective(a: Seq<char>, b: Seq<char>)
    requires
        json_chars(a) == json_chars(b),
    ensures
        a == b,
    decreases a.len(),
{
    if a.len() > 0 {
        escapes_go_by_characters(seq![a[0]], a.drop_first());
        assert(seq![a[0]] + a.drop_first() == a);
        lemma_one_char(a[0]);
        assert(json_chars(a).len() > 0);
        if b.len() > 0 {
            escapes_go_by_characters(seq![b[0]], b.drop_first());
            assert(seq![b[0]] + b.drop_first() == b);
            lemma_one_char(b[0]);
            lemma_escapes_differ(
                a[0],
                b[0],
                json_chars(a.drop_first()),
                json_chars(b.drop_first()),
            );
            lemma_chars_injective(a.drop_first(), b.drop_first());
        }
    } else if b.len() > 0 {
        escapes_go_by_characters(seq![b[0]], b.drop_first());
        assert(seq![b[0]] + b.drop_first() == b);
        lemma_one_char(b[0]);
        assert(json_chars(b).len() > 0);
    }
    assert(a =~= b);
}

/// A compact JSON object of the given members, each a key and its value as JSON.
pub open spec fn object_of(members: Seq<(Seq<char>, Seq<char>)>) -> Seq<char>
    decreases members.len(),
{
    if members.len() == 0 {
        "{}"@
    } else {
        let member = json_string(members.last().0) + ":"@ + members.last().1;
        if members.len() == 1 {
            "{"@ + member + "}"@
        } else {
            object_of(members.drop_last()).drop_last() + ","@ + member + "}"@
        }
    }
}

/// An object of strings has its fields as members, in their order, each value a JSON string.
pub proof fn text_object_has_its_fields(fields: Seq<(Seq<char>, Seq<char>)>)
    ensures
        text_object(fields) == object_of(
            Seq::new(fields.len(), |i: int| (fields[i].0, json_string(fields[i].1))),
        ),
    decreases fields.len(),
{
    let members = Seq::new(fields.len(), |i: int| (fields[i].0, json_string(fields[i].1)));
    let rendered = Seq::new(fields.len(), |i: int| text_member(fields[i]));
    reveal_strlit("{");
    reveal_strlit("}");
    reveal_strlit("{}");
    if fields.len() == 0 {
        assert(text::join(rendered, ","@) == Seq::<char>::empty());
        assert(text_object(fields) =~= "{}"@);
    } else {
        let init = fields.drop_last();
        let before = Seq::new(init.len(), |i: int| text_member(init[i]));
        text_object_has_its_fields(init);
        assert(rendered.drop_last() =~= before);
        assert(rendered.last() == text_member(fields.last()));
        assert(members.drop_last() =~= Seq::new(
            init.len(),
            |i: int| (init[i].0, json_string(init[i].1)),
        ));
        assert(members.last() == (fields.last().0, json_string(fields.last().1)));
        if fields.len() > 1 {
            assert(text_object(init).drop_last() =~= "{"@ + text::join(before, ","@));
            assert(text_object(fields) =~= "{"@ + text::join(before, ","@) + ","@ + text_member(
                fields.last(),
            ) + "}"@);
        }
    }
}

/// One more member stands behind a comma, before the closing brace.
pub proof fn lemma_object_grows(
    members: Seq<(Seq<char>, Seq<char>)>,
    key: Seq<char>,
    value: Seq<char>,
)
    ensures
        object_of(seq![(key, value)]) == "{"@ + json_string(key) + ":"@ + value + "}"@,
        members.len() > 0 ==> object_of(members.push((key, value))) == object_of(members).drop_last()
            + ","@ + json_string(key) + ":"@ + value + "}"@,
{
    let member = json_string(key) + ":"@ + value;
    assert(seq![(key, value)].last() == (key, value));
    assert("{"@ + member + "}"@ =~= "{"@ + json_string(key) + ":"@ + value + "}"@);
    if members.len() > 0 {
        let more = members.push((key, value));
        assert(more.drop_last() == members);
        assert(more.last() == (key, value));
        let before = object_of(members).drop_last();
        assert(before + ","@ + member + "}"@ =~= before + ","@ + json_string(key) + ":"@ + value
            + "}"@);
    }
}

/// A document that is no object has no members, and a text that is no document has none to speak of.
pub proof fn only_objects_have_members(text: Seq<char>, bytes: Seq<u8>)
    ensures
        match json_document(text) {
            Some(Some(members)) => json_members(text) == Some(members),
            Some(None) => json_members(text) == Some(Seq::<MemberModel>::empty()),
            None => json_members(text) is None,
        },
        match json_document_of_bytes(bytes) {
            Some(Some(members)) => json_members_of_bytes(bytes) == Some(members),
            Some(None) => json_members_of_bytes(bytes) == Some(Seq::<MemberModel>::empty()),
            None => json_members_of_bytes(bytes) is None,
        },
{
}

/// A member is spoken of by its key, its value and its kind, a string by what it holds.
pub proof fn members_are_seen_as_they_are(
    member: Member,
    members: Seq<Member>,
    i: int,
    value: String,
    unsigned: Option<u64>,
)
    ensures
        member@.key == member.key@,
        member@.json == member.json@,
        member@.kind == member.kind@,
        members_model(members).len() == members.len(),
        0 <= i < members.len() ==> members_model(members)[i] == members[i]@,
        (JsonKind::Text { value })@ == KindModel::Text(value@),
        (JsonKind::Number { unsigned })@ == KindModel::Number(unsigned),
        JsonKind::Null@ == KindModel::Null,
        JsonKind::Bool@ == KindModel::Bool,
        JsonKind::Array@ == KindModel::Array,
        JsonKind::Object@ == KindModel::Object,
{
}

} // verus!
