use vstd::prelude::*;

use crate::text;

verus! {

/// The top-level keys of a TOML document, each with whether it holds a table; `None` where the text
/// is no TOML.
pub uninterp spec fn toml_keys(text: Seq<char>) -> Option<Seq<(Seq<char>, bool)>>;

/// Keys with their marks, in their texts.
pub open spec fn marked(keys: Seq<(String, bool)>) -> Seq<(Seq<char>, bool)> {
    Seq::new(keys.len(), |i: int| (keys[i].0@, keys[i].1))
}

/// `toml::from_str` into a `Value`, the keys of its table, and `Value::is_table` of what they hold:
/// all of it is a function of the text. What it is on a given text is not stated.
#[verifier::external_body]
fn top_level_keys(text: &str) -> (r: Option<Vec<(String, bool)>>)
    ensures
        match r {
            Some(keys) => toml_keys(text@) == Some(marked(keys@)),
            None => toml_keys(text@) is None,
        },
{
    let table = toml::from_str::<toml::Value>(text).ok()?.as_table().cloned().unwrap_or_default();
    Some(table.into_iter().map(|(key, value)| (key, value.is_table())).collect())
}

/// Whether a manifest with these top-level keys is a composite: `composite` is one of them, and it
/// holds a table.
pub fn names_composite(keys: &Vec<(String, bool)>) -> (r: bool)
    ensures
        r == marked(keys@).contains(("composite"@, true)),
{
    let ghost all = marked(keys@);
    let mut i: usize = 0;
    while i < keys.len()
        invariant
            i <= keys@.len(),
            all == marked(keys@),
            forall|j: int| 0 <= j < i ==> (#[trigger] all[j]) != ("composite"@, true),
        decreases keys@.len() - i,
    {
        assert(all[i as int] == (keys@[i as int].0@, keys@[i as int].1));
        if keys[i].1 && text::same_text(keys[i].0.as_str(), "composite") {
            assert(all.contains(all[i as int]));
            return true;
        }
        i = i + 1;
    }
    false
}

/// Whether a manifest is a composite: TOML with a top-level `[composite]` table. It decides which
/// loader reads the manifest.
pub fn is_composite(manifest: &str) -> (r: bool)
    ensures
        r == (toml_keys(manifest@) matches Some(keys) && keys.contains(("composite"@, true))),
{
    match top_level_keys(manifest) {
        Some(keys) => names_composite(&keys),
        None => false,
    }
}

/// A key is marked as a composite's exactly where it is `composite` and holds a table.
pub proof fn composite_is_known_by_its_table(keys: Seq<(String, bool)>)
    ensures
        marked(keys).contains(("composite"@, true)) <==> exists|i: int|
            0 <= i < keys.len() && (#[trigger] keys[i]).0@ == "composite"@ && keys[i].1,
{
    let all = marked(keys);
    if all.contains(("composite"@, true)) {
        let i = choose|i: int| 0 <= i < all.len() && all[i] == ("composite"@, true);
        assert(keys[i].0@ == "composite"@);
    }
    if exists|i: int| 0 <= i < keys.len() && (#[trigger] keys[i]).0@ == "composite"@ && keys[i].1 {
        let i = choose|i: int|
            0 <= i < keys.len() && (#[trigger] keys[i]).0@ == "composite"@ && keys[i].1;
        assert(all[i] == ("composite"@, true));
    }
}

} // verus!
