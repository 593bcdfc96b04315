//! Reading strings out of a JSON document.

use vstd::prelude::*;

verus! {

/// A JSON value of `serde_json`.
#[verifier::external_type_specification]
#[verifier::external_body]
pub struct ExValue(serde_json::Value);

/// The strings that stand in a document, by the names of the members that lead to them: a document
/// that is a string has it under no names at all; the strings of an object's member have the
/// member's name in front. A text that is no document has none of this.
pub uninterp spec fn document_strings(text: Seq<char>) -> Option<Map<Seq<Seq<char>>, Seq<char>>>;

/// The text is a JSON document.
pub open spec fn is_document(text: Seq<char>) -> bool {
    document_strings(text) is Some
}

/// The strings that stand in a value, by the names of the members that lead to them.
pub uninterp spec fn value_strings(value: serde_json::Value) -> Map<Seq<Seq<char>>, Seq<char>>;

/// Those of `strings` that are reached by `name` first, by the names after it.
pub open spec fn below(
    strings: Map<Seq<Seq<char>>, Seq<char>>,
    name: Seq<char>,
) -> Map<Seq<Seq<char>>, Seq<char>> {
    Map::new(
        |path: Seq<Seq<char>>| strings.contains_key(seq![name] + path),
        |path: Seq<Seq<char>>| strings[seq![name] + path],
    )
}

/// Parses `text` with `serde_json::from_str` into a `Value`. Claims that whether it parses, and what
/// the strings of the value are, depends on the text alone.
#[verifier::external_body]
fn parse(text: &str) -> (r: Option<serde_json::Value>)
    ensures
        r is Some == document_strings(text@) is Some,
        r is Some ==> document_strings(text@) == Some(value_strings(r->0)),
{
    serde_json::from_str(text).ok()
}

/// Looks a member up with `serde_json::Value::get`. Claims that the member has the strings that the
/// value has below the member's name, and that where there is no such member, or no object, there
/// are none.
#[verifier::external_body]
fn member<'a>(value: &'a serde_json::Value, name: &str) -> (r: Option<&'a serde_json::Value>)
    ensures
        (match r {
            Some(m) => value_strings(*m) == below(value_strings(*value), name@),
            None => below(value_strings(*value), name@) == Map::<
                Seq<Seq<char>>,
                Seq<char>,
            >::empty(),
        }),
{
    value.get(name)
}

/// Reads a string with `serde_json::Value::as_str`. Claims that a value that is a string has it
/// under no names at all, and that no other value has.
#[verifier::external_body]
fn as_text<'a>(value: &'a serde_json::Value) -> (r: Option<&'a str>)
    ensures
        r is Some == value_strings(*value).contains_key(Seq::empty()),
        r is Some ==> r->0@ == value_strings(*value)[Seq::empty()],
{
    value.as_str()
}

/// What a text holds in a certain place.
pub enum Lookup {
    /// The text is no JSON document.
    NoDocument,
    /// The document has no string in that place.
    Absent,
    /// This string.
    Found(String),
}

/// [`Lookup`], with its text as a sequence of characters.
pub enum LookupView {
    NoDocument,
    Absent,
    Found(Seq<char>),
}

impl View for Lookup {
    type V = LookupView;

    open spec fn view(&self) -> LookupView {
        match *self {
            Lookup::NoDocument => LookupView::NoDocument,
            Lookup::Absent => LookupView::Absent,
            Lookup::Found(s) => LookupView::Found(s@),
        }
    }
}

/// What `text` holds as member `inner` of its member `outer`.
pub open spec fn member_string(text: Seq<char>, outer: Seq<char>, inner: Seq<char>) -> LookupView {
    match document_strings(text) {
        None => LookupView::NoDocument,
        Some(strings) => if strings.contains_key(seq![outer, inner]) {
            LookupView::Found(strings[seq![outer, inner]])
        } else {
            LookupView::Absent
        },
    }
}

/// The string of member `inner` of member `outer` of the JSON document `text`, where `text` is one
/// and there is such a string.
pub fn string_at(text: &str, outer: &str, inner: &str) -> (r: Lookup)
    ensures
        r@ == member_string(text@, outer@, inner@),
{
    let ghost path = seq![outer@] + (seq![inner@] + Seq::<Seq<char>>::empty());
    assert(path =~= seq![outer@, inner@]);
    match parse(text) {
        None => Lookup::NoDocument,
        Some(value) => {
            let ghost all = value_strings(value);
            match member(&value, outer) {
                None => {
                    assert(!below(all, outer@).contains_key(
                        seq![inner@] + Seq::<Seq<char>>::empty(),
                    ));
                    Lookup::Absent
                },
                Some(middle) => match member(middle, inner) {
                    None => {
                        assert(!below(below(all, outer@), inner@).contains_key(Seq::empty()));
                        Lookup::Absent
                    },
                    Some(leaf) => match as_text(leaf) {
                        None => Lookup::Absent,
                        Some(s) => Lookup::Found(s.to_string()),
                    },
                },
            }
        },
    }
}

/// A string is found exactly where the document has one under the two names, the outer one first; a
/// text that is no document is told apart from a document without such a string.
pub proof fn law_a_string_is_found_under_its_names(
    text: Seq<char>,
    outer: Seq<char>,
    inner: Seq<char>,
    s: Seq<char>,
)
    ensures
        member_string(text, outer, inner) is NoDocument <==> document_strings(text) is None,
        member_string(text, outer, inner) == LookupView::Found(s) <==> document_strings(text) is Some
            && document_strings(text)->0.contains_key(seq![outer].push(inner))
            && document_strings(text)->0[seq![outer].push(inner)] == s,
{
    assert(seq![outer].push(inner) =~= seq![outer, inner]);
}

/// What was found is seen as it is, and nothing found is told apart from no document.
pub proof fn law_lookups_are_seen_whole(s: String)
    ensures
        Lookup::Found(s)@ == LookupView::Found(s@),
        Lookup::Absent@ is Absent,
        Lookup::NoDocument@ is NoDocument,
{
}

} // verus!
