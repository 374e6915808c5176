//! JSON documents as a tree of plain values.
//!
//! `serde_json` reads the bytes; everything that looks inside a document is
//! verified code over the `Json` tree.

use crate::text::{chars_of, parse_decimal, read_decimal, same_text};
use vstd::prelude::*;

verus! {

/// A JSON value.
///
/// A number holds the text that `serde_json` writes for it after reading it
/// into a 64-bit integer or, failing that, a float: `300` stays `300`, `1e2`
/// becomes `100.0`, and an integer beyond 64 bits becomes a float.
#[derive(Debug, PartialEq, Eq)]
pub enum Json {
    Null,
    Bool(bool),
    Number(String),
    Str(String),
    Array(Vec<Json>),
    Object(Vec<JsonField>),
}

/// One member of a JSON object.
#[derive(Debug, PartialEq, Eq)]
pub struct JsonField {
    pub name: String,
    pub value: Json,
}

/// What a `Json` holds.
pub enum JsonView {
    Null,
    Bool(bool),
    Number(Seq<char>),
    Str(Seq<char>),
    Array(Seq<JsonView>),
    Object(Seq<MemberView>),
}

/// What a `JsonField` holds.
pub struct MemberView {
    pub name: Seq<char>,
    pub value: JsonView,
}

impl View for Json {
    type V = JsonView;

    open spec fn view(&self) -> JsonView
        decreases self,
    {
        match self {
            Json::Null => JsonView::Null,
            Json::Bool(b) => JsonView::Bool(*b),
            Json::Number(n) => JsonView::Number(n@),
            Json::Str(s) => JsonView::Str(s@),
            Json::Array(items) => JsonView::Array(
                Seq::new(
                    items@.len(),
                    |i: int|
                        if 0 <= i < items@.len() {
                            items@[i].view()
                        } else {
                            JsonView::Null
                        },
                ),
            ),
            Json::Object(fields) => JsonView::Object(
                Seq::new(
                    fields@.len(),
                    |i: int|
                        if 0 <= i < fields@.len() {
                            MemberView { name: fields@[i].name@, value: fields@[i].value.view() }
                        } else {
                            MemberView { name: Seq::<char>::empty(), value: JsonView::Null }
                        },
                ),
            ),
        }
    }
}

/// The value of the first member at or after `from` that is named `key`.
pub open spec fn find_member(
    fields: Seq<MemberView>,
    key: Seq<char>,
    from: int,
) -> Option<JsonView>
    decreases fields.len() - from,
{
    if from < 0 || from >= fields.len() {
        None
    } else if fields[from].name == key {
        Some(fields[from].value)
    } else {
        find_member(fields, key, from + 1)
    }
}

impl JsonView {
    /// The member `key` of an object; `None` for a missing member and for anything but an object.
    pub open spec fn member(self, key: Seq<char>) -> Option<JsonView> {
        match self {
            JsonView::Object(fields) => find_member(fields, key, 0),
            _ => None,
        }
    }

    /// A member that is there and is not `null`.
    pub open spec fn present(self, key: Seq<char>) -> Option<JsonView> {
        match self.member(key) {
            Some(JsonView::Null) => None,
            other => other,
        }
    }

    /// The text of a string value.
    pub open spec fn text(self) -> Option<Seq<char>> {
        match self {
            JsonView::Str(s) => Some(s),
            _ => None,
        }
    }

    /// The elements of an array.
    pub open spec fn items(self) -> Option<Seq<JsonView>> {
        match self {
            JsonView::Array(items) => Some(items),
            _ => None,
        }
    }

    /// The value of a number written as plain decimal digits.
    pub open spec fn natural(self) -> Option<nat> {
        match self {
            JsonView::Number(digits) => parse_decimal(digits),
            _ => None,
        }
    }
}

/// The views of the elements of `items`, in order.
pub open spec fn views_of(items: Seq<Json>) -> Seq<JsonView> {
    Seq::new(items.len(), |i: int| items[i]@)
}

/// The views of the members `fields`, in order.
pub open spec fn members_of(fields: Seq<JsonField>) -> Seq<MemberView> {
    Seq::new(fields.len(), |i: int| MemberView { name: fields[i].name@, value: fields[i].value@ })
}

#[verifier::external_type_specification]
#[verifier::external_body]
pub struct ExValue(serde_json::Value);

/// The document that `serde_json` reads from `bytes`, or `None` where it reports an error.
pub uninterp spec fn json_document(bytes: Seq<u8>) -> Option<JsonView>;

/// Copies a `serde_json::Value` into a `Json`, variant by variant.
///
/// A number is rendered by `serde_json::Number`'s `Display`; the members of
/// an object come in the order in which `serde_json::Map` iterates.
#[verifier::external_body]
fn tree_of(value: &serde_json::Value) -> Json {
    match value {
        serde_json::Value::Null => Json::Null,
        serde_json::Value::Bool(b) => Json::Bool(*b),
        serde_json::Value::Number(n) => Json::Number(n.to_string()),
        serde_json::Value::String(s) => Json::Str(s.clone()),
        serde_json::Value::Array(items) => Json::Array(items.iter().map(tree_of).collect()),
        serde_json::Value::Object(members) => Json::Object(
            members.iter().map(|(k, v)| JsonField { name: k.clone(), value: tree_of(v) }).collect(),
        ),
    }
}

/// Calls `serde_json::from_slice` for a `serde_json::Value` and copies the result.
///
/// The parser reads nothing but the bytes, so its result is a function of
/// them alone; the contract gives that result its name.
#[verifier::external_body]
fn read_document(bytes: &[u8]) -> (doc: Option<Json>)
    ensures
        match doc {
            Some(d) => json_document(bytes@) == Some(d@),
            None => json_document(bytes@).is_none(),
        },
{
    match serde_json::from_slice::<serde_json::Value>(bytes) {
        Ok(value) => Some(tree_of(&value)),
        Err(_) => None,
    }
}

impl Json {
    /// Reads a JSON document; `None` where the bytes are not one.
    pub fn parse(bytes: &[u8]) -> (doc: Option<Json>)
        ensures
            match doc {
                Some(d) => json_document(bytes@) == Some(d@),
                None => json_document(bytes@).is_none(),
            },
    {
        read_document(bytes)
    }

    /// Looks up a member of an object.
    pub fn get(&self, key: &str) -> (out: Option<&Json>)
        ensures
            match out {
                Some(v) => self@.member(key@) == Some(v@),
                None => self@.member(key@).is_none(),
            },
    {
        match self {
            Json::Object(fields) => {
                let ghost members = members_of(fields@);
                assert(self@->Object_0 =~= members);
                let mut i: usize = 0;
                while i < fields.len()
                    invariant
                        i <= fields.len(),
                        members == members_of(fields@),
                        self@.member(key@) == find_member(members, key@, i as int),
                    decreases fields.len() - i,
                {
                    if same_text(fields[i].name.as_str(), key) {
                        return Some(&fields[i].value);
                    }
                    i += 1;
                }
                None
            },
            _ => None,
        }
    }

    /// Looks up a member of an object, taking `null` for a missing member.
    pub fn get_present(&self, key: &str) -> (out: Option<&Json>)
        ensures
            match out {
                Some(v) => self@.present(key@) == Some(v@),
                None => self@.present(key@).is_none(),
            },
    {
        match self.get(key) {
            Some(Json::Null) => None,
            other => other,
        }
    }

    /// The text of a string value.
    pub fn as_str(&self) -> (out: Option<&str>)
        ensures
            match out {
                Some(s) => self@.text() == Some(s@),
                None => self@.text().is_none(),
            },
    {
        match self {
            Json::Str(s) => Some(s.as_str()),
            _ => None,
        }
    }

    /// The elements of an array.
    pub fn as_array(&self) -> (out: Option<&Vec<Json>>)
        ensures
            match out {
                Some(items) => self@.items() == Some(views_of(items@)),
                None => self@.items().is_none(),
            },
    {
        match self {
            Json::Array(items) => {
                assert(self@.items()->0 =~= views_of(items@));
                Some(items)
            },
            _ => None,
        }
    }

    /// The value of a number written as plain decimal digits, if it fits in 64 bits.
    pub fn as_u64(&self) -> (out: Option<u64>)
        ensures
            out == match self@.natural() {
                Some(v) => if v <= u64::MAX { Some(v as u64) } else { None },
                None => None,
            },
    {
        match self {
            Json::Number(digits) => {
                let chars = chars_of(digits.as_str());
                assert(chars@.subrange(0, chars.len() as int) =~= chars@);
                read_decimal(&chars, 0, chars.len())
            },
            _ => None,
        }
    }

    /// A copy of the whole tree.
    pub fn duplicate(&self) -> (out: Json)
        ensures
            out@ == self@,
        decreases self,
    {
        match self {
            Json::Null => Json::Null,
            Json::Bool(b) => Json::Bool(*b),
            Json::Number(n) => Json::Number(n.clone()),
            Json::Str(s) => Json::Str(s.clone()),
            Json::Array(items) => {
                let mut copy: Vec<Json> = Vec::new();
                let mut i: usize = 0;
                while i < items.len()
                    invariant
                        i <= items.len(),
                        copy.len() == i,
                        *self == Json::Array(*items),
                        forall|k: int| 0 <= k < i ==> copy@[k]@ == items@[k]@,
                    decreases items.len() - i,
                {
                    proof {
                        vstd::std_specs::vec::axiom_vec_index_decreases(*items, i as int);
                        assert(decreases_to!(*self => self->Array_0));
                    }
                    let item = items[i].duplicate();
                    copy.push(item);
                    i += 1;
                }
                let out = Json::Array(copy);
                assert(out@->Array_0 =~= self@->Array_0);
                out
            },
            Json::Object(fields) => {
                let mut copy: Vec<JsonField> = Vec::new();
                let mut i: usize = 0;
                while i < fields.len()
                    invariant
                        i <= fields.len(),
                        copy.len() == i,
                        *self == Json::Object(*fields),
                        forall|k: int|
                            0 <= k < i ==> copy@[k].name@ == fields@[k].name@ && copy@[k].value@
                                == fields@[k].value@,
                    decreases fields.len() - i,
                {
                    proof {
                        vstd::std_specs::vec::axiom_vec_index_decreases(*fields, i as int);
                        assert(decreases_to!(*self => self->Object_0));
                        assert(decreases_to!(fields[i as int] => fields[i as int].value));
                    }
                    let value = fields[i].value.duplicate();
                    copy.push(JsonField { name: fields[i].name.clone(), value });
                    i += 1;
                }
                let out = Json::Object(copy);
                assert(out@->Object_0 =~= self@->Object_0);
                out
            },
        }
    }
}

} // verus!
