//! JSON values as the library reads them. Parsing and printing are
//! `serde_json`'s work; looking members up and overlaying one object on
//! another is done here.

use vstd::prelude::*;
use crate::text::str_equal;

verus! {

/// A JSON value.
#[derive(Debug)]
pub enum Json {
    Null,
    Bool(bool),
    /// A number, as it is written.
    Number(String),
    Text(String),
    Array(Vec<Json>),
    /// The members, each key once.
    Object(Vec<(String, Json)>),
}

pub enum JsonView {
    Null,
    Bool(bool),
    Number(Seq<char>),
    Text(Seq<char>),
    Array(Seq<JsonView>),
    Object(Seq<(Seq<char>, JsonView)>),
}

/// The value that a `Json` stands for.
pub open spec fn view_of(value: Json) -> JsonView
    decreases value,
{
    match value {
        Json::Null => JsonView::Null,
        Json::Bool(b) => JsonView::Bool(b),
        Json::Number(n) => JsonView::Number(n@),
        Json::Text(s) => JsonView::Text(s@),
        Json::Array(items) => JsonView::Array(
            Seq::new(
                items.len() as nat,
                |i: int|
                    if 0 <= i < items.len() {
                        view_of(items[i])
                    } else {
                        JsonView::Null
                    },
            ),
        ),
        Json::Object(members) => JsonView::Object(
            Seq::new(
                members.len() as nat,
                |i: int|
                    if 0 <= i < members.len() {
                        (members[i].0@, view_of(members[i].1))
                    } else {
                        (Seq::empty(), JsonView::Null)
                    },
            ),
        ),
    }
}

impl DeepView for Json {
    type V = JsonView;

    open spec fn deep_view(&self) -> JsonView {
        view_of(*self)
    }
}

/// `serde_json::Value`, which values pass through on their way in and out.
#[verifier::external_type_specification]
#[verifier::external_body]
pub struct ExValue(serde_json::Value);

/// The value that `text` is the JSON of, or, where it is not JSON, the
/// complaint that `serde_json` makes about it.
pub uninterp spec fn json_of(text: Seq<char>) -> Result<JsonView, Seq<char>>;

/// The view of what reading a text gave.
pub open spec fn parsed_view(r: Result<Json, String>) -> Result<JsonView, Seq<char>> {
    match r {
        Ok(value) => Ok(value.deep_view()),
        Err(complaint) => Err(complaint@),
    }
}

/// The value as `serde_json` prints it with indentation.
pub uninterp spec fn pretty_text(value: JsonView) -> Seq<char>;

/// The value as `serde_json` prints it for debugging.
pub uninterp spec fn debug_text(value: JsonView) -> Seq<char>;

/// Turns a `serde_json::Value` into a `Json`, variant by variant: a number
/// becomes its text (`Number`'s `Display`), an object its members in the
/// order of `Map::iter`.
#[verifier::external_body]
fn from_value(value: &serde_json::Value) -> Json {
    match value {
        serde_json::Value::Null => Json::Null,
        serde_json::Value::Bool(b) => Json::Bool(*b),
        serde_json::Value::Number(n) => Json::Number(n.to_string()),
        serde_json::Value::String(s) => Json::Text(s.clone()),
        serde_json::Value::Array(items) => Json::Array(items.iter().map(from_value).collect()),
        serde_json::Value::Object(map) => Json::Object(
            map.iter().map(|(k, v)| (k.clone(), from_value(v))).collect(),
        ),
    }
}

/// Turns a `Json` into a `serde_json::Value`, variant by variant: a number's
/// text is read back by `serde_json::from_str`, and is `Null` where it is
/// not a number.
#[verifier::external_body]
fn to_value(value: &Json) -> serde_json::Value {
    match value {
        Json::Null => serde_json::Value::Null,
        Json::Bool(b) => serde_json::Value::Bool(*b),
        Json::Number(n) => serde_json::from_str(n).unwrap_or(serde_json::Value::Null),
        Json::Text(s) => serde_json::Value::String(s.clone()),
        Json::Array(items) => serde_json::Value::Array(items.iter().map(to_value).collect()),
        Json::Object(members) => serde_json::Value::Object(
            members.iter().map(|(k, v)| (k.clone(), to_value(v))).collect(),
        ),
    }
}

/// `serde_json::from_str` at the type `Value`: the value that `text` is the
/// JSON of, or the error's `Display` where `text` is not JSON. The result is
/// a function of the text alone.
#[verifier::external_body]
pub(crate) fn parse_json(text: &str) -> (r: Result<Json, String>)
    ensures
        parsed_view(r) == json_of(text@),
{
    match serde_json::from_str::<serde_json::Value>(text) {
        Ok(value) => Ok(from_value(&value)),
        Err(e) => Err(e.to_string()),
    }
}

/// `serde_json::to_string_pretty` of the value: its JSON text, indented.
#[verifier::external_body]
pub(crate) fn render_pretty(value: &Json) -> (r: String)
    ensures
        r@ == pretty_text(value.deep_view()),
{
    serde_json::to_string_pretty(&to_value(value)).unwrap_or_default()
}

/// The `Debug` form of the value as a `serde_json::Value`.
#[verifier::external_body]
pub(crate) fn render_debug(value: &Json) -> (r: String)
    ensures
        r@ == debug_text(value.deep_view()),
{
    format!("{:?}", to_value(value))
}

/// The value of the first member with the key `key`.
pub open spec fn lookup(members: Seq<(Seq<char>, JsonView)>, key: Seq<char>) -> Option<JsonView>
    decreases members.len(),
{
    if members.len() == 0 {
        None
    } else if members[0].0 == key {
        Some(members[0].1)
    } else {
        lookup(members.skip(1), key)
    }
}

/// The member `key` of an object; `None` for what is no object or has no such member.
pub open spec fn member(value: JsonView, key: Seq<char>) -> Option<JsonView> {
    match value {
        JsonView::Object(members) => lookup(members, key),
        _ => None,
    }
}

/// The item at `index` of an array; `None` for what is no array or is shorter.
pub open spec fn item(value: JsonView, index: nat) -> Option<JsonView> {
    match value {
        JsonView::Array(items) => if index < items.len() {
            Some(items[index as int])
        } else {
            None
        },
        _ => None,
    }
}

/// The text of a string value; `None` for any other value.
pub open spec fn as_text(value: JsonView) -> Option<Seq<char>> {
    match value {
        JsonView::Text(s) => Some(s),
        _ => None,
    }
}

/// The members with `key` set to `value`: in place where the key is there, at
/// the end where it is not.
pub open spec fn upsert(members: Seq<(Seq<char>, JsonView)>, key: Seq<char>, value: JsonView) -> Seq<
    (Seq<char>, JsonView),
>
    decreases members.len(),
{
    if members.len() == 0 {
        seq![(key, value)]
    } else if members[0].0 == key {
        seq![(key, value)] + members.skip(1)
    } else {
        seq![members[0]] + upsert(members.skip(1), key, value)
    }
}

/// The members with each member of `patch` set, in the order of the patch.
pub open spec fn overlay(
    members: Seq<(Seq<char>, JsonView)>,
    patch: Seq<(Seq<char>, JsonView)>,
) -> Seq<(Seq<char>, JsonView)>
    decreases patch.len(),
{
    if patch.len() == 0 {
        members
    } else {
        overlay(upsert(members, patch[0].0, patch[0].1), patch.skip(1))
    }
}

/// An object with the members of a patch laid over it, at the top level
/// only. Where either is no object, nothing changes.
pub open spec fn merged(current: JsonView, patch: JsonView) -> JsonView {
    match (current, patch) {
        (JsonView::Object(members), JsonView::Object(changes)) => JsonView::Object(
            overlay(members, changes),
        ),
        _ => current,
    }
}

/// After a key is set, looking it up gives the new value, and looking up any
/// other key gives what it gave before.
pub proof fn lemma_upsert_lookup(
    members: Seq<(Seq<char>, JsonView)>,
    key: Seq<char>,
    value: JsonView,
    other: Seq<char>,
)
    ensures
        lookup(upsert(members, key, value), key) == Some(value),
        other != key ==> lookup(upsert(members, key, value), other) == lookup(members, other),
        upsert(members, key, value).len() >= members.len(),
    decreases members.len(),
{
    let set = upsert(members, key, value);
    if members.len() == 0 {
        assert(set.skip(1) =~= members);
    } else if members[0].0 == key {
        assert(set.skip(1) =~= members.skip(1));
    } else {
        lemma_upsert_lookup(members.skip(1), key, value, other);
        assert(set.skip(1) =~= upsert(members.skip(1), key, value));
    }
}

/// The merge law. After a patch is laid over the members, a key of the patch
/// gives the value that the patch sets last for it, and any other key gives
/// what it gave before.
pub proof fn lemma_overlay_lookup(
    members: Seq<(Seq<char>, JsonView)>,
    patch: Seq<(Seq<char>, JsonView)>,
    key: Seq<char>,
)
    ensures
        lookup(patch.reverse(), key) is Some ==> lookup(overlay(members, patch), key) == lookup(
            patch.reverse(),
            key,
        ),
        lookup(patch.reverse(), key) is None ==> lookup(overlay(members, patch), key) == lookup(
            members,
            key,
        ),
    decreases patch.len(),
{
    if patch.len() > 0 {
        let next = upsert(members, patch[0].0, patch[0].1);
        lemma_upsert_lookup(members, patch[0].0, patch[0].1, key);
        lemma_overlay_lookup(next, patch.skip(1), key);
        lemma_lookup_reverse(patch, key);
    } else {
        assert(patch.reverse() =~= patch);
    }
}

/// Looking a key up from the back of a list looks at the first member last.
proof fn lemma_lookup_reverse(patch: Seq<(Seq<char>, JsonView)>, key: Seq<char>)
    requires
        patch.len() > 0,
    ensures
        lookup(patch.reverse(), key) == match lookup(patch.skip(1).reverse(), key) {
            Some(v) => Some(v),
            None => if patch[0].0 == key {
                Some(patch[0].1)
            } else {
                None
            },
        },
{
    let tail = patch.skip(1).reverse();
    assert(patch.reverse() =~= tail.push(patch[0]));
    lemma_lookup_push(tail, patch[0], key);
}

proof fn lemma_lookup_push(
    members: Seq<(Seq<char>, JsonView)>,
    last: (Seq<char>, JsonView),
    key: Seq<char>,
)
    ensures
        lookup(members.push(last), key) == match lookup(members, key) {
            Some(v) => Some(v),
            None => if last.0 == key {
                Some(last.1)
            } else {
                None
            },
        },
    decreases members.len(),
{
    let all = members.push(last);
    if members.len() == 0 {
        assert(all.skip(1) =~= members);
    } else {
        assert(all.skip(1) =~= members.skip(1).push(last));
        lemma_lookup_push(members.skip(1), last, key);
    }
}

impl Json {
    /// The members of an object, as the view holds them.
    pub proof fn lemma_object_view(members: Vec<(String, Json)>)
        ensures
            Json::Object(members).deep_view() == JsonView::Object(members.deep_view()),
    {
        let a = Json::Object(members).deep_view()->Object_0;
        assert(a.len() == members.len());
        assert forall|i: int| 0 <= i < members.len() implies a[i] == members.deep_view()[i] by {
            assert(a[i].0 == members[i].0@);
            assert(a[i].1 == members[i].1.deep_view());
            assert(a[i] == (members[i].0@, members[i].1.deep_view()));
            assert(members.deep_view()[i] == members[i].deep_view());
            assert(members[i].deep_view() == (members[i].0.deep_view(), members[i].1.deep_view()));
        }
        assert(a =~= members.deep_view());
    }

    /// The items of an array, as the view holds them.
    pub proof fn lemma_array_view(items: Vec<Json>)
        ensures
            Json::Array(items).deep_view() == JsonView::Array(items.deep_view()),
    {
        let a = Json::Array(items).deep_view()->Array_0;
        assert(a =~= items.deep_view());
    }

    /// The member `key` of an object.
    pub fn field(&self, key: &str) -> (r: Option<&Json>)
        ensures
            r.deep_view() == member(self.deep_view(), key@),
    {
        match self {
            Json::Object(members) => {
                proof {
                    Json::lemma_object_view(*members);
                }
                let ghost all = members.deep_view();
                let mut i: usize = 0;
                proof {
                    assert(all.skip(0) =~= all);
                }
                while i < members.len()
                    invariant
                        i <= members.len(),
                        all == members.deep_view(),
                        self.deep_view() == JsonView::Object(all),
                        lookup(all, key@) == lookup(all.skip(i as int), key@),
                    decreases members.len() - i,
                {
                    proof {
                        assert(all.skip(i as int)[0] == all[i as int]);
                        assert(all.skip(i as int).skip(1) =~= all.skip(i + 1));
                        assert(all[i as int] == members@[i as int].deep_view());
                        assert(members@[i as int].deep_view() == (
                            members@[i as int].0.deep_view(),
                            members@[i as int].1.deep_view(),
                        ));
                    }
                    if str_equal(members[i].0.as_str(), key) {
                        return Some(&members[i].1);
                    }
                    i += 1;
                }
                None
            },
            _ => None,
        }
    }

    /// The item at `index` of an array.
    pub fn item(&self, index: usize) -> (r: Option<&Json>)
        ensures
            r.deep_view() == item(self.deep_view(), index as nat),
    {
        match self {
            Json::Array(items) => {
                proof {
                    Json::lemma_array_view(*items);
                }
                if index < items.len() {
                    Some(&items[index])
                } else {
                    None
                }
            },
            _ => None,
        }
    }

    /// The text of a string value.
    pub fn as_text(&self) -> (r: Option<&str>)
        ensures
            r.deep_view() == as_text(self.deep_view()),
    {
        match self {
            Json::Text(s) => Some(s.as_str()),
            _ => None,
        }
    }

    /// Reads JSON text.
    pub fn parse(text: &str) -> (r: Result<Json, String>)
        ensures
            parsed_view(r) == json_of(text@),
    {
        parse_json(text)
    }

    /// The value as indented JSON text.
    pub fn to_pretty(&self) -> (r: String)
        ensures
            r@ == pretty_text(self.deep_view()),
    {
        render_pretty(self)
    }
}

/// Sets `key` to `value` among the members.
pub fn set_member(members: &mut Vec<(String, Json)>, key: String, value: Json)
    ensures
        final(members).deep_view() == upsert(old(members).deep_view(), key@, value.deep_view()),
{
    let ghost all = members.deep_view();
    let ghost entry = (key@, value.deep_view());
    let mut i: usize = 0;
    proof {
        assert(all.take(0) + upsert(all.skip(0), key@, value.deep_view()) =~= upsert(
            all,
            key@,
            value.deep_view(),
        )) by {
            assert(all.skip(0) =~= all);
        }
    }
    while i < members.len()
        invariant
            i <= members.len(),
            all == members.deep_view(),
            *members == *old(members),
            entry == (key@, value.deep_view()),
            upsert(all, key@, value.deep_view()) == all.take(i as int) + upsert(
                all.skip(i as int),
                key@,
                value.deep_view(),
            ),
        decreases members.len() - i,
    {
        proof {
            assert(all.skip(i as int)[0] == all[i as int]);
            assert(all.skip(i as int).skip(1) =~= all.skip(i + 1));
        }
        if str_equal(members[i].0.as_str(), key.as_str()) {
            members.set(i, (key, value));
            proof {
                assert(members.deep_view() =~= all.take(i as int) + (seq![entry] + all.skip(
                    i + 1,
                )));
            }
            return ;
        }
        proof {
            assert(all.take(i as int) + (seq![all[i as int]] + upsert(
                all.skip(i + 1),
                key@,
                value.deep_view(),
            )) =~= all.take(i + 1) + upsert(all.skip(i + 1), key@, value.deep_view()));
        }
        i += 1;
    }
    members.push((key, value));
    proof {
        assert(all.skip(all.len() as int) =~= Seq::empty());
        assert(members.deep_view() =~= all.take(all.len() as int) + seq![entry]);
    }
}

/// Lays a patch over a value: where both are objects, each member of the
/// patch is set in the value, at the top level only; else the value stays.
pub fn merge(current: Json, patch: Json) -> (r: Json)
    ensures
        r.deep_view() == merged(current.deep_view(), patch.deep_view()),
{
    match (current, patch) {
        (Json::Object(mut members), Json::Object(mut changes)) => {
            let ghost start = members.deep_view();
            let ghost all = changes.deep_view();
            proof {
                Json::lemma_object_view(members);
                Json::lemma_object_view(changes);
            }
            while changes.len() > 0
                invariant
                    overlay(start, all) == overlay(members.deep_view(), changes.deep_view()),
                decreases changes.len(),
            {
                let ghost before = changes.deep_view();
                let first = changes.remove(0);
                proof {
                    assert(changes.deep_view() =~= before.skip(1));
                    assert(before[0] == (first.0@, first.1.deep_view()));
                }
                set_member(&mut members, first.0, first.1);
            }
            proof {
                Json::lemma_object_view(members);
            }
            Json::Object(members)
        },
        (current, _) => current,
    }
}

} // verus!
