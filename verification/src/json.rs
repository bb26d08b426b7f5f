//! JSON values as plain data, and the readers and writers that `serde_json`
//! provides for them.
use vstd::prelude::*;

use crate::text::same;

verus! {

/// A JSON value. A number is an integer, or else the text of its decimal form.
#[derive(Debug, PartialEq)]
pub enum Json {
    Null,
    Bool(bool),
    Int(i128),
    Float(String),
    Text(String),
    List(Vec<Json>),
    Object(Vec<(String, Json)>),
}

/// What a JSON value says.
pub enum JsonTree {
    Null,
    Bool(bool),
    Int(int),
    Float(Seq<char>),
    Text(Seq<char>),
    List(Seq<JsonTree>),
    Object(Seq<(Seq<char>, JsonTree)>),
}

pub open spec fn tree(j: Json) -> JsonTree
    decreases j,
{
    match j {
        Json::Null => JsonTree::Null,
        Json::Bool(b) => JsonTree::Bool(b),
        Json::Int(n) => JsonTree::Int(n as int),
        Json::Float(t) => JsonTree::Float(t@),
        Json::Text(t) => JsonTree::Text(t@),
        Json::List(items) => JsonTree::List(trees(items@)),
        Json::Object(members) => JsonTree::Object(entries(members@)),
    }
}

pub open spec fn trees(items: Seq<Json>) -> Seq<JsonTree>
    decreases items,
{
    if items.len() == 0 {
        Seq::empty()
    } else {
        trees(items.drop_last()).push(tree(items.last()))
    }
}

pub open spec fn entries(members: Seq<(String, Json)>) -> Seq<(Seq<char>, JsonTree)>
    decreases members,
{
    if members.len() == 0 {
        Seq::empty()
    } else {
        entries(members.drop_last()).push((members.last().0@, tree(members.last().1)))
    }
}

impl View for Json {
    type V = JsonTree;

    open spec fn view(&self) -> JsonTree {
        tree(*self)
    }
}

impl DeepView for Json {
    type V = JsonTree;

    open spec fn deep_view(&self) -> JsonTree {
        tree(*self)
    }
}

/// The items of a list, one by one.
pub proof fn lemma_trees(items: Seq<Json>)
    ensures
        trees(items).len() == items.len(),
        forall|i: int| 0 <= i < items.len() ==> #[trigger] trees(items)[i] == items[i]@,
    decreases items.len(),
{
    if items.len() > 0 {
        lemma_trees(items.drop_last());
        assert forall|i: int| 0 <= i < items.len() implies #[trigger] trees(items)[i] == items[i]@ by {
            if i < items.len() - 1 {
                assert(items.drop_last()[i] == items[i]);
                assert(trees(items)[i] == trees(items.drop_last())[i]);
            }
        }
    }
}

/// The members of an object, one by one.
pub proof fn lemma_entries(members: Seq<(String, Json)>)
    ensures
        entries(members).len() == members.len(),
        forall|i: int|
            0 <= i < members.len() ==> #[trigger] entries(members)[i] == (
                members[i].0@,
                members[i].1@,
            ),
    decreases members.len(),
{
    if members.len() > 0 {
        lemma_entries(members.drop_last());
        assert forall|i: int| 0 <= i < members.len() implies #[trigger] entries(members)[i] == (
            members[i].0@,
            members[i].1@,
        ) by {
            if i < members.len() - 1 {
                assert(members.drop_last()[i] == members[i]);
                assert(entries(members)[i] == entries(members.drop_last())[i]);
            }
        }
    }
}

// ── Looking into a value ─────────────────────────────────────────────────────

/// The value under a key; the last one counts where the key is repeated.
pub open spec fn lookup(members: Seq<(Seq<char>, JsonTree)>, key: Seq<char>) -> Option<JsonTree>
    decreases members.len(),
{
    if members.len() == 0 {
        None
    } else if members.last().0 == key {
        Some(members.last().1)
    } else {
        lookup(members.drop_last(), key)
    }
}

/// The member of an object; nothing where there is none, or no object.
pub open spec fn member(t: JsonTree, key: Seq<char>) -> Option<JsonTree> {
    match t {
        JsonTree::Object(members) => lookup(members, key),
        _ => None,
    }
}

/// The text that a value is.
pub open spec fn text_of(t: Option<JsonTree>) -> Option<Seq<char>> {
    match t {
        Some(JsonTree::Text(s)) => Some(s),
        _ => None,
    }
}

/// The items of the list that a value is.
pub open spec fn items_of(t: Option<JsonTree>) -> Option<Seq<JsonTree>> {
    match t {
        Some(JsonTree::List(items)) => Some(items),
        _ => None,
    }
}

/// The integer that a value is, where it lies within the bounds.
pub open spec fn int_of(t: Option<JsonTree>, min: int, max: int) -> Option<int> {
    match t {
        Some(JsonTree::Int(n)) if min <= n <= max => Some(n),
        _ => None,
    }
}

/// The text under a key.
pub open spec fn text_at(t: JsonTree, key: Seq<char>) -> Option<Seq<char>> {
    text_of(member(t, key))
}

/// The member of a member.
pub open spec fn member2(t: JsonTree, outer: Seq<char>, inner: Seq<char>) -> Option<JsonTree> {
    match member(t, outer) {
        Some(m) => member(m, inner),
        None => None,
    }
}

/// What a borrowed value says, where there is one.
pub open spec fn said(j: Option<&Json>) -> Option<JsonTree> {
    match j {
        Some(x) => Some(x@),
        None => None,
    }
}

impl Json {
    /// The member under a key.
    pub fn get(&self, key: &str) -> (r: Option<&Json>)
        ensures
            said(r) == member(self@, key@),
    {
        match self {
            Json::Object(members) => {
                proof {
                    lemma_entries(members@);
                }
                let mut i: usize = members.len();
                assert(entries(members@).take(i as int) =~= entries(members@));
                while i > 0
                    invariant
                        i <= members@.len(),
                        member(self@, key@) == lookup(entries(members@), key@),
                        entries(members@).len() == members@.len(),
                        forall|j: int|
                            0 <= j < members@.len() ==> #[trigger] entries(members@)[j] == (
                                members@[j].0@,
                                members@[j].1@,
                            ),
                        lookup(entries(members@).take(i as int), key@) == lookup(
                            entries(members@),
                            key@,
                        ),
                    decreases i,
                {
                    i = i - 1;
                    let ghost some = entries(members@).take(i + 1);
                    assert(some.last() == entries(members@)[i as int]);
                    assert(some.drop_last() =~= entries(members@).take(i as int));
                    if same(members[i].0.as_str(), key) {
                        return Some(&members[i].1);
                    }
                }
                None
            },
            _ => None,
        }
    }

    /// The member under `inner` of the member under `outer`.
    pub fn get2(&self, outer: &str, inner: &str) -> (r: Option<&Json>)
        ensures
            said(r) == member2(self@, outer@, inner@),
    {
        match self.get(outer) {
            Some(m) => m.get(inner),
            None => None,
        }
    }

    /// The text that this value is.
    pub fn as_text(&self) -> (r: Option<String>)
        ensures
            r.deep_view() == text_of(Some(self@)),
    {
        match self {
            Json::Text(s) => Some(s.clone()),
            _ => None,
        }
    }

    /// The text under a key.
    pub fn text(&self, key: &str) -> (r: Option<String>)
        ensures
            r.deep_view() == text_at(self@, key@),
    {
        match self.get(key) {
            Some(m) => m.as_text(),
            None => None,
        }
    }

    /// The items of the list that this value is.
    pub fn as_list(&self) -> (r: Option<&Vec<Json>>)
        ensures
            match r {
                Some(items) => items_of(Some(self@)) == Some(trees(items@)),
                None => items_of(Some(self@)) is None,
            },
    {
        match self {
            Json::List(items) => Some(items),
            _ => None,
        }
    }

    /// The signed integer that this value is.
    pub fn as_i64(&self) -> (r: Option<i64>)
        ensures
            match r {
                Some(n) => int_of(Some(self@), i64::MIN as int, i64::MAX as int) == Some(n as int),
                None => int_of(Some(self@), i64::MIN as int, i64::MAX as int) is None,
            },
    {
        match self {
            Json::Int(n) => if -0x8000_0000_0000_0000 <= *n && *n <= 0x7fff_ffff_ffff_ffff {
                Some(*n as i64)
            } else {
                None
            },
            _ => None,
        }
    }

    /// The unsigned integer that this value is.
    pub fn as_u64(&self) -> (r: Option<u64>)
        ensures
            match r {
                Some(n) => int_of(Some(self@), 0, u64::MAX as int) == Some(n as int),
                None => int_of(Some(self@), 0, u64::MAX as int) is None,
            },
    {
        match self {
            Json::Int(n) => if 0 <= *n && *n <= 0xffff_ffff_ffff_ffff {
                Some(*n as u64)
            } else {
                None
            },
            _ => None,
        }
    }

    /// Makes the same value again.
    pub fn copy(&self) -> (r: Json)
        ensures
            r@ == self@,
        decreases *self,
    {
        match self {
            Json::Null => Json::Null,
            Json::Bool(b) => Json::Bool(*b),
            Json::Int(n) => Json::Int(*n),
            Json::Float(t) => Json::Float(t.clone()),
            Json::Text(t) => Json::Text(t.clone()),
            Json::List(items) => {
                let mut out: Vec<Json> = Vec::new();
                for i in 0..items.len()
                    invariant
                        decreases_to!(*self => items@),
                        out@.len() == i,
                        forall|j: int| 0 <= j < i ==> out@[j]@ == #[trigger] items@[j]@,
                {
                    assert(decreases_to!(items@ => items@[i as int]));
                    out.push(items[i].copy());
                }
                proof {
                    lemma_trees(items@);
                    lemma_trees(out@);
                    assert(trees(out@) =~= trees(items@));
                }
                Json::List(out)
            },
            Json::Object(members) => {
                let mut out: Vec<(String, Json)> = Vec::new();
                for i in 0..members.len()
                    invariant
                        decreases_to!(*self => members@),
                        out@.len() == i,
                        forall|j: int|
                            0 <= j < i ==> out@[j].1@ == (#[trigger] members@[j]).1@ && out@[j].0@
                                == members@[j].0@,
                {
                    assert(decreases_to!(members@ => members@[i as int]));
                    assert(decreases_to!(members@[i as int] => members@[i as int].1));
                    out.push((members[i].0.clone(), members[i].1.copy()));
                }
                proof {
                    lemma_entries(members@);
                    lemma_entries(out@);
                    assert(entries(out@) =~= entries(members@));
                }
                Json::Object(out)
            },
        }
    }
}

// ── Building a value ─────────────────────────────────────────────────────────

/// The object without members.
pub open spec fn no_members() -> JsonTree {
    JsonTree::Object(Seq::empty())
}

/// An object with one more member.
pub open spec fn with_member(t: JsonTree, key: Seq<char>, value: JsonTree) -> JsonTree {
    match t {
        JsonTree::Object(members) => JsonTree::Object(members.push((key, value))),
        _ => t,
    }
}

/// The list of texts.
pub open spec fn text_list(texts: Seq<Seq<char>>) -> JsonTree {
    JsonTree::List(texts.map_values(|t: Seq<char>| JsonTree::Text(t)))
}

impl Json {
    /// The object without members.
    pub fn object() -> (r: Json)
        ensures
            r@ == no_members(),
    {
        Json::Object(Vec::new())
    }

    /// Adds a member to an object.
    pub fn with(self, key: &str, value: Json) -> (r: Json)
        requires
            self@ is Object,
        ensures
            r@ == with_member(self@, key@, value@),
    {
        match self {
            Json::Object(members) => {
                let ghost was = members@;
                let mut members = members;
                members.push((key.to_owned(), value));
                assert(members@.drop_last() =~= was);
                Json::Object(members)
            },
            other => other,
        }
    }

    /// Adds a text member to an object.
    pub fn with_text(self, key: &str, value: &str) -> (r: Json)
        requires
            self@ is Object,
        ensures
            r@ == with_member(self@, key@, JsonTree::Text(value@)),
    {
        self.with(key, Json::Text(value.to_owned()))
    }
}

/// A list with one more item.
pub fn add_item(items: &mut Vec<Json>, item: Json)
    ensures
        trees(final(items)@) == trees(old(items)@).push(item@),
{
    items.push(item);
    assert(items@.drop_last() =~= old(items)@);
}

// ── serde_json ───────────────────────────────────────────────────────────────

/// The value type of `serde_json`.
#[verifier::external_type_specification]
#[verifier::external_body]
pub struct ExValue(serde_json::Value);

/// What a `serde_json` value holds: its variants, member by member and item by
/// item, in the order in which it hands them out.
pub uninterp spec fn held(v: serde_json::Value) -> JsonTree;

/// What `serde_json::from_str` reads from a text; nothing where it is not JSON.
pub uninterp spec fn json_of_text(text: Seq<char>) -> Option<JsonTree>;

/// What `serde_json::from_slice` reads from bytes; nothing where they are not
/// JSON.
pub uninterp spec fn json_of_bytes(bytes: Seq<u8>) -> Option<JsonTree>;

/// The text that `serde_json` writes of a value, without spaces or line breaks
/// between its parts.
pub uninterp spec fn compact(t: JsonTree) -> Seq<char>;

/// The text that `serde_json::to_string_pretty` writes of an object whose
/// members are texts.
pub uninterp spec fn pretty(members: Seq<(Seq<char>, Seq<char>)>) -> Seq<char>;

/// One level of a `serde_json` value.
pub enum Node {
    Null,
    Bool(bool),
    Int(i128),
    Float(String),
    Text(String),
    List(Vec<serde_json::Value>),
    Object(Vec<(String, serde_json::Value)>),
}

pub open spec fn node_tree(n: Node) -> JsonTree {
    match n {
        Node::Null => JsonTree::Null,
        Node::Bool(b) => JsonTree::Bool(b),
        Node::Int(i) => JsonTree::Int(i as int),
        Node::Float(t) => JsonTree::Float(t@),
        Node::Text(t) => JsonTree::Text(t@),
        Node::List(items) => JsonTree::List(items@.map_values(|v: serde_json::Value| held(v))),
        Node::Object(members) => JsonTree::Object(
            members@.map_values(|m: (String, serde_json::Value)| (m.0@, held(m.1))),
        ),
    }
}

/// Takes a `serde_json::Value` apart by its variant, moving the fields out; an
/// integer comes from `Number::as_i128`, any other number as its text. What
/// comes out is what the value holds.
#[verifier::external_body]
pub(crate) fn open_value(v: serde_json::Value) -> (r: Node)
    ensures
        node_tree(r) == held(v),
{
    match v {
        serde_json::Value::Null => Node::Null,
        serde_json::Value::Bool(b) => Node::Bool(b),
        serde_json::Value::Number(n) => match n.as_i128() {
            Some(i) => Node::Int(i),
            None => Node::Float(n.to_string()),
        },
        serde_json::Value::String(s) => Node::Text(s),
        serde_json::Value::Array(items) => Node::List(items),
        serde_json::Value::Object(members) => Node::Object(members.into_iter().collect()),
    }
}

/// Wraps `serde_json::from_str`: the value read holds what `json_of_text`
/// names, and there is none where that names nothing. JSON has backslashes in its
/// strings only, so a text with a backslash and without quotes is not JSON.
#[verifier::external_body]
pub(crate) fn value_of_text(text: &str) -> (r: Option<serde_json::Value>)
    ensures
        match r {
            Some(v) => json_of_text(text@) == Some(held(v)),
            None => json_of_text(text@) is None,
        },
        text@.contains('\\') && !text@.contains('"') ==> r is None,
{
    serde_json::from_str(text).ok()
}

/// Wraps `serde_json::from_slice`: the value read holds what `json_of_bytes`
/// names, and there is none where that names nothing.
#[verifier::external_body]
pub(crate) fn value_of_bytes(bytes: &[u8]) -> (r: Option<serde_json::Value>)
    ensures
        match r {
            Some(v) => json_of_bytes(bytes@) == Some(held(v)),
            None => json_of_bytes(bytes@) is None,
        },
{
    serde_json::from_slice(bytes).ok()
}

/// Whether a value holds no floating-point number, and nests at most so many levels.
pub open spec fn shallow_without_floats(t: JsonTree, levels: nat) -> bool
    decreases levels,
{
    match t {
        JsonTree::Float(_) => false,
        JsonTree::List(items) => levels > 0 && forall|i: int|
            0 <= i < items.len() ==> shallow_without_floats(
                #[trigger] items[i],
                (levels - 1) as nat,
            ),
        JsonTree::Object(members) => levels > 0 && forall|i: int|
            0 <= i < members.len() ==> shallow_without_floats(
                (#[trigger] members[i]).1,
                (levels - 1) as nat,
            ),
        _ => true,
    }
}

/// Whether a text begins and ends as an object or a list does.
pub open spec fn in_brackets(text: Seq<char>) -> bool {
    &&& text.len() >= 2
    &&& text[0] == '{' && text.last() == '}' || text[0] == '[' && text.last() == ']'
}

/// Wraps `serde_json::Value::get` with a key, and `to_string` on what it finds:
/// the compact text of that member, and nothing where there is no such member. Read
/// again by `serde_json::from_str`, which goes 127 levels deep, the text of a value
/// without floating-point numbers gives that value. The text of an object or a list
/// stands in its brackets.
#[verifier::external_body]
pub(crate) fn compact_member(v: &serde_json::Value, key: &str) -> (r: Option<String>)
    ensures
        r.deep_view() == match member(held(*v), key@) {
            Some(t) => Some(compact(t)),
            None => None,
        },
        match (member(held(*v), key@), r) {
            (Some(t), Some(text)) => {
                &&& shallow_without_floats(t, 127) ==> json_of_text(text@) == Some(t)
                &&& t is Object || t is List ==> in_brackets(text@)
            },
            _ => true,
        },
{
    v.get(key).map(|m| m.to_string())
}

/// The texts of the pairs.
pub open spec fn pairs(members: Seq<(String, String)>) -> Seq<(Seq<char>, Seq<char>)> {
    members.map_values(|m: (String, String)| (m.0@, m.1@))
}

/// The text under a key; the last one counts where the key is repeated.
pub open spec fn lookup_text(members: Seq<(Seq<char>, Seq<char>)>, key: Seq<char>) -> Option<
    Seq<char>,
>
    decreases members.len(),
{
    if members.len() == 0 {
        None
    } else if members.last().0 == key {
        Some(members.last().1)
    } else {
        lookup_text(members.drop_last(), key)
    }
}

/// Wraps `serde_json::to_string_pretty` on a `serde_json::Map` of texts. Read
/// again by `serde_json::from_str`, what it writes is an object with the same
/// texts under the same keys.
#[verifier::external_body]
pub(crate) fn write_pretty(members: &Vec<(String, String)>) -> (r: String)
    ensures
        r@ == pretty(pairs(members@)),
        json_of_text(r@) is Some,
        forall|key: Seq<char>| #[trigger]
            member(json_of_text(r@)->0, key) == (match lookup_text(pairs(members@), key) {
                Some(v) => Some(JsonTree::Text(v)),
                None => None,
            }),
{
    let map: serde_json::Map<String, serde_json::Value> = members.iter().map(
        |m| (m.0.clone(), serde_json::Value::String(m.1.clone())),
    ).collect();
    serde_json::to_string_pretty(&map).unwrap()
}

/// Turns a `serde_json` value into plain data.
pub(crate) fn plain(v: serde_json::Value) -> (r: Json)
    ensures
        r@ == held(v),
    decreases held(v),
{
    let ghost t = held(v);
    match open_value(v) {
        Node::Null => Json::Null,
        Node::Bool(b) => Json::Bool(b),
        Node::Int(n) => Json::Int(n),
        Node::Float(s) => Json::Float(s),
        Node::Text(s) => Json::Text(s),
        Node::List(items) => {
            let ghost all = items@;
            let ghost held_items = t->List_0;
            let mut out: Vec<Json> = Vec::new();
            for x in it: items
                invariant
                    it.seq() == all,
                    t == held(v),
                    t is List,
                    held_items == t->List_0,
                    held_items == all.map_values(|v: serde_json::Value| held(v)),
                    out@.len() == it.index(),
                    forall|j: int| 0 <= j < it.index() ==> #[trigger] out@[j]@ == held(all[j]),
            {
                proof {
                    assert(held_items[it.index()] == held(x));
                    assert(decreases_to!(t => t->List_0));
                    assert(decreases_to!(held_items => held_items[it.index()]));
                }
                out.push(plain(x));
            }
            proof {
                lemma_trees(out@);
                assert(trees(out@) =~= held_items);
            }
            Json::List(out)
        },
        Node::Object(members) => {
            let ghost all = members@;
            let ghost held_members = t->Object_0;
            let mut out: Vec<(String, Json)> = Vec::new();
            for x in it: members
                invariant
                    it.seq() == all,
                    t == held(v),
                    t is Object,
                    held_members == t->Object_0,
                    held_members == all.map_values(
                        |m: (String, serde_json::Value)| (m.0@, held(m.1)),
                    ),
                    out@.len() == it.index(),
                    forall|j: int|
                        0 <= j < it.index() ==> (#[trigger] out@[j]).0@ == all[j].0@ && out@[j].1@
                            == held(all[j].1),
            {
                proof {
                    assert(held_members[it.index()] == (x.0@, held(x.1)));
                    assert(decreases_to!(t => t->Object_0));
                    assert(decreases_to!(held_members => held_members[it.index()]));
                    assert(decreases_to!(held_members[it.index()] => held_members[it.index()].1));
                }
                out.push((x.0, plain(x.1)));
            }
            proof {
                lemma_entries(out@);
                assert(entries(out@) =~= held_members);
            }
            Json::Object(out)
        },
    }
}

/// Reads a JSON text.
pub fn read_json(text: &str) -> (r: Option<Json>)
    ensures
        r.deep_view() == json_of_text(text@),
        text@.contains('\\') && !text@.contains('"') ==> r is None,
{
    match value_of_text(text) {
        Some(v) => Some(plain(v)),
        None => None,
    }
}

// ── Laws ─────────────────────────────────────────────────────────────────────

proof fn lemma_lookup(members: Seq<(Seq<char>, JsonTree)>, key: Seq<char>, k: int)
    requires
        0 <= k < members.len(),
        members[k].0 == key,
        forall|j: int| k < j < members.len() ==> (#[trigger] members[j]).0 != key,
    ensures
        lookup(members, key) == Some(members[k].1),
    decreases members.len(),
{
    if k < members.len() - 1 {
        let t = members.drop_last();
        assert(members[members.len() - 1].0 != key);
        assert forall|j: int| k < j < t.len() implies (#[trigger] t[j]).0 != key by {
            assert(members[j].0 != key);
        }
        lemma_lookup(t, key, k);
    }
}

proof fn lemma_lookup_none(members: Seq<(Seq<char>, JsonTree)>, key: Seq<char>)
    requires
        forall|j: int| 0 <= j < members.len() ==> (#[trigger] members[j]).0 != key,
    ensures
        lookup(members, key) is None,
    decreases members.len(),
{
    if members.len() > 0 {
        let t = members.drop_last();
        assert(members[members.len() - 1].0 != key);
        assert forall|j: int| 0 <= j < t.len() implies (#[trigger] t[j]).0 != key by {
            assert(members[j].0 != key);
        }
        lemma_lookup_none(t, key);
    }
}

/// A key leads to the last member under it, and to nothing where no member has it.
pub proof fn law_a_key_leads_to_its_last_member(
    members: Seq<(Seq<char>, JsonTree)>,
    key: Seq<char>,
    k: int,
)
    requires
        forall|j: int| k < j < members.len() && 0 <= j ==> (#[trigger] members[j]).0 != key,
    ensures
        0 <= k < members.len() && members[k].0 == key ==> member(
            JsonTree::Object(members),
            key,
        ) == Some(members[k].1),
        k < 0 ==> member(JsonTree::Object(members), key) is None,
{
    if 0 <= k < members.len() && members[k].0 == key {
        lemma_lookup(members, key, k);
    }
    if k < 0 {
        assert forall|j: int| 0 <= j < members.len() implies (#[trigger] members[j]).0 != key by {
            assert(k < j);
        }
        lemma_lookup_none(members, key);
    }
}

/// A text member is read as that text, an integer within the bounds as that integer, and a
/// list as its items; a member of another kind is read as none of these, and nor is one that
/// is not there.
pub proof fn law_members_are_read_by_their_kind(
    t: JsonTree,
    key: Seq<char>,
    text: Seq<char>,
    n: int,
    items: Seq<JsonTree>,
)
    ensures
        text_at(t, key) == Some(text) <==> member(t, key) == Some(JsonTree::Text(text)),
        text_at(t, key) is None <==> !(member(t, key) matches Some(JsonTree::Text(_))),
        items_of(member(t, key)) == Some(items) <==> member(t, key) == Some(JsonTree::List(items)),
        items_of(member(t, key)) is None <==> !(member(t, key) matches Some(JsonTree::List(_))),
        int_of(member(t, key), i64::MIN as int, i64::MAX as int) == Some(n) <==> member(t, key)
            == Some(JsonTree::Int(n)) && i64::MIN <= n <= i64::MAX,
        int_of(member(t, key), 0, u64::MAX as int) == Some(n) <==> member(t, key) == Some(
            JsonTree::Int(n),
        ) && 0 <= n <= u64::MAX,
{
}

/// Only an object has members.
pub proof fn law_only_objects_have_members(t: JsonTree, key: Seq<char>)
    requires
        !(t is Object),
    ensures
        member(t, key) is None,
{
}

/// A member of a member is found through it.
pub proof fn law_a_member_of_a_member(t: JsonTree, outer: Seq<char>, inner: Seq<char>, m: JsonTree)
    ensures
        member(t, outer) == Some(m) ==> member2(t, outer, inner) == member(m, inner),
        member(t, outer) is None ==> member2(t, outer, inner) is None,
{
}

/// A member that was added is found under its key, and those under other keys stay.
pub proof fn law_an_added_member_is_found(
    t: JsonTree,
    key: Seq<char>,
    value: JsonTree,
    other: Seq<char>,
)
    requires
        t is Object,
    ensures
        with_member(t, key, value) is Object,
        member(with_member(t, key, value), key) == Some(value),
        other != key ==> member(with_member(t, key, value), other) == member(t, other),
        member(no_members(), key) is None,
{
    assert(t->Object_0.push((key, value)).drop_last() =~= t->Object_0);
}

/// An added member is found under its key, and every other stays under its own.
pub proof fn lemma_keys_stay(t: JsonTree, key: Seq<char>, value: JsonTree)
    requires
        t is Object,
    ensures
        with_member(t, key, value) is Object,
        member(with_member(t, key, value), key) == Some(value),
        forall|other: Seq<char>|
            other != key ==> #[trigger] member(with_member(t, key, value), other) == member(
                t,
                other,
            ),
        forall|other: Seq<char>| #[trigger] member(no_members(), other) is None,
{
    assert forall|other: Seq<char>| other != key implies #[trigger] member(
        with_member(t, key, value),
        other,
    ) == member(t, other) by {
        law_an_added_member_is_found(t, key, value, other);
    }
    law_an_added_member_is_found(t, key, value, key);
}

/// What a value says is what it holds: a text as its characters, a number as that number, a list
/// by its items and an object by its members, in their order.
pub proof fn law_a_value_says_what_it_holds(
    t: String,
    n: i128,
    items: Vec<Json>,
    members: Vec<(String, Json)>,
    i: int,
)
    ensures
        Json::Text(t)@ == JsonTree::Text(t@),
        Json::Int(n)@ == JsonTree::Int(n as int),
        Json::Float(t)@ == JsonTree::Float(t@),
        Json::Bool(true)@ == JsonTree::Bool(true),
        Json::Bool(false)@ == JsonTree::Bool(false),
        Json::Null@ == JsonTree::Null,
        Json::List(items)@ matches JsonTree::List(l) && l.len() == items@.len() && (0 <= i
            < items@.len() ==> l[i] == items@[i]@),
        Json::Object(members)@ matches JsonTree::Object(o) && o.len() == members@.len() && (0 <= i
            < members@.len() ==> o[i] == (members@[i].0@, members@[i].1@)),
{
    lemma_trees(items@);
    lemma_entries(members@);
}

} // verus!
