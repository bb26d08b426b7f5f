//! Native tool calls, put together from the fragments of a stream.
use std::collections::BTreeMap;
use vstd::prelude::*;
use vstd::std_specs::btree::increasing_seq;
use vstd::std_specs::cmp::OrdSpec;
use vstd::std_specs::iter::IteratorSpec;

use crate::actions::{calls_view, ToolCall};
use crate::json::{
    int_of, json_of_text, lemma_trees, member, member2, no_members, read_json, text_of, trees, Json,
    JsonTree,
};
use crate::text::{begins, starts_with, strip_front, trim_front, Class};

verus! {

/// Whether a key is the largest one.
pub open spec fn is_largest(m: Map<u64, (Seq<char>, Seq<char>)>, k: u64) -> bool {
    m.contains_key(k) && forall|j: u64| #[trigger] m.contains_key(j) ==> j <= k
}

/// The slot after the last one in use. The numbers wrap around.
pub open spec fn fresh_slot(m: Map<u64, (Seq<char>, Seq<char>)>) -> u64 {
    if m.dom().is_empty() {
        1
    } else {
        let last = choose|k: u64| is_largest(m, k);
        if last == u64::MAX {
            0
        } else {
            (last + 1) as u64
        }
    }
}

/// The slot that a fragment belongs to. An index cannot be trusted as an identity:
/// where the slot holds complete arguments and a new object begins, that is a new
/// call.
pub open spec fn slot_for(
    m: Map<u64, (Seq<char>, Seq<char>)>,
    index: u64,
    args: Option<Seq<char>>,
    complete: bool,
) -> u64 {
    match args {
        Some(a) if complete && begins(strip_front(a, Class::Space), "{"@) => fresh_slot(m),
        _ => index,
    }
}

/// A slot, or an empty one.
pub open spec fn slot_at(m: Map<u64, (Seq<char>, Seq<char>)>, k: u64) -> (Seq<char>, Seq<char>) {
    if m.contains_key(k) {
        m[k]
    } else {
        (Seq::empty(), Seq::empty())
    }
}

/// A slot with a fragment added. A name arrives whole, and the first one counts; the
/// arguments arrive in pieces.
pub open spec fn extended(
    slot: (Seq<char>, Seq<char>),
    name: Option<Seq<char>>,
    args: Option<Seq<char>>,
) -> (Seq<char>, Seq<char>) {
    let n = match name {
        Some(n) if slot.0.len() == 0 => n,
        _ => slot.0,
    };
    match args {
        Some(a) => (n, slot.1 + a),
        None => (n, slot.1),
    }
}

/// The slots with a fragment added. `complete` tells whether the slot under its index
/// holds complete arguments.
pub open spec fn with_fragment(
    m: Map<u64, (Seq<char>, Seq<char>)>,
    index: u64,
    name: Option<Seq<char>>,
    args: Option<Seq<char>>,
    complete: bool,
) -> Map<u64, (Seq<char>, Seq<char>)> {
    let k = slot_for(m, index, args, complete);
    m.insert(k, extended(slot_at(m, k), name, args))
}

/// Whether a slot holds complete arguments.
pub open spec fn complete_at(m: Map<u64, (Seq<char>, Seq<char>)>, index: u64) -> bool {
    m.contains_key(index) && m[index].1.len() > 0 && json_of_text(m[index].1) is Some
}

/// The index of a fragment; zero where it has none.
pub open spec fn fragment_index(fragment: JsonTree) -> u64 {
    match int_of(member(fragment, "index"@), 0, u64::MAX as int) {
        Some(n) => n as u64,
        None => 0,
    }
}

/// The slots with a fragment of a stream added.
pub open spec fn after_fragment(
    m: Map<u64, (Seq<char>, Seq<char>)>,
    fragment: JsonTree,
) -> Map<u64, (Seq<char>, Seq<char>)> {
    let index = fragment_index(fragment);
    with_fragment(
        m,
        index,
        text_of(member2(fragment, "function"@, "name"@)),
        text_of(member2(fragment, "function"@, "arguments"@)),
        complete_at(m, index),
    )
}

/// The slots with all fragments added, one after the other.
pub open spec fn after_fragments(
    m: Map<u64, (Seq<char>, Seq<char>)>,
    fragments: Seq<JsonTree>,
) -> Map<u64, (Seq<char>, Seq<char>)>
    decreases fragments.len(),
{
    if fragments.len() == 0 {
        m
    } else {
        after_fragment(after_fragments(m, fragments.drop_last()), fragments.last())
    }
}

/// What a borrowed text says, where there is one.
pub open spec fn opt_text(t: Option<&str>) -> Option<Seq<char>> {
    match t {
        Some(s) => Some(s@),
        None => None,
    }
}

/// Whether keys are all those of a map, in order.
pub open spec fn keys_in_order(keys: Seq<u64>, m: Map<u64, (Seq<char>, Seq<char>)>) -> bool {
    &&& forall|i: int, j: int| 0 <= i < j < keys.len() ==> keys[i] < keys[j]
    &&& forall|k: u64| #[trigger] keys.contains(k) <==> m.contains_key(k)
}

/// The keys of a map, in order.
pub open spec fn ordered_keys(m: Map<u64, (Seq<char>, Seq<char>)>) -> Seq<u64> {
    choose|keys: Seq<u64>| keys_in_order(keys, m)
}

/// A slot as a call, by what was read from its arguments; without any, they are an
/// empty object.
pub open spec fn call_of_slot(name: Seq<char>, args: Option<JsonTree>) -> (Seq<char>, JsonTree) {
    match args {
        Some(t) => (name, t),
        None => (name, no_members()),
    }
}

/// The calls in the slots, in order.
pub open spec fn native_calls(m: Map<u64, (Seq<char>, Seq<char>)>) -> Seq<(Seq<char>, JsonTree)> {
    ordered_keys(m).map_values(|k: u64| call_of_slot(m[k].0, json_of_text(m[k].1)))
}

/// Makes a call of a slot, by what was read from its arguments.
pub fn slot_call(name: &str, args: Option<Json>) -> (r: ToolCall)
    ensures
        (r.name@, r.args@) == call_of_slot(name@, args.deep_view()),
{
    match args {
        Some(args) => ToolCall { name: name.to_owned(), args },
        None => ToolCall { name: name.to_owned(), args: Json::object() },
    }
}

/// Tool calls on their way: under each slot a name and the arguments so far.
pub struct ToolCalls {
    slots: BTreeMap<u64, (String, String)>,
}

impl View for ToolCalls {
    type V = Map<u64, (Seq<char>, Seq<char>)>;

    closed spec fn view(&self) -> Map<u64, (Seq<char>, Seq<char>)> {
        self.slots@.map_values(|s: (String, String)| (s.0@, s.1@))
    }
}

proof fn lemma_same_keys(a: Seq<u64>, b: Seq<u64>)
    requires
        forall|i: int, j: int| 0 <= i < j < a.len() ==> a[i] < a[j],
        forall|i: int, j: int| 0 <= i < j < b.len() ==> b[i] < b[j],
        forall|k: u64| #[trigger] a.contains(k) <==> b.contains(k),
    ensures
        a == b,
    decreases a.len(),
{
    if a.len() == 0 {
        if b.len() > 0 {
            assert(b.contains(b[0]));
            assert(a.contains(b[0]));
        }
        assert(a =~= b);
    } else {
        assert(a.contains(a.last()));
        assert(b.contains(a.last()));
        assert(b.contains(b.last()));
        assert(a.contains(b.last()));
        assert(a.last() == b.last());
        let x = a.drop_last();
        let y = b.drop_last();
        assert forall|k: u64| #[trigger] x.contains(k) <==> y.contains(k) by {
            if x.contains(k) {
                let i = choose|i: int| 0 <= i < x.len() && x[i] == k;
                assert(a[i] == k);
                assert(a.contains(k));
                let j = choose|j: int| 0 <= j < b.len() && b[j] == k;
                assert(y[j] == k);
            }
            if y.contains(k) {
                let i = choose|i: int| 0 <= i < y.len() && y[i] == k;
                assert(b[i] == k);
                assert(a.contains(k));
                let j = choose|j: int| 0 <= j < a.len() && a[j] == k;
                assert(x[j] == k);
            }
        }
        lemma_same_keys(x, y);
        assert(a =~= x.push(a.last()));
        assert(b =~= y.push(b.last()));
    }
}

impl ToolCalls {
    pub fn new() -> (r: Self)
        ensures
            r@ == Map::<u64, (Seq<char>, Seq<char>)>::empty(),
    {
        let r = ToolCalls { slots: BTreeMap::new() };
        assert(r@ =~= Map::empty());
        r
    }

    /// Tells whether there are none.
    pub fn is_empty(&self) -> (r: bool)
        ensures
            r == self@.dom().is_empty(),
    {
        assert(self@.dom() =~= self.slots@.dom());
        self.slots.is_empty()
    }

    fn largest(&self) -> (r: Option<u64>)
        ensures
            match r {
                Some(k) => is_largest(self@, k),
                None => self@.dom().is_empty(),
            },
    {
        broadcast use {
            vstd::std_specs::btree::group_btree_axioms,
            vstd::laws_cmp::group_laws_cmp,
        };

        let mut r: Option<u64> = None;
        for k in it: self.slots.keys()
            invariant
                it.seq().unref().to_set() == self.slots@.dom(),
                match r {
                    Some(m) => self.slots@.contains_key(m) && forall|i: int|
                        0 <= i < it.index() ==> *(#[trigger] it.seq()[i]) <= m,
                    None => it.index() == 0,
                },
        {
            assert(it.seq().unref()[it.index()] == *k);
            assert(it.seq().unref().to_set().contains(*k));
            r = match r {
                Some(m) => if *k > m {
                    Some(*k)
                } else {
                    Some(m)
                },
                None => Some(*k),
            };
        }
        r
    }

    /// Adds a fragment. `complete` tells whether the slot under its index holds
    /// complete arguments.
    pub fn take_in(&mut self, index: u64, name: Option<&str>, args: Option<&str>, complete: bool)
        ensures
            final(self)@ == with_fragment(
                old(self)@,
                index,
                opt_text(name),
                opt_text(args),
                complete,
            ),
    {
        broadcast use {
            vstd::std_specs::btree::group_btree_axioms,
            vstd::laws_cmp::group_laws_cmp,
        };

        let ghost before = self@;
        let k: u64 = match args {
            Some(a) => if complete && starts_with(
                trim_front(a, &Class::Space).as_str(),
                "{",
            ) {
                match self.largest() {
                    Some(last) => {
                        proof {
                            let other = choose|k: u64| is_largest(before, k);
                            assert(is_largest(before, last));
                            assert(before.contains_key(other) && before.contains_key(last));
                        }
                        if last == u64::MAX {
                            0
                        } else {
                            last + 1
                        }
                    },
                    None => 1,
                }
            } else {
                index
            },
            None => index,
        };
        assert(k == slot_for(before, index, opt_text(args), complete));
        let slot = match self.slots.get(&k) {
            Some(s) => (s.0.clone(), s.1.clone()),
            None => (String::new(), String::new()),
        };
        assert((slot.0@, slot.1@) == slot_at(before, k));
        let mut n = slot.0;
        let mut a = slot.1;
        if let Some(given) = name {
            if n.as_str().is_empty() {
                n = given.to_owned();
            }
        }
        if let Some(piece) = args {
            a.append(piece);
        }
        let ghost added = (n@, a@);
        self.slots.insert(k, (n, a));
        assert(self@ =~= before.insert(k, added));
    }

    /// Tells whether a slot holds complete arguments.
    fn is_complete(&self, index: u64) -> (r: bool)
        ensures
            r == complete_at(self@, index),
    {
        broadcast use {
            vstd::std_specs::btree::group_btree_axioms,
            vstd::laws_cmp::group_laws_cmp,
        };

        match self.slots.get(&index) {
            Some(s) => !s.1.as_str().is_empty() && read_json(s.1.as_str()).is_some(),
            None => false,
        }
    }

    /// Adds a fragment of a stream.
    pub fn on_fragment(&mut self, fragment: &Json)
        ensures
            final(self)@ == after_fragment(old(self)@, fragment@),
    {
        let index: u64 = match fragment.get("index") {
            Some(i) => match i.as_u64() {
                Some(n) => n,
                None => 0,
            },
            None => 0,
        };
        let name = match fragment.get2("function", "name") {
            Some(n) => n.as_text(),
            None => None,
        };
        let args = match fragment.get2("function", "arguments") {
            Some(a) => a.as_text(),
            None => None,
        };
        let complete = self.is_complete(index);
        let n = match &name {
            Some(n) => Some(n.as_str()),
            None => None,
        };
        let a = match &args {
            Some(a) => Some(a.as_str()),
            None => None,
        };
        self.take_in(index, n, a, complete);
    }

    /// Adds all fragments in a delta of a stream.
    pub fn on_fragments(&mut self, fragments: &Vec<Json>)
        ensures
            final(self)@ == after_fragments(old(self)@, trees(fragments@)),
    {
        proof {
            lemma_trees(fragments@);
        }
        let ghost all = trees(fragments@);
        for i in 0..fragments.len()
            invariant
                all.len() == fragments@.len(),
                forall|j: int| 0 <= j < all.len() ==> #[trigger] all[j] == fragments@[j]@,
                self@ == after_fragments(old(self)@, all.take(i as int)),
        {
            proof {
                assert(all.take(i + 1).drop_last() =~= all.take(i as int));
                assert(all.take(i + 1).last() == all[i as int]);
            }
            self.on_fragment(&fragments[i]);
        }
        assert(all.take(fragments@.len() as int) =~= all);
    }

    /// The calls, in the order of their slots.
    pub fn calls(&self) -> (r: Vec<ToolCall>)
        ensures
            calls_view(r@) == native_calls(self@),
    {
        broadcast use {
            vstd::std_specs::btree::group_btree_axioms,
            vstd::laws_cmp::group_laws_cmp,
        };

        let mut out: Vec<ToolCall> = Vec::new();
        let ghost m = self@;
        let slots = self.slots.iter();
        let ghost all = IteratorSpec::remaining(&slots);
        let ghost keys = all.map_values(|kv: (&u64, &(String, String))| *kv.0);
        proof {
            assert(keys_in_order(keys, m)) by {
                assert forall|i: int, j: int| 0 <= i < j < keys.len() implies keys[i] < keys[j] by {
                    assert(increasing_seq(keys));
                    assert(keys[i].cmp_spec(&keys[j]) is Less);
                }
                assert forall|k: u64| #[trigger] keys.contains(k) <==> m.contains_key(k) by {
                    if keys.contains(k) {
                        let i = choose|i: int| 0 <= i < keys.len() && keys[i] == k;
                        assert(self.slots@.contains_key(*all[i].0));
                    }
                    if m.contains_key(k) {
                        assert(self.slots@.contains_key(k));
                        assert(all.contains((&k, &self.slots@[k])));
                        let i = choose|i: int|
                            0 <= i < all.len() && all[i] == (&k, &self.slots@[k]);
                        assert(keys[i] == k);
                    }
                }
            }
            lemma_same_keys(keys, ordered_keys(m));
        }
        for (k, s) in it: slots
            invariant
                m == self@,
                it.seq() == all,
                keys == all.map_values(|kv: (&u64, &(String, String))| *kv.0),
                forall|j: int|
                    0 <= j < all.len() ==> self.slots@.contains_key(*(#[trigger] all[j]).0)
                        && self.slots@[*all[j].0] == *all[j].1,
                out@.len() == it.index(),
                forall|j: int|
                    0 <= j < it.index() ==> ((#[trigger] out@[j]).name@, out@[j].args@)
                        == call_of_slot(m[keys[j]].0, json_of_text(m[keys[j]].1)),
        {
            assert(keys[it.index()] == *k);
            assert(m[*k] == (s.0@, s.1@));
            out.push(slot_call(s.0.as_str(), read_json(s.1.as_str())));
        }
        assert(calls_view(out@) =~= native_calls(m));
        out
    }
}

/// A new call leaves the calls before it alone: where the slot under its index holds
/// complete arguments and a new object begins, it gets a slot of its own, with its
/// name and its arguments. (Where the last slot has the largest number there is, the
/// numbers wrap around.)
pub proof fn law_a_new_call_gets_its_own_slot(
    m: Map<u64, (Seq<char>, Seq<char>)>,
    last: u64,
    index: u64,
    name: Seq<char>,
    args: Seq<char>,
)
    requires
        is_largest(m, last),
        last < u64::MAX,
        begins(strip_front(args, Class::Space), "{"@),
    ensures
        !m.contains_key(fresh_slot(m)),
        with_fragment(m, index, Some(name), Some(args), true) == m.insert(
            fresh_slot(m),
            (name, args),
        ),
{
    let other = choose|k: u64| is_largest(m, k);
    assert(m.contains_key(last) && m.contains_key(other));
    assert(!m.dom().is_empty()) by {
        assert(m.dom().contains(last));
    }
    assert(Seq::<char>::empty() + args =~= args);
}

/// Whether a fragment names the slot `n`: by its index, or, where that is no number of 64
/// bits, by having none.
pub open spec fn is_under(fragment: JsonTree, n: int) -> bool {
    match member(fragment, "index"@) {
        Some(JsonTree::Int(i)) if 0 <= i <= u64::MAX => i == n,
        _ => n == 0,
    }
}

/// The piece of arguments that a fragment brings.
pub open spec fn piece(fragment: JsonTree) -> Seq<char> {
    match member2(fragment, "function"@, "arguments"@) {
        Some(JsonTree::Text(a)) => a,
        _ => Seq::empty(),
    }
}

/// The name that a fragment brings.
pub open spec fn given_name(fragment: JsonTree) -> Seq<char> {
    match member2(fragment, "function"@, "name"@) {
        Some(JsonTree::Text(n)) => n,
        _ => Seq::empty(),
    }
}

/// Whether the piece of a fragment begins an object.
pub open spec fn opens_object(fragment: JsonTree) -> bool {
    begins(strip_front(piece(fragment), Class::Space), "{"@)
}

proof fn lemma_nothing_opens_nothing()
    ensures
        !begins(strip_front(Seq::empty(), Class::Space), "{"@),
{
    reveal_strlit("{");
}

/// A fragment that begins no new object, or whose slot holds no complete arguments yet,
/// goes into the slot that its index names and changes no other: its name is taken where
/// the slot has none, and its piece of arguments goes behind those that are there.
pub proof fn law_a_fragment_changes_only_its_slot(
    m: Map<u64, (Seq<char>, Seq<char>)>,
    fragment: JsonTree,
    n: u64,
    other: u64,
)
    requires
        is_under(fragment, n as int),
        !opens_object(fragment) || !m.contains_key(n) || m[n].1.len() == 0 || json_of_text(m[n].1)
            is None,
    ensures
        ({
            let r = after_fragment(m, fragment);
            &&& r.contains_key(n)
            &&& m.contains_key(n) ==> r[n].1 == m[n].1 + piece(fragment)
            &&& m.contains_key(n) && m[n].0.len() > 0 ==> r[n].0 == m[n].0
            &&& m.contains_key(n) && m[n].0.len() == 0 ==> r[n].0 == given_name(fragment)
            &&& !m.contains_key(n) ==> r[n] == (given_name(fragment), piece(fragment))
            &&& other != n ==> r.contains_key(other) == m.contains_key(other)
            &&& other != n && m.contains_key(other) ==> r[other] == m[other]
        }),
{
    lemma_nothing_opens_nothing();
    let r = after_fragment(m, fragment);
    let old = if m.contains_key(n) {
        m[n]
    } else {
        (Seq::empty(), Seq::empty())
    };
    assert(old.1 + Seq::<char>::empty() =~= old.1);
    assert(Seq::<char>::empty() + piece(fragment) =~= piece(fragment));
    if old.0.len() == 0 {
        assert(old.0 =~= Seq::empty());
    }
    assert(r[n] == (
        if old.0.len() > 0 {
            old.0
        } else {
            given_name(fragment)
        },
        old.1 + piece(fragment),
    ));
}

/// A fragment that begins a new object where its slot holds complete arguments is a call of
/// its own: every call so far stays, and one more comes behind them, with the name and the
/// piece of that fragment. (Where the last slot has the largest number there is, the
/// numbers wrap around.)
pub proof fn law_a_second_object_is_a_second_call(
    m: Map<u64, (Seq<char>, Seq<char>)>,
    fragment: JsonTree,
    n: u64,
    last: u64,
    other: u64,
)
    requires
        is_under(fragment, n as int),
        opens_object(fragment),
        m.contains_key(n),
        m[n].1.len() > 0,
        json_of_text(m[n].1) is Some,
        m.contains_key(last),
        forall|j: u64| #[trigger] m.contains_key(j) ==> j <= last,
        last < u64::MAX,
    ensures
        ({
            let r = after_fragment(m, fragment);
            let new = (last + 1) as u64;
            &&& !m.contains_key(new)
            &&& r.contains_key(new)
            &&& r[new] == (given_name(fragment), piece(fragment))
            &&& other != new ==> r.contains_key(other) == m.contains_key(other)
            &&& m.contains_key(other) ==> r.contains_key(other) && r[other] == m[other]
        }),
{
    lemma_nothing_opens_nothing();
    assert(is_largest(m, last));
    let found = choose|k: u64| is_largest(m, k);
    assert(m.contains_key(found) && m.contains_key(last));
    assert(m.dom().contains(last));
    assert(fresh_slot(m) == last + 1);
    assert(Seq::<char>::empty() + piece(fragment) =~= piece(fragment));
    let new = (last + 1) as u64;
    assert(after_fragment(m, fragment)[new] == (given_name(fragment), piece(fragment)));
}

/// All the pieces of arguments that come under a number, one behind the other.
pub open spec fn brought_args(fragments: Seq<JsonTree>, n: int) -> Seq<char>
    decreases fragments.len(),
{
    if fragments.len() == 0 {
        Seq::empty()
    } else if is_under(fragments.last(), n) {
        brought_args(fragments.drop_last(), n) + piece(fragments.last())
    } else {
        brought_args(fragments.drop_last(), n)
    }
}

/// The first name that comes under a number and is not empty.
pub open spec fn brought_name(fragments: Seq<JsonTree>, n: int) -> Seq<char>
    decreases fragments.len(),
{
    if fragments.len() == 0 {
        Seq::empty()
    } else if is_under(fragments.last(), n) && brought_name(fragments.drop_last(), n).len() == 0 {
        given_name(fragments.last())
    } else {
        brought_name(fragments.drop_last(), n)
    }
}

/// Whether a number is the index of one call alone: no object begins under it once
/// arguments have come under it.
pub open spec fn one_call_each(fragments: Seq<JsonTree>) -> bool {
    forall|j: int, n: int|
        0 <= j < fragments.len() && #[trigger] is_under(fragments[j], n) && opens_object(
            fragments[j],
        ) ==> brought_args(fragments.take(j), n).len() == 0
}

/// Fragments gather by their index: whatever the order in which the fragments of several
/// calls come, under each number stand the name and all the pieces of arguments that came
/// under it, and nothing of those that came under another.
pub proof fn law_fragments_gather_by_index(fragments: Seq<JsonTree>, n: u64)
    requires
        one_call_each(fragments),
    ensures
        ({
            let m = after_fragments(Map::empty(), fragments);
            &&& m.contains_key(n) <==> exists|j: int|
                0 <= j < fragments.len() && #[trigger] is_under(fragments[j], n as int)
            &&& m.contains_key(n) ==> m[n] == (
                brought_name(fragments, n as int),
                brought_args(fragments, n as int),
            )
            &&& !m.contains_key(n) ==> brought_name(fragments, n as int).len() == 0
                && brought_args(fragments, n as int).len() == 0
        }),
    decreases fragments.len(),
{
    if fragments.len() > 0 {
        let before = fragments.drop_last();
        let f = fragments.last();
        let k: u64 = fragment_index(f);
        assert forall|j: int, i: int|
            0 <= j < before.len() && #[trigger] is_under(before[j], i) && opens_object(
                before[j],
            ) implies brought_args(before.take(j), i).len() == 0 by {
            assert(is_under(fragments[j], i));
            assert(before.take(j) =~= fragments.take(j));
        }
        law_fragments_gather_by_index(before, n);
        law_fragments_gather_by_index(before, k);
        let was = after_fragments(Map::empty(), before);
        assert(is_under(fragments[fragments.len() - 1], k as int));
        assert(fragments.take(fragments.len() - 1) =~= before);
        law_a_fragment_changes_only_its_slot(was, f, k, n);
        assert(is_under(f, n as int) <==> n == k);
        if exists|j: int| 0 <= j < fragments.len() && #[trigger] is_under(fragments[j], n as int) {
            let j = choose|j: int|
                0 <= j < fragments.len() && #[trigger] is_under(fragments[j], n as int);
            if j < before.len() {
                assert(is_under(before[j], n as int));
            }
        }
        if was.contains_key(n) {
            let j = choose|j: int|
                0 <= j < before.len() && #[trigger] is_under(before[j], n as int);
            assert(is_under(fragments[j], n as int));
        } else if n == k {
            assert(brought_args(before, n as int) =~= Seq::empty());
            assert(brought_args(fragments, n as int) =~= piece(f));
        }
    }
}

/// The calls come out by the numbers of their slots, the smallest first, each with the name
/// in its slot and with what is read from the arguments there; where nothing is read from
/// them, with an object without members.
pub proof fn law_calls_come_in_the_order_of_their_slots(
    m: Map<u64, (Seq<char>, Seq<char>)>,
    keys: Seq<u64>,
    i: int,
)
    requires
        forall|a: int, b: int| 0 <= a < b < keys.len() ==> keys[a] < keys[b],
        forall|k: u64| #[trigger] keys.contains(k) <==> m.contains_key(k),
        0 <= i < keys.len(),
    ensures
        native_calls(m).len() == keys.len(),
        native_calls(m)[i].0 == m[keys[i]].0,
        json_of_text(m[keys[i]].1) matches Some(t) ==> native_calls(m)[i].1 == t,
        json_of_text(m[keys[i]].1) is None ==> native_calls(m)[i].1 == JsonTree::Object(
            Seq::empty(),
        ),
{
    assert(keys_in_order(keys, m));
    lemma_same_keys(keys, ordered_keys(m));
}

/// Calls that stream in under the numbers from zero on come out as they were meant: exactly
/// those calls, in the order of their numbers, each with its own name and with what all its
/// own pieces of arguments read as together.
pub proof fn law_streamed_calls_come_together(fragments: Seq<JsonTree>, args: Seq<JsonTree>)
    requires
        one_call_each(fragments),
        args.len() <= u64::MAX,
        forall|j: int, n: int|
            0 <= j < fragments.len() && #[trigger] is_under(fragments[j], n) ==> n < args.len(),
        forall|i: int|
            0 <= i < args.len() ==> json_of_text(#[trigger] brought_args(fragments, i)) == Some(
                args[i],
            ),
        forall|i: int|
            0 <= i < args.len() ==> #[trigger] brought_args(fragments, i).len() > 0,
    ensures
        native_calls(after_fragments(Map::empty(), fragments)) == Seq::new(
            args.len(),
            |i: int| (brought_name(fragments, i), args[i]),
        ),
{
    let m = after_fragments(Map::empty(), fragments);
    let keys = Seq::new(args.len(), |i: int| i as u64);
    assert forall|k: u64| #[trigger] keys.contains(k) <==> m.contains_key(k) by {
        law_fragments_gather_by_index(fragments, k);
        if m.contains_key(k) {
            let j = choose|j: int|
                0 <= j < fragments.len() && #[trigger] is_under(fragments[j], k as int);
            assert(is_under(fragments[j], k as int));
            assert(keys[k as int] == k);
        }
        if keys.contains(k) {
            let i = choose|i: int| 0 <= i < keys.len() && keys[i] == k;
            assert(brought_args(fragments, i).len() > 0);
        }
    }
    let calls = native_calls(m);
    if args.len() > 0 {
        law_calls_come_in_the_order_of_their_slots(m, keys, 0);
    } else {
        assert(keys_in_order(keys, m));
        lemma_same_keys(keys, ordered_keys(m));
    }
    assert forall|i: int| 0 <= i < args.len() implies #[trigger] calls[i] == (
        brought_name(fragments, i),
        args[i],
    ) by {
        law_calls_come_in_the_order_of_their_slots(m, keys, i);
        assert(keys.contains(keys[i]));
        law_fragments_gather_by_index(fragments, keys[i]);
        assert(json_of_text(brought_args(fragments, i)) == Some(args[i]));
    }
    assert(calls =~= Seq::new(args.len(), |i: int| (brought_name(fragments, i), args[i])));
}

/// What the stream brought is what is handed out: of fragments that come under the numbers
/// from zero on, exactly those calls, in their order, each with its own name and arguments.
pub proof fn law_streamed_calls_are_handed_out(
    calls: &mut ToolCalls,
    fragments: &Vec<Json>,
    after: &ToolCalls,
    r: Vec<ToolCall>,
    args: Seq<JsonTree>,
    i: int,
)
    requires
        old(calls)@ == Map::<u64, (Seq<char>, Seq<char>)>::empty(),
        call_ensures(ToolCalls::on_fragments, (calls, fragments), ()),
        after@ == final(calls)@,
        call_ensures(ToolCalls::calls, (after,), r),
        one_call_each(trees(fragments@)),
        args.len() <= u64::MAX,
        forall|j: int, n: int|
            0 <= j < fragments@.len() && #[trigger] is_under(trees(fragments@)[j], n) ==> n
                < args.len(),
        forall|k: int|
            0 <= k < args.len() ==> json_of_text(#[trigger] brought_args(trees(fragments@), k))
                == Some(args[k]),
        forall|k: int|
            0 <= k < args.len() ==> #[trigger] brought_args(trees(fragments@), k).len() > 0,
        0 <= i < args.len(),
    ensures
        r@.len() == args.len(),
        r@[i].name@ == brought_name(trees(fragments@), i),
        r@[i].args@ == args[i],
{
    lemma_trees(fragments@);
    law_streamed_calls_come_together(trees(fragments@), args);
    let view = calls_view(r@);
    assert(view.len() == r@.len());
    assert(view[i] == (r@[i].name@, r@[i].args@));
}

} // verus!
