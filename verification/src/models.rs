//! The models that are installed.
use vstd::prelude::*;
use vstd::seq_lib::{lemma_multiset_commutative, to_multiset_build};

use crate::json::{items_of, lemma_trees, member, said, text_at, trees, Json, JsonTree};
use crate::text::chars_of;

verus! {

/// The order of texts, character by character.
pub open spec fn not_after(a: Seq<char>, b: Seq<char>) -> bool
    decreases a.len(),
{
    if a.len() == 0 {
        true
    } else if b.len() == 0 {
        false
    } else if a[0] == b[0] {
        not_after(a.skip(1), b.skip(1))
    } else {
        a[0] < b[0]
    }
}

/// Whether texts stand in order.
pub open spec fn in_order(texts: Seq<Seq<char>>) -> bool {
    forall|i: int, j: int| 0 <= i < j < texts.len() ==> not_after(texts[i], texts[j])
}

proof fn lemma_total(a: Seq<char>, b: Seq<char>)
    ensures
        not_after(a, b) || not_after(b, a),
    decreases a.len(),
{
    if a.len() > 0 && b.len() > 0 && a[0] == b[0] {
        lemma_total(a.skip(1), b.skip(1));
    }
}

proof fn lemma_transitive(a: Seq<char>, b: Seq<char>, c: Seq<char>)
    requires
        not_after(a, b),
        not_after(b, c),
    ensures
        not_after(a, c),
    decreases a.len(),
{
    if a.len() > 0 && b.len() > 0 && c.len() > 0 && a[0] == b[0] && b[0] == c[0] {
        lemma_transitive(a.skip(1), b.skip(1), c.skip(1));
    }
}

fn precedes(a: &str, b: &str) -> (r: bool)
    ensures
        r == not_after(a@, b@),
{
    let x = chars_of(a);
    let y = chars_of(b);
    let mut i: usize = 0;
    assert(x@.skip(0) =~= x@);
    assert(y@.skip(0) =~= y@);
    while i < x.len()
        invariant
            x@ == a@,
            y@ == b@,
            i <= x@.len(),
            i <= y@.len(),
            not_after(a@, b@) == not_after(x@.skip(i as int), y@.skip(i as int)),
        decreases x@.len() - i,
    {
        if i >= y.len() {
            return false;
        }
        assert(x@.skip(i as int)[0] == x@[i as int]);
        assert(y@.skip(i as int)[0] == y@[i as int]);
        if x[i] != y[i] {
            return x[i] < y[i];
        }
        assert(x@.skip(i as int).skip(1) =~= x@.skip(i + 1));
        assert(y@.skip(i as int).skip(1) =~= y@.skip(i + 1));
        i = i + 1;
    }
    true
}

/// Puts a text in its place.
fn put_in_order(texts: &mut Vec<String>, text: String)
    requires
        in_order(old(texts).deep_view()),
    ensures
        in_order(final(texts).deep_view()),
        final(texts).deep_view().to_multiset() == old(texts).deep_view().to_multiset().insert(
            text@,
        ),
{
    let ghost was = texts.deep_view();
    let ghost word = text@;
    let mut p: usize = 0;
    while p < texts.len() && precedes(texts[p].as_str(), text.as_str())
        invariant
            p <= texts@.len(),
            was == texts.deep_view(),
            word == text@,
            forall|j: int| 0 <= j < p ==> not_after(#[trigger] was[j], word),
        decreases texts@.len() - p,
    {
        p = p + 1;
    }
    proof {
        assert forall|j: int| p <= j < was.len() implies not_after(word, #[trigger] was[j]) by {
            lemma_total(was[p as int], word);
            if j > p {
                lemma_transitive(word, was[p as int], was[j]);
            }
        }
    }
    texts.insert(p, text);
    proof {
        let now = texts.deep_view();
        assert(now =~= was.insert(p as int, word));
        let front = was.take(p as int);
        let back = was.skip(p as int);
        assert(was =~= front + back);
        assert(now =~= front.push(word) + back);
        lemma_multiset_commutative(front, back);
        lemma_multiset_commutative(front.push(word), back);
        to_multiset_build(front, word);
        assert(now.to_multiset() =~= was.to_multiset().insert(word));
    }
}

/// The names of the models in a reply.
pub open spec fn model_names(models: Seq<JsonTree>) -> Seq<Seq<char>>
    decreases models.len(),
{
    if models.len() == 0 {
        Seq::empty()
    } else {
        let before = model_names(models.drop_last());
        match text_at(models.last(), "name"@) {
            Some(name) => before.push(name),
            None => before,
        }
    }
}

/// The models that a reply lists; none without a reply, or a list in it.
pub open spec fn listed(reply: Option<JsonTree>) -> Seq<JsonTree> {
    match reply {
        Some(t) => match items_of(member(t, "models"@)) {
            Some(items) => items,
            None => Seq::empty(),
        },
        None => Seq::empty(),
    }
}

/// The names of the models that a reply lists, in order.
pub fn list_models(reply: Option<&Json>) -> (r: Vec<String>)
    ensures
        in_order(r.deep_view()),
        r.deep_view().to_multiset() == model_names(listed(said(reply))).to_multiset(),
{
    let mut out: Vec<String> = Vec::new();
    assert(out.deep_view() =~= Seq::empty());
    let models = match reply {
        Some(j) => match j.get("models") {
            Some(m) => m.as_list(),
            None => None,
        },
        None => None,
    };
    if let Some(models) = models {
        let ghost all = trees(models@);
        proof {
            lemma_trees(models@);
            assert(all.take(0) =~= Seq::empty());
        }
        for i in 0..models.len()
            invariant
                all.len() == models@.len(),
                forall|j: int| 0 <= j < all.len() ==> #[trigger] all[j] == models@[j]@,
                in_order(out.deep_view()),
                out.deep_view().to_multiset() == model_names(all.take(i as int)).to_multiset(),
        {
            proof {
                assert(all.take(i + 1).drop_last() =~= all.take(i as int));
                assert(all.take(i + 1).last() == all[i as int]);
            }
            if let Some(name) = models[i].text("name") {
                proof {
                    to_multiset_build(model_names(all.take(i as int)), name@);
                }
                put_in_order(&mut out, name);
            }
        }
        assert(all.take(models@.len() as int) =~= all);
    }
    out
}

/// Two lists in order that hold the same texts are the same: the order leaves nothing
/// open.
pub proof fn law_the_order_is_unique(a: Seq<Seq<char>>, b: Seq<Seq<char>>)
    requires
        in_order(a),
        in_order(b),
        a.to_multiset() == b.to_multiset(),
    ensures
        a == b,
{
    let leq = |x: Seq<char>, y: Seq<char>| not_after(x, y);
    assert(vstd::relations::total_ordering(leq)) by {
        assert forall|x: Seq<char>| #[trigger] leq(x, x) by {
            lemma_total(x, x);
        }
        assert forall|x: Seq<char>, y: Seq<char>| #[trigger] leq(x, y) && #[trigger] leq(
            y,
            x,
        ) implies x == y by {
            lemma_antisymmetric(x, y);
        }
        assert forall|x: Seq<char>, y: Seq<char>, z: Seq<char>| #[trigger] leq(x, y) && #[trigger]
            leq(y, z) implies leq(x, z) by {
            lemma_transitive(x, y, z);
        }
        assert forall|x: Seq<char>, y: Seq<char>| #[trigger] leq(x, y) || #[trigger] leq(y, x) by {
            lemma_total(x, y);
        }
    }
    vstd::seq_lib::lemma_sorted_unique(a, b, leq);
}

proof fn lemma_antisymmetric(a: Seq<char>, b: Seq<char>)
    requires
        not_after(a, b),
        not_after(b, a),
    ensures
        a == b,
    decreases a.len(),
{
    if a.len() > 0 && b.len() > 0 {
        lemma_antisymmetric(a.skip(1), b.skip(1));
        assert(a =~= seq![a[0]] + a.skip(1));
        assert(b =~= seq![b[0]] + b.skip(1));
    } else {
        assert(a =~= b);
    }
}

/// The names of the models are gathered stretch by stretch: of a single model its name, where
/// that is a text. They are those under "models" in the reply, where that is a list.
pub proof fn law_every_model_with_a_name_is_listed(
    a: Seq<JsonTree>,
    b: Seq<JsonTree>,
    m: JsonTree,
    name: Seq<char>,
    reply: JsonTree,
)
    ensures
        model_names(a + b) == model_names(a) + model_names(b),
        member(m, "name"@) == Some(JsonTree::Text(name)) ==> model_names(seq![m]) == seq![name],
        !(member(m, "name"@) matches Some(JsonTree::Text(_))) ==> model_names(seq![m]).len() == 0,
        member(reply, "models"@) == Some(JsonTree::List(a)) ==> listed(Some(reply)) == a,
        !(member(reply, "models"@) matches Some(JsonTree::List(_))) ==> listed(Some(reply)).len()
            == 0,
        listed(None).len() == 0,
    decreases b.len(),
{
    reveal_with_fuel(model_names, 2);
    assert(seq![m].drop_last() =~= Seq::empty());
    assert(model_names(Seq::<JsonTree>::empty()).push(name) =~= seq![name]);
    if b.len() == 0 {
        assert(a + b =~= a);
        assert(model_names(a) + model_names(b) =~= model_names(a));
    } else {
        law_every_model_with_a_name_is_listed(a, b.drop_last(), m, name, reply);
        assert((a + b).drop_last() =~= a + b.drop_last());
        assert(model_names(a + b) =~= model_names(a) + model_names(b));
    }
}

/// Texts stand in order by the first character in which they differ, and a text stands before
/// those that go on from it.
pub proof fn law_the_first_difference_orders(
    front: Seq<char>,
    a: Seq<char>,
    b: Seq<char>,
)
    ensures
        not_after(front, front + b),
        a.len() > 0 && b.len() > 0 && a[0] < b[0] ==> not_after(front + a, front + b)
            && !not_after(front + b, front + a),
        b.len() > 0 ==> !not_after(front + b, front),
    decreases front.len(),
{
    if front.len() == 0 {
        assert(front + a =~= a);
        assert(front + b =~= b);
    } else {
        let t = front.skip(1);
        law_the_first_difference_orders(t, a, b);
        assert((front + a).skip(1) =~= t + a);
        assert((front + b).skip(1) =~= t + b);
        assert((front + a)[0] == front[0]);
        assert((front + b)[0] == front[0]);
    }
}

/// The models that are handed out are those with a name in the reply, each as often as it is
/// there, and in order.
pub proof fn law_the_models_are_handed_out_in_order(
    reply: &Json,
    r: Vec<String>,
    models: Seq<JsonTree>,
)
    requires
        call_ensures(list_models, (Some(reply),), r),
        member(reply@, "models"@) == Some(JsonTree::List(models)),
    ensures
        in_order(r.deep_view()),
        r.deep_view().to_multiset() == model_names(models).to_multiset(),
{
}

} // verus!
