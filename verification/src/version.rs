//! Comparing versions, and the report on a newer release.
use vstd::prelude::*;

use crate::json::{member, said, text_at, Json, JsonTree};
use crate::text::{
    begins, chars_of, decimal, is_digit, joined, law_decimal_reads_back, law_split_undoes_join,
    lemma_strip_front_at, number_within, parse_number, pieces, split, starts_with, strip_front, text_between, trim_front,
    Class,
};

verus! {

/// The digits that a text begins with.
pub open spec fn leading_digits(s: Seq<char>) -> Seq<char>
    decreases s.len(),
{
    if s.len() == 0 || !is_digit(s[0]) {
        Seq::empty()
    } else {
        seq![s[0]] + leading_digits(s.skip(1))
    }
}

/// The number at the front of a part of a version; zero where there is none, or
/// where it is beyond 64 bits.
pub open spec fn part_number(part: Seq<char>) -> nat {
    match number_within(leading_digits(part), u64::MAX as nat) {
        Some(n) => n,
        None => 0,
    }
}

/// The numbers of a version, part by part.
pub open spec fn numbers(version: Seq<char>) -> Seq<nat> {
    pieces(version, Class::VersionMark).map_values(|p: Seq<char>| part_number(p))
}

/// The number at a position, and zero beyond the last.
pub open spec fn at(v: Seq<nat>, i: int) -> nat {
    if 0 <= i < v.len() {
        v[i]
    } else {
        0
    }
}

/// Whether `a` exceeds `b` at `i`, and equals it before.
pub open spec fn exceeds_at(a: Seq<nat>, b: Seq<nat>, i: int) -> bool {
    0 <= i && at(a, i) > at(b, i) && forall|j: int| 0 <= j < i ==> at(a, j) == at(b, j)
}

/// Whether `a` exceeds `b` at the first position where they differ.
pub open spec fn exceeds(a: Seq<nat>, b: Seq<nat>) -> bool {
    exists|i: int| exceeds_at(a, b, i)
}

proof fn lemma_leading_digits_at(s: Seq<char>, i: int)
    requires
        0 <= i <= s.len(),
        forall|j: int| 0 <= j < i ==> is_digit(s[j]),
        i < s.len() ==> !is_digit(s[i]),
    ensures
        leading_digits(s) == s.subrange(0, i),
    decreases i,
{
    if i > 0 {
        lemma_leading_digits_at(s.skip(1), i - 1);
        assert(seq![s[0]] + s.skip(1).subrange(0, i - 1) =~= s.subrange(0, i));
    } else {
        assert(s.subrange(0, 0) =~= Seq::empty());
    }
}

fn read_part(part: &str) -> (r: u64)
    ensures
        r == part_number(part@),
{
    let v = chars_of(part);
    let mut i: usize = 0;
    while i < v.len() && '0' <= v[i] && v[i] <= '9'
        invariant
            i <= v@.len(),
            forall|j: int| 0 <= j < i ==> is_digit(v@[j]),
        decreases v@.len() - i,
    {
        i = i + 1;
    }
    proof {
        lemma_leading_digits_at(v@, i as int);
    }
    match parse_number(text_between(&v, 0, i).as_str(), u64::MAX) {
        Some(n) => n,
        None => 0,
    }
}

fn read_numbers(version: &str) -> (r: Vec<u64>)
    ensures
        r@.map_values(|n: u64| n as nat) == numbers(version@),
{
    let parts = split(version, &Class::VersionMark);
    let mut out: Vec<u64> = Vec::new();
    for i in 0..parts.len()
        invariant
            parts.deep_view() == pieces(version@, Class::VersionMark),
            out@.len() == i,
            forall|j: int| 0 <= j < i ==> #[trigger] out@[j] == part_number(parts@[j]@),
    {
        out.push(read_part(parts[i].as_str()));
    }
    assert(out@.map_values(|n: u64| n as nat) =~= numbers(version@)) by {
        assert(numbers(version@).len() == parts@.len());
        assert forall|j: int| 0 <= j < parts@.len() implies numbers(version@)[j] == out@[j] by {
            assert(pieces(version@, Class::VersionMark)[j] == parts@[j]@);
        }
    }
    out
}

/// Compares dotted versions ("0.10.0" is beyond "0.9.9"). A part that begins
/// with no number counts as zero.
pub fn version_gt(a: &str, b: &str) -> (r: bool)
    ensures
        r == exceeds(numbers(a@), numbers(b@)),
{
    let pa = read_numbers(a);
    let pb = read_numbers(b);
    let ghost na = numbers(a@);
    let ghost nb = numbers(b@);
    let n: usize = if pa.len() >= pb.len() {
        pa.len()
    } else {
        pb.len()
    };
    assert(na.len() == pa@.len());
    assert(nb.len() == pb@.len());
    for i in 0..n
        invariant
            na == pa@.map_values(|n: u64| n as nat),
            nb == pb@.map_values(|n: u64| n as nat),
            na == numbers(a@),
            nb == numbers(b@),
            n >= na.len(),
            n >= nb.len(),
            forall|j: int| 0 <= j < i ==> at(na, j) == at(nb, j),
    {
        let x: u64 = if i < pa.len() {
            pa[i]
        } else {
            0
        };
        let y: u64 = if i < pb.len() {
            pb[i]
        } else {
            0
        };
        assert(at(na, i as int) == x);
        assert(at(nb, i as int) == y);
        if x != y {
            proof {
                if x > y {
                    assert(exceeds_at(na, nb, i as int));
                } else {
                    assert forall|k: int| !exceeds_at(na, nb, k) by {
                        if exceeds_at(na, nb, k) {
                            assert(k >= i);
                        }
                    }
                }
            }
            return x > y;
        }
    }
    assert forall|k: int| !exceeds_at(na, nb, k) by {
        if k >= n {
            assert(at(na, k) == 0);
        }
    }
    false
}

/// No version is beyond itself.
pub proof fn law_not_beyond_itself(a: Seq<nat>)
    ensures
        !exceeds(a, a),
{
}

/// Two versions are never beyond each other.
pub proof fn law_one_way(a: Seq<nat>, b: Seq<nat>)
    requires
        exceeds(a, b),
    ensures
        !exceeds(b, a),
{
    let i = choose|i: int| exceeds_at(a, b, i);
    assert forall|j: int| !exceeds_at(b, a, j) by {
        if exceeds_at(b, a, j) {
            if j < i {
                assert(at(a, j) == at(b, j));
            } else if i < j {
                assert(at(b, i) == at(a, i));
            }
        }
    }
}

/// What is beyond something that is beyond a version is beyond it too.
pub proof fn law_transitive(a: Seq<nat>, b: Seq<nat>, c: Seq<nat>)
    requires
        exceeds(a, b),
        exceeds(b, c),
    ensures
        exceeds(a, c),
{
    let i = choose|i: int| exceeds_at(a, b, i);
    let j = choose|j: int| exceeds_at(b, c, j);
    let k = if i < j {
        i
    } else {
        j
    };
    assert(exceeds_at(a, c, k));
}

/// Of two versions one is beyond the other, unless they agree at every position.
pub proof fn law_comparable(a: Seq<nat>, b: Seq<nat>)
    ensures
        exceeds(a, b) || exceeds(b, a) || forall|i: int| #[trigger] at(a, i) == at(b, i),
{
    if !(forall|i: int| #[trigger] at(a, i) == at(b, i)) {
        let i = choose|i: int| #[trigger] at(a, i) != at(b, i);
        let k = lemma_first_difference(a, b, i);
        assert(exceeds_at(a, b, k) || exceeds_at(b, a, k));
    }
}

proof fn lemma_first_difference(a: Seq<nat>, b: Seq<nat>, i: int) -> (k: int)
    requires
        at(a, i) != at(b, i),
    ensures
        0 <= k,
        at(a, k) != at(b, k),
        forall|j: int| 0 <= j < k ==> at(a, j) == at(b, j),
    decreases i,
{
    if exists|j: int| 0 <= j < i && at(a, j) != at(b, j) {
        let j = choose|j: int| 0 <= j < i && at(a, j) != at(b, j);
        lemma_first_difference(a, b, j)
    } else {
        i
    }
}

/// Trailing zeros make no difference: "1.2" and "1.2.0" compare alike.
pub proof fn law_trailing_zero(a: Seq<nat>, b: Seq<nat>)
    ensures
        exceeds(a.push(0), b) == exceeds(a, b),
        exceeds(b, a.push(0)) == exceeds(b, a),
{
    let z = a.push(0);
    assert forall|i: int| #[trigger] at(z, i) == at(a, i) by {}
    assert forall|i: int| exceeds_at(z, b, i) == exceeds_at(a, b, i) by {
        assert(at(z, i) == at(a, i));
        assert(forall|j: int| #[trigger] at(z, j) == at(a, j));
    }
    assert forall|i: int| exceeds_at(b, z, i) == exceeds_at(b, a, i) by {
        assert(at(z, i) == at(a, i));
        assert(forall|j: int| #[trigger] at(z, j) == at(a, j));
    }
}

// ── Updates ──────────────────────────────────────────────────────────────────

/// What is known of the latest release.
#[derive(Debug, PartialEq)]
pub struct UpdateReport {
    pub current: String,
    pub latest: String,
    pub has_update: bool,
    pub url: String,
}

/// The tag of the latest release, in the reply to the question for it.
pub open spec fn release_tag(reply: Option<JsonTree>) -> Option<Seq<char>> {
    match reply {
        Some(t) => text_at(t, "tag_name"@),
        None => None,
    }
}

/// The report on the latest release, by the reply to the question for it. Without a
/// tag in it (no release yet, or offline) the current version counts as the latest.
pub fn check_update(current: &str, reply: Option<&Json>) -> (r: UpdateReport)
    ensures
        r.current@ == current@,
        match release_tag(said(reply)) {
            Some(t) => {
                &&& r.latest@ == strip_front(t, Class::Only('v'))
                &&& r.has_update == exceeds(numbers(r.latest@), numbers(current@))
                &&& r.url@ == "https://github.com/justeozan/vox/releases/latest"@
            },
            None => r.latest@ == current@ && !r.has_update && r.url@ == ""@,
        },
{
    let tag = match reply {
        Some(j) => j.text("tag_name"),
        None => None,
    };
    match tag {
        Some(t) => {
            let latest = trim_front(t.as_str(), &Class::Only('v'));
            let has_update = version_gt(latest.as_str(), current);
            UpdateReport {
                current: current.to_owned(),
                latest,
                has_update,
                url: "https://github.com/justeozan/vox/releases/latest".to_owned(),
            }
        },
        None => UpdateReport {
            current: current.to_owned(),
            latest: current.to_owned(),
            has_update: false,
            url: "".to_owned(),
        },
    }
}

/// Whether a link may be opened in the browser.
pub fn open_url(url: &str) -> (r: bool)
    ensures
        r == begins(url@, "https://"@),
{
    starts_with(url, "https://")
}

/// A part of a version counts as the number that it begins with, whatever follows the digits.
pub proof fn law_a_part_counts_as_its_number(n: nat, rest: Seq<char>)
    requires
        n <= u64::MAX,
        rest.len() > 0 ==> !is_digit(rest[0]),
    ensures
        part_number(decimal(n) + rest) == n,
        part_number(rest) == 0,
{
    law_decimal_reads_back(n);
    let s = decimal(n) + rest;
    assert forall|j: int| 0 <= j < decimal(n).len() implies is_digit(s[j]) by {
        assert(is_digit(decimal(n)[j]));
    }
    if rest.len() > 0 {
        assert(s[decimal(n).len() as int] == rest[0]);
    }
    lemma_leading_digits_at(s, decimal(n).len() as int);
    assert(s.subrange(0, decimal(n).len() as int) =~= decimal(n));
    lemma_leading_digits_at(rest, 0);
    assert(rest.subrange(0, 0) =~= Seq::empty());
}

/// A dotted version means its numbers, in their order: writing any numbers with dots between
/// them and reading them again gives these numbers.
pub proof fn law_a_version_means_its_numbers(ns: Seq<nat>)
    requires
        ns.len() > 0,
        forall|i: int| 0 <= i < ns.len() ==> #[trigger] ns[i] <= u64::MAX,
    ensures
        numbers(joined(ns.map_values(|n: nat| decimal(n)), seq!['.'])) == ns,
{
    let parts = ns.map_values(|n: nat| decimal(n));
    assert forall|k: int, i: int| 0 <= k < parts.len() && 0 <= i < parts[k].len() implies
        !Class::VersionMark.holds(#[trigger] parts[k][i]) by {
        law_decimal_reads_back(ns[k]);
        assert(is_digit(decimal(ns[k])[i]));
    }
    law_split_undoes_join(parts, '.', Class::VersionMark);
    let got = numbers(joined(parts, seq!['.']));
    assert forall|i: int| 0 <= i < ns.len() implies #[trigger] got[i] == ns[i] by {
        assert(ns[i] <= u64::MAX);
        law_a_part_counts_as_its_number(ns[i], Seq::empty());
        assert(decimal(ns[i]) + Seq::<char>::empty() =~= decimal(ns[i]));
    }
    assert(got =~= ns);
}

/// A larger number at the first place where two versions differ makes the larger version,
/// whatever follows.
pub proof fn law_the_first_difference_decides(a: Seq<nat>, b: Seq<nat>, i: int)
    requires
        0 <= i < a.len(),
        i < b.len(),
        a.take(i) == b.take(i),
        a[i] > b[i],
    ensures
        exceeds(a, b),
        !exceeds(b, a),
{
    assert forall|j: int| 0 <= j < i implies at(a, j) == at(b, j) by {
        assert(a.take(i)[j] == a[j]);
        assert(b.take(i)[j] == b[j]);
    }
    assert(exceeds_at(a, b, i));
    law_one_way(a, b);
}

/// The tag of a release is the text under its key.
pub proof fn law_the_tag_is_in_the_reply(reply: JsonTree, tag: Seq<char>)
    ensures
        member(reply, "tag_name"@) == Some(JsonTree::Text(tag)) ==> release_tag(Some(reply)) == Some(
            tag,
        ),
        !(member(reply, "tag_name"@) matches Some(JsonTree::Text(_))) ==> release_tag(Some(reply))
            is None,
        release_tag(None) is None,
{
}

/// An update is reported exactly where the tag of the latest release, without its leading "v",
/// is beyond the current version, and then with a link; without a release the current version
/// counts as the latest.
pub proof fn law_an_update_is_reported_where_there_is_one(
    current: &str,
    reply: &Json,
    r: UpdateReport,
    none: UpdateReport,
    tag: Seq<char>,
)
    requires
        call_ensures(check_update, (current, Some(reply)), r),
        call_ensures(check_update, (current, None), none),
        member(reply@, "tag_name"@) == Some(JsonTree::Text(seq!['v'] + tag)),
        tag.len() > 0 ==> tag[0] != 'v',
    ensures
        r.latest@ == tag,
        r.has_update <==> exceeds(numbers(tag), numbers(current@)),
        r.url@.len() > 0,
        r.current@ == current@,
        !none.has_update,
        none.latest@ == current@,
{
    let t = seq!['v'] + tag;
    if tag.len() > 0 {
        assert(t[1] == tag[0]);
    }
    lemma_strip_front_at(t, Class::Only('v'), 1);
    assert(t.subrange(1, t.len() as int) =~= tag);
    reveal_strlit("https://github.com/justeozan/vox/releases/latest");
}

/// A version is told to be beyond another exactly where its numbers are; and only links over
/// HTTPS are opened.
pub proof fn law_versions_compare_by_their_numbers(
    a: &str,
    b: &str,
    r: bool,
    url: &str,
    opened: bool,
)
    requires
        call_ensures(version_gt, (a, b), r),
        call_ensures(open_url, (url,), opened),
    ensures
        r <==> exceeds(numbers(a@), numbers(b@)),
        opened <==> begins(url@, "https://"@),
{
}

} // verus!
