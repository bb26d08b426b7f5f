//! Text as sequences of characters: trimming, cutting, splitting, joining,
//! replacing, and numbers in decimal.
use vstd::prelude::*;

verus! {

/// `String::push` appends one character at the end of the text.
pub assume_specification[ String::push ](s: &mut String, c: char)
    ensures
        final(s)@ == old(s)@.push(c),
;

/// The lower-case form of a text that is not all ASCII, as `str::to_lowercase`
/// gives it.
pub uninterp spec fn unicode_lower(text: Seq<char>) -> Seq<char>;

/// Whether `char::is_alphanumeric` holds of a character.
pub uninterp spec fn is_alphanumeric(c: char) -> bool;

/// Whether a text is all ASCII.
pub open spec fn ascii(text: Seq<char>) -> bool {
    forall|i: int| 0 <= i < text.len() ==> (#[trigger] text[i] as u32) < 128
}

/// The lower-case form of an ASCII text: its capitals become small letters.
pub open spec fn ascii_lower(text: Seq<char>) -> Seq<char> {
    text.map_values(
        |c: char|
            if 'A' <= c <= 'Z' {
                (c as u32 + 32) as char
            } else {
                c
            },
    )
}

/// The lower-case form of a text.
pub open spec fn lower(text: Seq<char>) -> Seq<char> {
    if ascii(text) {
        ascii_lower(text)
    } else {
        unicode_lower(text)
    }
}

/// Wraps `str::to_lowercase`. Of an ASCII text it makes the capitals small and
/// keeps the rest; of any other the result is named by `unicode_lower`. Every character
/// becomes one or more, so the result is never shorter than the text.
#[verifier::external_body]
pub(crate) fn to_lowercase(s: &str) -> (r: String)
    ensures
        ascii(s@) ==> r@ == ascii_lower(s@),
        !ascii(s@) ==> r@ == unicode_lower(s@),
        r@.len() >= s@.len(),
{
    s.to_lowercase()
}

/// Wraps `char::is_alphanumeric`, whose answer is named by `is_alphanumeric`.
#[verifier::external_body]
pub(crate) fn alphanumeric(c: char) -> (r: bool)
    ensures
        r == is_alphanumeric(c),
{
    c.is_alphanumeric()
}

// ── Character classes ────────────────────────────────────────────────────────

/// The Unicode `White_Space` characters.
pub open spec fn is_space(c: char) -> bool {
    let n = c as u32;
    ||| 0x9 <= n <= 0xd
    ||| n == 0x20 || n == 0x85 || n == 0xa0 || n == 0x1680
    ||| 0x2000 <= n <= 0x200a
    ||| n == 0x2028 || n == 0x2029 || n == 0x202f || n == 0x205f || n == 0x3000
}

/// Whether a text is nothing but white space.
pub open spec fn is_blank(s: Seq<char>) -> bool {
    forall|i: int| 0 <= i < s.len() ==> is_space(#[trigger] s[i])
}

/// Tells white space apart.
pub fn space(c: char) -> (r: bool)
    ensures
        r == is_space(c),
{
    let n: u32 = c as u32;
    (0x9 <= n && n <= 0xd) || n == 0x20 || n == 0x85 || n == 0xa0 || n == 0x1680
        || (0x2000 <= n && n <= 0x200a) || n == 0x2028 || n == 0x2029 || n == 0x202f || n == 0x205f
        || n == 0x3000
}

/// The sets of characters that texts are trimmed by, split at or searched for.
pub enum Class {
    /// White space.
    Space,
    /// Single and double quotes.
    Quotes,
    /// Carriage return and line feed.
    LineBreak,
    /// What separates the parts of a version: dot, hyphen, plus.
    VersionMark,
    /// Table bars and stray hashes.
    Bars,
    /// One given character.
    Only(char),
}

impl Class {
    pub open spec fn holds(self, c: char) -> bool {
        match self {
            Class::Space => is_space(c),
            Class::Quotes => c == '"' || c == '\'',
            Class::LineBreak => c == '\r' || c == '\n',
            Class::VersionMark => c == '.' || c == '-' || c == '+',
            Class::Bars => c == '|' || c == '#',
            Class::Only(x) => c == x,
        }
    }

    pub fn has(&self, c: char) -> (r: bool)
        ensures
            r == self.holds(c),
    {
        match self {
            Class::Space => space(c),
            Class::Quotes => c == '"' || c == '\'',
            Class::LineBreak => c == '\r' || c == '\n',
            Class::VersionMark => c == '.' || c == '-' || c == '+',
            Class::Bars => c == '|' || c == '#',
            Class::Only(x) => c == *x,
        }
    }
}

// ── Texts and characters ─────────────────────────────────────────────────────

/// The characters of a text.
pub fn chars_of(s: &str) -> (r: Vec<char>)
    ensures
        r@ == s@,
{
    let mut v: Vec<char> = Vec::new();
    for c in it: s.chars()
        invariant
            v@ == it.seq().take(it.index()),
            it.seq() == s@,
    {
        v.push(c);
        assert(v@ == it.seq().take(it.index() + 1));
    }
    v
}

/// The text of the characters from `from` up to `to`.
pub fn text_between(v: &Vec<char>, from: usize, to: usize) -> (r: String)
    requires
        from <= to <= v@.len(),
    ensures
        r@ == v@.subrange(from as int, to as int),
{
    let mut s = String::new();
    for i in from..to
        invariant
            from <= to <= v@.len(),
            s@ == v@.subrange(from as int, i as int),
    {
        s.push(v[i]);
        assert(s@ == v@.subrange(from as int, i + 1));
    }
    s
}

/// Whether two texts are the same.
pub fn same(a: &str, b: &str) -> (r: bool)
    ensures
        r == (a@ == b@),
{
    let x = chars_of(a);
    let y = chars_of(b);
    if x.len() != y.len() {
        return false;
    }
    for i in 0..x.len()
        invariant
            x@ == a@,
            y@ == b@,
            x@.len() == y@.len(),
            forall|j: int| 0 <= j < i ==> x@[j] == y@[j],
    {
        if x[i] != y[i] {
            assert(a@[i as int] != b@[i as int]);
            return false;
        }
    }
    assert(a@ =~= b@);
    true
}

pub fn cat2(a: &str, b: &str) -> (r: String)
    ensures
        r@ == a@ + b@,
{
    a.to_owned().concat(b)
}

pub fn cat3(a: &str, b: &str, c: &str) -> (r: String)
    ensures
        r@ == a@ + b@ + c@,
{
    a.to_owned().concat(b).concat(c)
}

pub fn cat4(a: &str, b: &str, c: &str, d: &str) -> (r: String)
    ensures
        r@ == a@ + b@ + c@ + d@,
{
    a.to_owned().concat(b).concat(c).concat(d)
}

pub fn cat5(a: &str, b: &str, c: &str, d: &str, e: &str) -> (r: String)
    ensures
        r@ == a@ + b@ + c@ + d@ + e@,
{
    a.to_owned().concat(b).concat(c).concat(d).concat(e)
}

/// The text in the language that is spoken.
pub open spec fn in_language(en: bool, english: Seq<char>, french: Seq<char>) -> Seq<char> {
    if en {
        english
    } else {
        french
    }
}

/// Picks the text in the language that is spoken.
pub fn say_in(en: bool, english: &str, french: &str) -> (r: String)
    ensures
        r@ == in_language(en, english@, french@),
{
    if en {
        english.to_owned()
    } else {
        french.to_owned()
    }
}

// ── Trimming ─────────────────────────────────────────────────────────────────

/// `s` without the characters of the class at its front.
pub open spec fn strip_front(s: Seq<char>, class: Class) -> Seq<char>
    decreases s.len(),
{
    if s.len() > 0 && class.holds(s[0]) {
        strip_front(s.subrange(1, s.len() as int), class)
    } else {
        s
    }
}

/// `s` without the characters of the class at its back.
pub open spec fn strip_back(s: Seq<char>, class: Class) -> Seq<char>
    decreases s.len(),
{
    if s.len() > 0 && class.holds(s.last()) {
        strip_back(s.drop_last(), class)
    } else {
        s
    }
}

/// `s` without the characters of the class at either end.
pub open spec fn strip(s: Seq<char>, class: Class) -> Seq<char> {
    strip_back(strip_front(s, class), class)
}

/// `s` without the white space at either end.
pub open spec fn trimmed(s: Seq<char>) -> Seq<char> {
    strip(s, Class::Space)
}

/// `strip_front` cuts right before the first character outside the class.
pub proof fn lemma_strip_front_at(s: Seq<char>, class: Class, i: int)
    requires
        0 <= i <= s.len(),
        forall|j: int| 0 <= j < i ==> class.holds(s[j]),
        i < s.len() ==> !class.holds(s[i]),
    ensures
        strip_front(s, class) == s.subrange(i, s.len() as int),
    decreases i,
{
    if i == 0 {
        assert(s.subrange(0, s.len() as int) =~= s);
    } else {
        let t = s.subrange(1, s.len() as int);
        lemma_strip_front_at(t, class, i - 1);
        assert(t.subrange(i - 1, t.len() as int) =~= s.subrange(i, s.len() as int));
    }
}

/// `strip_back` cuts right after the last character outside the class.
pub proof fn lemma_strip_back_at(s: Seq<char>, class: Class, i: int)
    requires
        0 <= i <= s.len(),
        forall|j: int| i <= j < s.len() ==> class.holds(s[j]),
        i > 0 ==> !class.holds(s[i - 1]),
    ensures
        strip_back(s, class) == s.subrange(0, i),
    decreases s.len() - i,
{
    if i == s.len() {
        assert(s.subrange(0, i) =~= s);
    } else {
        let t = s.drop_last();
        lemma_strip_back_at(t, class, i);
        assert(t.subrange(0, i) =~= s.subrange(0, i));
    }
}

fn front_of(v: &Vec<char>, class: &Class) -> (i: usize)
    ensures
        i <= v@.len(),
        forall|j: int| 0 <= j < i ==> class.holds(v@[j]),
        i < v@.len() ==> !class.holds(v@[i as int]),
{
    let mut i: usize = 0;
    while i < v.len() && class.has(v[i])
        invariant
            i <= v@.len(),
            forall|j: int| 0 <= j < i ==> class.holds(v@[j]),
        decreases v@.len() - i,
    {
        i = i + 1;
    }
    i
}

fn back_of(v: &Vec<char>, class: &Class, from: usize) -> (i: usize)
    requires
        from <= v@.len(),
    ensures
        from <= i <= v@.len(),
        forall|j: int| i <= j < v@.len() ==> class.holds(v@[j]),
        i > from ==> !class.holds(v@[i - 1]),
{
    let mut i: usize = v.len();
    while i > from && class.has(v[i - 1])
        invariant
            from <= i <= v@.len(),
            forall|j: int| i <= j < v@.len() ==> class.holds(v@[j]),
        decreases i,
    {
        i = i - 1;
    }
    i
}

/// Cuts the characters of the class off the front.
pub fn trim_front(s: &str, class: &Class) -> (r: String)
    ensures
        r@ == strip_front(s@, *class),
{
    let v = chars_of(s);
    let i = front_of(&v, class);
    proof {
        lemma_strip_front_at(v@, *class, i as int);
    }
    text_between(&v, i, v.len())
}

/// Cuts the characters of the class off the back.
pub fn trim_back(s: &str, class: &Class) -> (r: String)
    ensures
        r@ == strip_back(s@, *class),
{
    let v = chars_of(s);
    let i = back_of(&v, class, 0);
    proof {
        lemma_strip_back_at(v@, *class, i as int);
    }
    text_between(&v, 0, i)
}

/// Cuts the characters of the class off both ends.
pub fn trim_class(s: &str, class: &Class) -> (r: String)
    ensures
        r@ == strip(s@, *class),
{
    let v = chars_of(s);
    let i = front_of(&v, class);
    let j = back_of(&v, class, i);
    proof {
        lemma_strip_front_at(v@, *class, i as int);
        let t = v@.subrange(i as int, v@.len() as int);
        lemma_strip_back_at(t, *class, j - i);
        assert(t.subrange(0, j - i) =~= v@.subrange(i as int, j as int));
    }
    text_between(&v, i, j)
}

/// Cuts the white space off both ends.
pub fn trim(s: &str) -> (r: String)
    ensures
        r@ == trimmed(s@),
{
    trim_class(s, &Class::Space)
}

// ── Cutting and counting ─────────────────────────────────────────────────────

/// The first `n` characters of `s`, or all of them where there are fewer.
pub open spec fn head(s: Seq<char>, n: nat) -> Seq<char> {
    if s.len() <= n {
        s
    } else {
        s.take(n as int)
    }
}

/// Keeps at most the first `n` characters.
pub fn keep_head(s: &str, n: usize) -> (r: String)
    ensures
        r@ == head(s@, n as nat),
{
    let v = chars_of(s);
    if v.len() <= n {
        assert(v@.subrange(0, v@.len() as int) =~= v@);
        text_between(&v, 0, v.len())
    } else {
        text_between(&v, 0, n)
    }
}

/// The number of characters.
pub fn count(s: &str) -> (r: usize)
    ensures
        r == s@.len(),
{
    chars_of(s).len()
}

/// Whether `s` begins with `prefix`.
pub open spec fn begins(s: Seq<char>, prefix: Seq<char>) -> bool {
    s.len() >= prefix.len() && s.take(prefix.len() as int) == prefix
}

/// Whether `part` occurs in `s` at position `i`.
pub open spec fn occurs_at(s: Seq<char>, part: Seq<char>, i: int) -> bool {
    0 <= i <= s.len() - part.len() && s.subrange(i, i + part.len()) == part
}

/// Whether `part` occurs somewhere in `s`.
pub open spec fn occurs(s: Seq<char>, part: Seq<char>) -> bool {
    exists|i: int| occurs_at(s, part, i)
}

fn found_at(v: &Vec<char>, p: &Vec<char>, i: usize) -> (r: bool)
    ensures
        r == occurs_at(v@, p@, i as int),
{
    if p.len() > v.len() || i > v.len() - p.len() {
        return false;
    }
    for k in 0..p.len()
        invariant
            i + p.len() <= v.len(),
            forall|j: int| 0 <= j < k ==> v@[i + j] == p@[j],
    {
        if v[i + k] != p[k] {
            proof {
                let w = v@.subrange(i as int, i + p@.len());
                assert(w[k as int] != p@[k as int]);
            }
            return false;
        }
    }
    assert(v@.subrange(i as int, i + p@.len()) =~= p@);
    true
}

/// Tells whether `s` begins with `prefix`.
pub fn starts_with(s: &str, prefix: &str) -> (r: bool)
    ensures
        r == begins(s@, prefix@),
{
    let v = chars_of(s);
    let p = chars_of(prefix);
    let r = found_at(&v, &p, 0);
    assert(s@.len() >= prefix@.len() ==> s@.subrange(0, prefix@.len() as int) =~= s@.take(
        prefix@.len() as int,
    ));
    r
}

/// Tells whether `part` occurs somewhere in `s`.
pub fn contains(s: &str, part: &str) -> (r: bool)
    ensures
        r == occurs(s@, part@),
{
    let v = chars_of(s);
    let p = chars_of(part);
    if p.len() > v.len() {
        return false;
    }
    let n: usize = v.len() - p.len();
    let mut i: usize = 0;
    while i <= n
        invariant
            v@ == s@,
            p@ == part@,
            n == v@.len() - p@.len(),
            i <= n + 1,
            forall|j: int| 0 <= j < i ==> !occurs_at(s@, part@, j),
        decreases n + 1 - i,
    {
        if found_at(&v, &p, i) {
            return true;
        }
        if i == n {
            return false;
        }
        i = i + 1;
    }
    false
}

/// What follows `prefix` in `s`, where `s` begins with it.
pub open spec fn after_prefix(s: Seq<char>, prefix: Seq<char>) -> Option<Seq<char>> {
    if begins(s, prefix) {
        Some(s.skip(prefix.len() as int))
    } else {
        None
    }
}

/// Cuts `prefix` off the front of `s`, where it is there.
pub fn strip_prefix(s: &str, prefix: &str) -> (r: Option<String>)
    ensures
        r.deep_view() == after_prefix(s@, prefix@),
{
    let v = chars_of(s);
    if starts_with(s, prefix) {
        let n: usize = count(prefix);
        Some(text_between(&v, n, v.len()))
    } else {
        None
    }
}

// ── Replacing ────────────────────────────────────────────────────────────────

/// `s` with every character of the class replaced by `with`.
pub open spec fn replaced(s: Seq<char>, class: Class, with: Seq<char>) -> Seq<char>
    decreases s.len(),
{
    if s.len() == 0 {
        Seq::empty()
    } else if class.holds(s.last()) {
        replaced(s.drop_last(), class, with) + with
    } else {
        replaced(s.drop_last(), class, with).push(s.last())
    }
}

/// Replaces every character of the class by `with`.
pub fn replace(s: &str, class: &Class, with: &str) -> (r: String)
    ensures
        r@ == replaced(s@, *class, with@),
{
    let v = chars_of(s);
    let mut out = String::new();
    for i in 0..v.len()
        invariant
            v@ == s@,
            out@ == replaced(v@.take(i as int), *class, with@),
    {
        proof {
            assert(v@.take(i + 1).drop_last() =~= v@.take(i as int));
            assert(v@.take(i + 1).last() == v@[i as int]);
        }
        if class.has(v[i]) {
            out.append(with);
        } else {
            out.push(v[i]);
        }
    }
    assert(v@.take(v@.len() as int) =~= v@);
    out
}

/// Every character of a replaced text comes from the replacement, or from the
/// text and outside the class.
pub proof fn lemma_replaced_chars(s: Seq<char>, class: Class, with: Seq<char>)
    ensures
        forall|c: char| #[trigger]
            replaced(s, class, with).contains(c) ==> with.contains(c) || (s.contains(c)
                && !class.holds(c)),
    decreases s.len(),
{
    if s.len() > 0 {
        let t = s.drop_last();
        lemma_replaced_chars(t, class, with);
        let r = replaced(s, class, with);
        let q = replaced(t, class, with);
        assert forall|c: char| #[trigger] r.contains(c) implies with.contains(c) || (s.contains(c)
            && !class.holds(c)) by {
            let i = choose|i: int| 0 <= i < r.len() && r[i] == c;
            if i < q.len() {
                assert(q[i] == c);
                assert(q.contains(c));
                if t.contains(c) {
                    let j = choose|j: int| 0 <= j < t.len() && t[j] == c;
                    assert(s[j] == c);
                }
            } else if class.holds(s.last()) {
                assert(with[i - q.len()] == c);
            } else {
                assert(s[s.len() - 1] == c);
            }
        }
    }
}

/// What trimming leaves begins and ends with a visible character, and is a
/// stretch of the text with nothing but white space around it.
pub proof fn lemma_trimmed_range(s: Seq<char>) -> (range: (int, int))
    ensures
        0 <= range.0 <= range.1 <= s.len(),
        trimmed(s) == s.subrange(range.0, range.1),
        forall|j: int| 0 <= j < range.0 ==> is_space(s[j]),
        forall|j: int| range.1 <= j < s.len() ==> is_space(s[j]),
        range.0 < range.1 ==> !is_space(s[range.0]) && !is_space(s[range.1 - 1]),
{
    let i = lemma_front(s, 0);
    lemma_strip_front_at(s, Class::Space, i);
    let t = strip_front(s, Class::Space);
    let j = lemma_back(t, t.len() as int);
    lemma_strip_back_at(t, Class::Space, j);
    assert(t.subrange(0, j) =~= s.subrange(i, i + j));
    assert forall|k: int| i + j <= k < s.len() implies is_space(s[k]) by {
        assert(t[k - i] == s[k]);
    }
    if j > 0 {
        assert(t[j - 1] == s[i + j - 1]);
        assert(t[0] == s[i]);
    }
    (i, i + j)
}

proof fn lemma_front(s: Seq<char>, i: int) -> (r: int)
    requires
        0 <= i <= s.len(),
        forall|j: int| 0 <= j < i ==> is_space(s[j]),
    ensures
        i <= r <= s.len(),
        forall|j: int| 0 <= j < r ==> is_space(s[j]),
        r < s.len() ==> !is_space(s[r]),
    decreases s.len() - i,
{
    if i < s.len() && is_space(s[i]) {
        lemma_front(s, i + 1)
    } else {
        i
    }
}

proof fn lemma_back(s: Seq<char>, i: int) -> (r: int)
    requires
        0 <= i <= s.len(),
        forall|j: int| i <= j < s.len() ==> is_space(s[j]),
    ensures
        0 <= r <= i,
        forall|j: int| r <= j < s.len() ==> is_space(s[j]),
        r > 0 ==> !is_space(s[r - 1]),
    decreases i,
{
    if i > 0 && is_space(s[i - 1]) {
        lemma_back(s, i - 1)
    } else {
        i
    }
}

/// A text does not shrink where each character of the class gives way to one or more.
pub proof fn lemma_replaced_not_shorter(s: Seq<char>, class: Class, with: Seq<char>)
    requires
        with.len() > 0,
    ensures
        replaced(s, class, with).len() >= s.len(),
    decreases s.len(),
{
    if s.len() > 0 {
        lemma_replaced_not_shorter(s.drop_last(), class, with);
    }
}

/// `s` with every run of white space shrunk to one space.
pub open spec fn collapsed(s: Seq<char>) -> Seq<char>
    decreases s.len(),
{
    if s.len() == 0 {
        Seq::empty()
    } else if !is_space(s.last()) {
        collapsed(s.drop_last()).push(s.last())
    } else if s.len() > 1 && is_space(s[s.len() - 2]) {
        collapsed(s.drop_last())
    } else {
        collapsed(s.drop_last()).push(' ')
    }
}

/// A text with its runs of white space shrunk has no other white space than single
/// spaces, and no character that the text does not have.
pub proof fn lemma_collapsed(s: Seq<char>)
    ensures
        forall|c: char| #[trigger]
            collapsed(s).contains(c) ==> c == ' ' || (s.contains(c) && !is_space(c)),
        forall|i: int|
            0 < i < collapsed(s).len() ==> #[trigger] collapsed(s)[i] != ' ' || collapsed(s)[i - 1]
                != ' ',
        s.len() > 0 ==> collapsed(s).len() > 0 && (collapsed(s).last() == ' ' <==> is_space(
            s.last(),
        )),
    decreases s.len(),
{
    if s.len() > 0 {
        let t = s.drop_last();
        let q = collapsed(t);
        let r = collapsed(s);
        lemma_collapsed(t);
        assert forall|c: char| #[trigger] r.contains(c) implies c == ' ' || (s.contains(c)
            && !is_space(c)) by {
            let i = choose|i: int| 0 <= i < r.len() && r[i] == c;
            if i < q.len() {
                assert(q.contains(q[i]));
                if t.contains(c) {
                    let j = choose|j: int| 0 <= j < t.len() && t[j] == c;
                    assert(s[j] == c);
                }
            } else {
                assert(s[s.len() - 1] == s.last());
            }
        }
        assert forall|i: int| 0 < i < r.len() implies #[trigger] r[i] != ' ' || r[i - 1] != ' ' by {
            if i < q.len() {
                assert(q[i] == r[i]);
            } else {
                assert(q[q.len() - 1] == q.last());
            }
        }
    }
}

/// `s` with every occurrence of `part`, taken from the left and without
/// overlap, replaced by `with`.
pub open spec fn substituted(s: Seq<char>, part: Seq<char>, with: Seq<char>) -> Seq<char>
    decreases s.len(),
{
    if s.len() == 0 || part.len() == 0 {
        s
    } else if begins(s, part) {
        with + substituted(s.skip(part.len() as int), part, with)
    } else {
        seq![s[0]] + substituted(s.skip(1), part, with)
    }
}

/// Replaces every occurrence of `part` by `with`.
pub fn substitute(s: &str, part: &str, with: &str) -> (r: String)
    requires
        part@.len() > 0,
    ensures
        r@ == substituted(s@, part@, with@),
{
    let v = chars_of(s);
    let p = chars_of(part);
    let mut out = String::new();
    let mut i: usize = 0;
    assert(v@.skip(0) =~= v@);
    while i < v.len()
        invariant
            v@ == s@,
            p@ == part@,
            p@.len() > 0,
            i <= v@.len(),
            out@ + substituted(v@.skip(i as int), part@, with@) == substituted(s@, part@, with@),
        decreases v@.len() - i,
    {
        let ghost rest = v@.skip(i as int);
        let ghost before = out@;
        if found_at(&v, &p, i) {
            proof {
                assert(rest.take(p@.len() as int) =~= v@.subrange(i as int, i + p@.len()));
                assert(rest.skip(p@.len() as int) =~= v@.skip(i + p@.len()));
            }
            out.append(with);
            i = i + p.len();
            assert(out@ + substituted(v@.skip(i as int), part@, with@) =~= before + substituted(
                rest,
                part@,
                with@,
            ));
        } else {
            proof {
                if begins(rest, p@) {
                    assert(rest.take(p@.len() as int) =~= v@.subrange(i as int, i + p@.len()));
                }
                assert(rest.skip(1) =~= v@.skip(i + 1));
                assert(rest[0] == v@[i as int]);
            }
            out.push(v[i]);
            i = i + 1;
            assert(out@ + substituted(v@.skip(i as int), part@, with@) =~= before + substituted(
                rest,
                part@,
                with@,
            ));
        }
    }
    assert(out@ + substituted(v@.skip(i as int), part@, with@) =~= out@);
    out
}

// ── Splitting and joining ────────────────────────────────────────────────────

/// The pieces of `s` between the characters of the class.
pub open spec fn pieces(s: Seq<char>, class: Class) -> Seq<Seq<char>>
    decreases s.len(),
{
    if s.len() == 0 {
        seq![Seq::empty()]
    } else {
        let before = pieces(s.drop_last(), class);
        if class.holds(s.last()) {
            before.push(Seq::empty())
        } else {
            before.update(before.len() - 1, before.last().push(s.last()))
        }
    }
}

/// Splits a text at the characters of the class.
pub fn split(s: &str, class: &Class) -> (r: Vec<String>)
    ensures
        r.deep_view() == pieces(s@, *class),
{
    let v = chars_of(s);
    let mut done: Vec<String> = Vec::new();
    let mut last = String::new();
    assert(done.deep_view().push(last@) =~= seq![Seq::<char>::empty()]);
    for i in 0..v.len()
        invariant
            v@ == s@,
            done.deep_view().push(last@) == pieces(v@.take(i as int), *class),
    {
        let ghost was = done.deep_view();
        let ghost tail = last@;
        proof {
            assert(v@.take(i + 1).drop_last() =~= v@.take(i as int));
            assert(v@.take(i + 1).last() == v@[i as int]);
            assert(was.push(tail).last() == tail);
        }
        if class.has(v[i]) {
            done.push(last);
            last = String::new();
            assert(done.deep_view() =~= was.push(tail));
        } else {
            last.push(v[i]);
            assert(was.push(last@) =~= was.push(tail).update(was.len() as int, last@));
        }
    }
    assert(v@.take(v@.len() as int) =~= v@);
    let ghost was = done.deep_view();
    let ghost tail = last@;
    done.push(last);
    assert(done.deep_view() =~= was.push(tail));
    done
}

/// The parts one after the other, with `sep` between neighbours.
pub open spec fn joined(parts: Seq<Seq<char>>, sep: Seq<char>) -> Seq<char>
    decreases parts.len(),
{
    if parts.len() == 0 {
        Seq::empty()
    } else if parts.len() == 1 {
        parts[0]
    } else {
        joined(parts.drop_last(), sep) + sep + parts.last()
    }
}

/// Joins the first `n` parts with `sep` between neighbours.
pub fn join_first(parts: &Vec<String>, n: usize, sep: &str) -> (r: String)
    requires
        n <= parts@.len(),
    ensures
        r@ == joined(parts.deep_view().take(n as int), sep@),
{
    let mut out = String::new();
    for i in 0..n
        invariant
            n <= parts@.len(),
            out@ == joined(parts.deep_view().take(i as int), sep@),
    {
        proof {
            let all = parts.deep_view();
            assert(all.take(i + 1).drop_last() =~= all.take(i as int));
            assert(all.take(i + 1).last() == parts@[i as int]@);
        }
        if i > 0 {
            out.append(sep);
        }
        let ghost so_far = out@;
        out.append(parts[i].as_str());
        assert(i == 0 ==> out@ =~= parts@[0]@);
    }
    out
}

/// Joins the parts with `sep` between neighbours.
pub fn join(parts: &Vec<String>, sep: &str) -> (r: String)
    ensures
        r@ == joined(parts.deep_view(), sep@),
{
    assert(parts.deep_view().take(parts@.len() as int) =~= parts.deep_view());
    join_first(parts, parts.len(), sep)
}

// ── Numbers ──────────────────────────────────────────────────────────────────

/// The digit of a number below ten.
pub open spec fn digit(n: nat) -> char {
    (48 + n) as char
}

pub open spec fn is_digit(c: char) -> bool {
    '0' <= c <= '9'
}

/// A number in decimal.
pub open spec fn decimal(n: nat) -> Seq<char>
    decreases n,
{
    if n < 10 {
        seq![digit(n)]
    } else {
        decimal(n / 10).push(digit(n % 10))
    }
}

/// Writes a number in decimal.
pub fn to_decimal(n: u128) -> (r: String)
    ensures
        r@ == decimal(n as nat),
    decreases n,
{
    let d: u8 = 48 + (n % 10) as u8;
    if n < 10 {
        let mut s = String::new();
        s.push(d as char);
        assert(s@ =~= seq![digit(n as nat)]);
        s
    } else {
        let mut s = to_decimal(n / 10);
        s.push(d as char);
        s
    }
}

/// The value of a text of digits.
pub open spec fn value(s: Seq<char>) -> nat
    decreases s.len(),
{
    if s.len() == 0 {
        0
    } else {
        value(s.drop_last()) * 10 + (s.last() as nat - 48) as nat
    }
}

pub open spec fn all_digits(s: Seq<char>) -> bool {
    forall|i: int| 0 <= i < s.len() ==> is_digit(#[trigger] s[i])
}

/// The number that a text writes: digits, after an optional plus sign.
pub open spec fn number(s: Seq<char>) -> Option<nat> {
    let d = if s.len() > 0 && s[0] == '+' {
        s.skip(1)
    } else {
        s
    };
    if d.len() > 0 && all_digits(d) {
        Some(value(d))
    } else {
        None
    }
}

/// The number that a text writes, where it is at most `max`.
pub open spec fn number_within(s: Seq<char>, max: nat) -> Option<nat> {
    match number(s) {
        Some(n) if n <= max => Some(n),
        _ => None,
    }
}

/// The value grows with every further digit.
pub proof fn lemma_value_prefix(s: Seq<char>, i: int)
    requires
        0 <= i <= s.len(),
    ensures
        value(s.take(i)) <= value(s),
    decreases s.len() - i,
{
    if i < s.len() {
        assert(s.take(i + 1).drop_last() =~= s.take(i));
        lemma_value_prefix(s, i + 1);
    } else {
        assert(s.take(i) =~= s);
    }
}

/// Reads a number that is at most `max`.
pub fn parse_number(s: &str, max: u64) -> (r: Option<u64>)
    ensures
        match r {
            Some(n) => number_within(s@, max as nat) == Some(n as nat),
            None => number_within(s@, max as nat) is None,
        },
{
    let v = chars_of(s);
    let from: usize = if v.len() > 0 && v[0] == '+' {
        1
    } else {
        0
    };
    if from == v.len() {
        return None;
    }
    let ghost d = v@.subrange(from as int, v@.len() as int);
    proof {
        if from == 0 {
            assert(d =~= v@);
        } else {
            assert(d =~= v@.skip(1));
        }
    }
    let mut n: u64 = 0;
    for i in from..v.len()
        invariant
            from < v@.len(),
            v@ == s@,
            d == v@.subrange(from as int, v@.len() as int),
            from == 0 || from == 1,
            from == (if s@.len() > 0 && s@[0] == '+' { 1int } else { 0int }),
            d == (if s@.len() > 0 && s@[0] == '+' { s@.skip(1) } else { s@ }),
            n <= max,
            n == value(d.take(i - from)),
            all_digits(d.take(i - from)),
    {
        let c = v[i];
        proof {
            assert(d[i - from] == c);
            assert(d.take(i + 1 - from).drop_last() =~= d.take(i - from));
            assert(d.take(i + 1 - from).last() == c);
        }
        if c < '0' || c > '9' {
            return None;
        }
        let k: u64 = (c as u32 - 48) as u64;
        proof {
            assert(value(d.take(i + 1 - from)) == n * 10 + k);
            lemma_value_prefix(d, i + 1 - from);
            assert(all_digits(d.take(i + 1 - from))) by {
                assert forall|j: int| 0 <= j < i + 1 - from implies is_digit(
                    #[trigger] d.take(i + 1 - from)[j],
                ) by {
                    if j < i - from {
                        assert(d.take(i - from)[j] == d.take(i + 1 - from)[j]);
                    }
                }
            }
        }
        if k > max || n > (max - k) / 10 {
            return None;
        }
        n = n * 10 + k;
    }
    assert(d.take(d.len() as int) =~= d);
    Some(n)
}

// ── What texts hold ──────────────────────────────────────────────────────────

/// Whether the parts stand in `s` one behind the other, without overlap.
pub open spec fn in_turn(s: Seq<char>, parts: Seq<Seq<char>>) -> bool
    decreases parts.len(),
{
    parts.len() == 0 || exists|i: int| #[trigger]
        occurs_at(s, parts.last(), i) && in_turn(s.take(i), parts.drop_last())
}

/// What stands in a text stands in it when more text follows.
pub proof fn lemma_in_turn_more(s: Seq<char>, more: Seq<char>, parts: Seq<Seq<char>>)
    requires
        in_turn(s, parts),
    ensures
        in_turn(s + more, parts),
{
    if parts.len() > 0 {
        let i = choose|i: int| #[trigger]
            occurs_at(s, parts.last(), i) && in_turn(s.take(i), parts.drop_last());
        assert((s + more).subrange(i, i + parts.last().len()) =~= s.subrange(
            i,
            i + parts.last().len(),
        ));
        assert((s + more).take(i) =~= s.take(i));
        assert(occurs_at(s + more, parts.last(), i));
    }
}

/// What stands in two texts in turn stands so in both together.
pub proof fn lemma_in_turn_concat(
    a: Seq<char>,
    p: Seq<Seq<char>>,
    b: Seq<char>,
    q: Seq<Seq<char>>,
)
    requires
        in_turn(a, p),
        in_turn(b, q),
    ensures
        in_turn(a + b, p + q),
    decreases q.len(),
{
    if q.len() == 0 {
        assert(p + q =~= p);
        lemma_in_turn_more(a, b, p);
    } else {
        let i = choose|i: int| #[trigger]
            occurs_at(b, q.last(), i) && in_turn(b.take(i), q.drop_last());
        lemma_in_turn_concat(a, p, b.take(i), q.drop_last());
        let all = p + q;
        let k = a.len() + i;
        assert(all.last() == q.last());
        assert(all.drop_last() =~= p + q.drop_last());
        assert((a + b).subrange(k, k + q.last().len()) =~= b.subrange(i, i + q.last().len()));
        assert((a + b).take(k) =~= a + b.take(i));
        assert(occurs_at(a + b, all.last(), k));
    }
}

/// A text stands in itself.
pub proof fn lemma_in_turn_itself(s: Seq<char>)
    ensures
        in_turn(s, seq![s]),
{
    reveal_with_fuel(in_turn, 2);
    assert(s.subrange(0, s.len() as int) =~= s);
    assert(occurs_at(s, seq![s].last(), 0));
    assert(in_turn(s.take(0), seq![s].drop_last()));
}

/// A part may follow anything.
pub proof fn lemma_in_turn_next(s: Seq<char>, parts: Seq<Seq<char>>, gap: Seq<char>, part: Seq<char>)
    requires
        in_turn(s, parts),
    ensures
        in_turn(s + gap + part, parts.push(part)),
{
    lemma_in_turn_more(s, gap, parts);
    lemma_in_turn_itself(part);
    lemma_in_turn_concat(s + gap, parts, part, seq![part]);
    assert(parts + seq![part] =~= parts.push(part));
}

/// Joined texts all stand in what they are joined to, in their order.
pub proof fn law_joined_texts_stand_in_turn(parts: Seq<Seq<char>>, sep: Seq<char>)
    ensures
        in_turn(joined(parts, sep), parts),
    decreases parts.len(),
{
    if parts.len() == 1 {
        lemma_in_turn_itself(parts[0]);
        assert(parts =~= seq![parts[0]]);
    } else if parts.len() > 1 {
        law_joined_texts_stand_in_turn(parts.drop_last(), sep);
        lemma_in_turn_next(
            joined(parts.drop_last(), sep),
            parts.drop_last(),
            sep,
            parts.last(),
        );
        assert(parts.drop_last().push(parts.last()) =~= parts);
    }
}

/// A text without a character of the class is one piece.
pub proof fn lemma_pieces_of_plain(s: Seq<char>, class: Class)
    requires
        forall|i: int| 0 <= i < s.len() ==> !class.holds(#[trigger] s[i]),
    ensures
        pieces(s, class) == seq![s],
    decreases s.len(),
{
    if s.len() == 0 {
        assert(s =~= Seq::empty());
    } else {
        assert forall|i: int| 0 <= i < s.drop_last().len() implies !class.holds(
            #[trigger] s.drop_last()[i],
        ) by {
            assert(!class.holds(s[i]));
        }
        lemma_pieces_of_plain(s.drop_last(), class);
        assert(!class.holds(s[s.len() - 1]));
        assert(s.drop_last().push(s.last()) =~= s);
        assert(pieces(s, class) =~= seq![s]);
    }
}

/// A piece that is behind a character of the class and holds none is the last piece.
pub proof fn lemma_pieces_behind(a: Seq<char>, c: char, b: Seq<char>, class: Class)
    requires
        class.holds(c),
        forall|i: int| 0 <= i < b.len() ==> !class.holds(#[trigger] b[i]),
    ensures
        pieces(a.push(c) + b, class) == pieces(a, class).push(b),
    decreases b.len(),
{
    let s = a.push(c) + b;
    if b.len() == 0 {
        assert(s =~= a.push(c));
        assert(a.push(c).drop_last() =~= a);
        assert(b =~= Seq::empty());
    } else {
        let t = b.drop_last();
        assert forall|i: int| 0 <= i < t.len() implies !class.holds(#[trigger] t[i]) by {
            assert(!class.holds(b[i]));
        }
        lemma_pieces_behind(a, c, t, class);
        assert(s.drop_last() =~= a.push(c) + t);
        assert(!class.holds(b[b.len() - 1]));
        assert(t.push(b.last()) =~= b);
        assert(pieces(s, class) =~= pieces(a, class).push(b));
    }
}

/// Splitting a text at a character undoes the joining of texts with it, whatever texts
/// without it they are.
pub proof fn law_split_undoes_join(parts: Seq<Seq<char>>, c: char, class: Class)
    requires
        parts.len() > 0,
        class.holds(c),
        forall|k: int, i: int|
            0 <= k < parts.len() && 0 <= i < parts[k].len() ==> !class.holds(#[trigger] parts[k][i]),
    ensures
        pieces(joined(parts, seq![c]), class) == parts,
    decreases parts.len(),
{
    if parts.len() == 1 {
        assert forall|i: int| 0 <= i < parts[0].len() implies !class.holds(
            #[trigger] parts[0][i],
        ) by {}
        lemma_pieces_of_plain(parts[0], class);
        assert(parts =~= seq![parts[0]]);
    } else {
        let front = parts.drop_last();
        let last = parts[parts.len() - 1];
        assert forall|k: int, i: int| 0 <= k < front.len() && 0 <= i < front[k].len() implies
            !class.holds(#[trigger] front[k][i]) by {
            assert(!class.holds(parts[k][i]));
        }
        law_split_undoes_join(front, c, class);
        assert forall|i: int| 0 <= i < last.len() implies !class.holds(#[trigger] last[i]) by {
            assert(!class.holds(parts[parts.len() - 1][i]));
        }
        lemma_pieces_behind(joined(front, seq![c]), c, last, class);
        assert(joined(parts, seq![c]) =~= joined(front, seq![c]).push(c) + last);
        assert(front.push(last) =~= parts);
    }
}

/// A number in decimal reads back as that number, in digits alone.
pub proof fn law_decimal_reads_back(n: nat)
    ensures
        decimal(n).len() > 0,
        all_digits(decimal(n)),
        value(decimal(n)) == n,
        number(decimal(n)) == Some(n),
    decreases n,
{
    reveal_with_fuel(value, 2);
    if n < 10 {
        assert(decimal(n)[0] == digit(n));
        assert(value(decimal(n)) == n);
    } else {
        law_decimal_reads_back(n / 10);
        let d = decimal(n);
        assert(d.drop_last() =~= decimal(n / 10));
        assert(d.last() == digit(n % 10));
        assert(value(d) == value(decimal(n / 10)) * 10 + n % 10);
        assert forall|i: int| 0 <= i < d.len() implies is_digit(#[trigger] d[i]) by {
            if i < d.len() - 1 {
                assert(d[i] == decimal(n / 10)[i]);
            }
        }
    }
    assert(is_digit(decimal(n)[0]));
}

/// Trimming takes the white space around a text away and nothing else.
pub proof fn law_trimming_takes_padding_away(front: Seq<char>, s: Seq<char>, back: Seq<char>)
    requires
        is_blank(front),
        is_blank(back),
        s.len() > 0,
        !is_space(s[0]),
        !is_space(s.last()),
    ensures
        trimmed(front + s + back) == s,
{
    let all = front + s + back;
    assert forall|j: int| 0 <= j < front.len() implies Class::Space.holds(all[j]) by {
        assert(all[j] == front[j]);
    }
    assert(all[front.len() as int] == s[0]);
    lemma_strip_front_at(all, Class::Space, front.len() as int);
    let t = s + back;
    assert(all.subrange(front.len() as int, all.len() as int) =~= t);
    assert forall|j: int| s.len() <= j < t.len() implies Class::Space.holds(t[j]) by {
        assert(t[j] == back[j - s.len()]);
    }
    assert(t[s.len() - 1] == s.last());
    lemma_strip_back_at(t, Class::Space, s.len() as int);
    assert(t.subrange(0, s.len() as int) =~= s);
}

/// Nothing is left of a text by trimming exactly where it is blank.
pub proof fn law_only_blank_texts_trim_to_nothing(s: Seq<char>)
    ensures
        trimmed(s).len() == 0 <==> is_blank(s),
{
    let (i, j) = lemma_trimmed_range(s);
    if i < j {
        assert(!is_space(s[i]));
    }
}

/// Of the ASCII characters, white space is the space, and what stands from the tab to the
/// carriage return.
pub proof fn law_ascii_white_space(c: char)
    requires
        (c as u32) < 128,
    ensures
        is_space(c) <==> c == ' ' || '\t' <= c <= '\r',
{
}

/// What is kept of a text is its beginning, cut only where it is longer than allowed.
pub proof fn law_a_kept_head_is_a_beginning(s: Seq<char>, n: nat)
    ensures
        begins(s, head(s, n)),
        head(s, n).len() == (if s.len() <= n {
            s.len()
        } else {
            n
        }),
        s.len() <= n ==> head(s, n) == s,
{
    assert(s.take(s.len() as int) =~= s);
}

/// A lower-case form keeps the length of an ASCII text, and leaves small letters, digits and
/// signs alone.
pub proof fn law_lower_case_of_ascii(s: Seq<char>, i: int)
    requires
        ascii(s),
        0 <= i < s.len(),
    ensures
        lower(s).len() == s.len(),
        !('A' <= s[i] <= 'Z') ==> lower(s)[i] == s[i],
        'A' <= s[i] <= 'Z' ==> 'a' <= lower(s)[i] <= 'z' && lower(s)[i] as u32 - 'a' as u32
            == s[i] as u32 - 'A' as u32,
{
}

/// A replacement reaches every character of the class and no other: it can be made stretch
/// by stretch, and of a single character it makes the replacement or that character.
pub proof fn law_replacing_goes_by_characters(
    a: Seq<char>,
    b: Seq<char>,
    c: char,
    class: Class,
    with: Seq<char>,
)
    ensures
        replaced(a + b, class, with) == replaced(a, class, with) + replaced(b, class, with),
        class.holds(c) ==> replaced(seq![c], class, with) == with,
        !class.holds(c) ==> replaced(seq![c], class, with) == seq![c],
    decreases b.len(),
{
    reveal_with_fuel(replaced, 2);
    assert(seq![c].drop_last() =~= Seq::empty());
    assert(Seq::<char>::empty() + with =~= with);
    assert(Seq::<char>::empty().push(c) =~= seq![c]);
    if b.len() == 0 {
        assert(a + b =~= a);
        assert(replaced(a, class, with) + replaced(b, class, with) =~= replaced(a, class, with));
    } else {
        law_replacing_goes_by_characters(a, b.drop_last(), c, class, with);
        assert((a + b).drop_last() =~= a + b.drop_last());
        assert(replaced(a + b, class, with) =~= replaced(a, class, with) + replaced(
            b,
            class,
            with,
        ));
    }
}


/// Stripping takes the characters of the class at either end away and nothing else.
pub proof fn law_stripping_takes_the_ends_away(
    front: Seq<char>,
    s: Seq<char>,
    back: Seq<char>,
    class: Class,
)
    requires
        forall|i: int| 0 <= i < front.len() ==> class.holds(#[trigger] front[i]),
        forall|i: int| 0 <= i < back.len() ==> class.holds(#[trigger] back[i]),
        s.len() > 0,
        !class.holds(s[0]),
        !class.holds(s.last()),
    ensures
        strip(front + s + back, class) == s,
        strip_front(front + s, class) == s,
        strip_back(s + back, class) == s,
{
    let all = front + s + back;
    assert forall|j: int| 0 <= j < front.len() implies class.holds(all[j]) by {
        assert(all[j] == front[j]);
    }
    assert(all[front.len() as int] == s[0]);
    lemma_strip_front_at(all, class, front.len() as int);
    let t = s + back;
    assert(all.subrange(front.len() as int, all.len() as int) =~= t);
    assert forall|j: int| s.len() <= j < t.len() implies class.holds(t[j]) by {
        assert(t[j] == back[j - s.len()]);
    }
    assert(t[s.len() - 1] == s.last());
    lemma_strip_back_at(t, class, s.len() as int);
    assert(t.subrange(0, s.len() as int) =~= s);
    let u = front + s;
    assert forall|j: int| 0 <= j < front.len() implies class.holds(u[j]) by {
        assert(u[j] == front[j]);
    }
    assert(u[front.len() as int] == s[0]);
    lemma_strip_front_at(u, class, front.len() as int);
    assert(u.subrange(front.len() as int, u.len() as int) =~= s);
}

/// The classes hold the characters that they are named after, and no others.
pub proof fn law_classes_hold_what_they_are_named_after(c: char, x: char)
    ensures
        Class::Quotes.holds(c) <==> c == '"' || c == '\'',
        Class::LineBreak.holds(c) <==> c == '\r' || c == '\n',
        Class::VersionMark.holds(c) <==> c == '.' || c == '-' || c == '+',
        Class::Bars.holds(c) <==> c == '|' || c == '#',
        Class::Only(x).holds(c) <==> c == x,
        Class::Space.holds(c) <==> is_space(c),
{
}

} // verus!
