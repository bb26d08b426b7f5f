//! The regular expressions of the library, and the calls into `regex` that
//! apply them.
use vstd::prelude::*;

use crate::text::{begins, collapsed, replaced, strip_back, strip_front, Class};

verus! {

/// A fenced code block.
pub const FENCED_BLOCK: &'static str = r"(?s)```.*?```";

/// Inline code.
pub const INLINE_CODE: &'static str = r"`[^`\n]+`";

/// Emphasis with stars, its content in group 1.
pub const STARRED: &'static str = r"\*{1,3}([^*\n]+)\*{1,3}";

/// Emphasis with underscores, its content in group 1.
pub const UNDERSCORED: &'static str = r"_{1,2}([^_\n]+)_{1,2}";

/// The marks of a heading.
pub const HEADING: &'static str = r"(?m)^#{1,6}\s+";

/// Table bars and stray hashes.
pub const BARS: &'static str = r"[|#]";

/// A run of white space.
pub const SPACES: &'static str = r"\s+";

/// The first complete sentence of a text, in group 1.
pub const FIRST_SENTENCE: &'static str = r"^(.{10,120}?[.!?])";

/// The words that give a question away.
pub const QUESTION_WORD: &'static str =
    r"(?i)\b(peux|veux|est-ce|c'est quoi|comment|dois-je|can|should|which|what)\b";

/// The tag in front of a reported error.
pub const ERROR_TAG: &'static str = r"^\[erreur\]\s*";

/// Dots with nothing but white space between them.
pub const DOT_RUN: &'static str = r"\.\s*\.+";

/// A name in group 1, followed by a JSON object in group 2.
pub const INLINE_TOOL: &'static str = r"(?s)^(\w+)\s*(\{.*\})\s*$";

/// The opening of a fence around JSON.
pub const FENCE_OPEN: &'static str = r"(?i)^```(?:json)?\s*";

/// The closing of a fence.
pub const FENCE_CLOSE: &'static str = r"\s*```$";

/// A stretch from an opening to a closing brace or bracket.
pub const JSON_BLOCK: &'static str = r"(?s)(\{.*\}|\[.*\])";

/// A `text` member, its raw content in group 1.
pub const TEXT_MEMBER: &'static str = r#""text"\s*:\s*"((?:[^"\\]|\\.)*)""#;

/// A terminal control sequence.
pub const ANSI: &'static str = r"\x1b\[[0-9;?]*[A-Za-z]";

/// The expressions above, but for those that `remove_first` takes.
pub open spec fn is_own(pattern: Seq<char>) -> bool {
    ||| pattern == FENCED_BLOCK@
    ||| pattern == INLINE_CODE@
    ||| pattern == STARRED@
    ||| pattern == UNDERSCORED@
    ||| pattern == HEADING@
    ||| pattern == BARS@
    ||| pattern == SPACES@
    ||| pattern == FIRST_SENTENCE@
    ||| pattern == QUESTION_WORD@
    ||| pattern == DOT_RUN@
    ||| pattern == INLINE_TOOL@
    ||| pattern == JSON_BLOCK@
    ||| pattern == TEXT_MEMBER@
    ||| pattern == ANSI@
}

/// The groups that take part in every match of an expression: the whole match,
/// and the groups that its comment names.
pub open spec fn is_group(pattern: Seq<char>, group: int) -> bool {
    &&& is_own(pattern)
    &&& {
        ||| group == 0
        ||| group == 1 && (pattern == FIRST_SENTENCE@ || pattern == TEXT_MEMBER@)
        ||| 1 <= group <= 2 && pattern == INLINE_TOOL@
    }
}

/// What `Regex::replace_all` makes of a text.
pub uninterp spec fn all_replaced(
    pattern: Seq<char>,
    text: Seq<char>,
    replacement: Seq<char>,
) -> Seq<char>;

/// Whether `Regex::is_match` finds the pattern in a text.
pub uninterp spec fn matches_in(pattern: Seq<char>, text: Seq<char>) -> bool;

/// The text of a group of what `Regex::captures` finds first in a text.
pub uninterp spec fn captured(pattern: Seq<char>, text: Seq<char>, group: nat) -> Option<Seq<char>>;

/// What `Regex::replace_all` makes of a text with a replacement under
/// `NoExpand`; nothing where the pattern is no regular expression.
pub uninterp spec fn all_replaced_literally(
    pattern: Seq<char>,
    text: Seq<char>,
    literal: Seq<char>,
) -> Option<Seq<char>>;

/// Wraps `Regex::new` and `Regex::replace_all`. The result is named by
/// `all_replaced`. It is put together from stretches of the text and from
/// expansions of the replacement, which are stretches of both in turn, so each
/// of its characters is one of theirs. Of the two expressions for bars and for white
/// space the result is stated whole. Only the expressions of this module are asked for;
/// all of them compile.
#[verifier::external_body]
pub(crate) fn replace_all(pattern: &str, text: &str, replacement: &str) -> (r: String)
    requires
        is_own(pattern@),
    ensures
        r@ == all_replaced(pattern@, text@, replacement@),
        forall|c: char| #[trigger]
            r@.contains(c) ==> text@.contains(c) || replacement@.contains(c),
        pattern@ == BARS@ && replacement@.len() == 0 ==> r@ == replaced(
            text@,
            Class::Bars,
            replacement@,
        ),
        pattern@ == SPACES@ && replacement@ == " "@ ==> r@ == collapsed(text@),
{
    regex::Regex::new(pattern).unwrap().replace_all(text, replacement).to_string()
}

/// Whether a text begins with the word "json", in capitals or not. The long s counts
/// as an s.
pub open spec fn begins_with_json(s: Seq<char>) -> bool {
    &&& s.len() >= 4
    &&& s[0] == 'j' || s[0] == 'J'
    &&& s[1] == 's' || s[1] == 'S' || s[1] == 'ſ'
    &&& s[2] == 'o' || s[2] == 'O'
    &&& s[3] == 'n' || s[3] == 'N'
}

/// A text without the fence that opens it, with the word "json" and the white space
/// behind it.
pub open spec fn without_opening(text: Seq<char>) -> Seq<char> {
    if begins(text, "```"@) {
        let rest = text.skip(3);
        strip_front(
            if begins_with_json(rest) {
                rest.skip(4)
            } else {
                rest
            },
            Class::Space,
        )
    } else {
        text
    }
}

/// A text without the fence that closes it, with the white space before it.
pub open spec fn without_closing(text: Seq<char>) -> Seq<char> {
    if text.len() >= 3 && text.skip(text.len() - 3) == "```"@ {
        strip_back(text.take(text.len() - 3), Class::Space)
    } else {
        text
    }
}

/// A text without the tag of an error in front of it, with the white space behind it.
pub open spec fn without_error_tag(text: Seq<char>) -> Seq<char> {
    if begins(text, "[erreur]"@) {
        strip_front(text.skip(8), Class::Space)
    } else {
        text
    }
}

/// Wraps `Regex::new` and `Regex::replace` with an empty replacement, which removes the
/// first match. Three expressions are asked for; all of them compile, and each is
/// anchored at one end of the text. What each of them removes is stated whole.
#[verifier::external_body]
pub(crate) fn remove_first(pattern: &str, text: &str) -> (r: String)
    requires
        pattern@ == FENCE_OPEN@ || pattern@ == FENCE_CLOSE@ || pattern@ == ERROR_TAG@,
    ensures
        pattern@ == FENCE_OPEN@ ==> r@ == without_opening(text@),
        pattern@ == FENCE_CLOSE@ ==> r@ == without_closing(text@),
        pattern@ == ERROR_TAG@ ==> r@ == without_error_tag(text@),
{
    regex::Regex::new(pattern).unwrap().replace(text, "").to_string()
}

/// Wraps `Regex::new` and `Regex::is_match`. The answer is named by
/// `matches_in`. Only the expressions of this module are asked for; all of them
/// compile.
#[verifier::external_body]
pub(crate) fn is_match(pattern: &str, text: &str) -> (r: bool)
    requires
        is_own(pattern@),
    ensures
        r == matches_in(pattern@, text@),
{
    regex::Regex::new(pattern).unwrap().is_match(text)
}

/// The first sentence of a text, where its end mark is the first one after `n`
/// characters or more, and after at most 120, with no line feed before it.
pub open spec fn sentence_after(s: Seq<char>, n: nat) -> Option<Seq<char>>
    decreases 121 - n,
{
    if n > 120 || n >= s.len() || s.take(n as int).contains('\n') {
        None
    } else if s[n as int] == '.' || s[n as int] == '!' || s[n as int] == '?' {
        Some(s.take(n as int + 1))
    } else {
        sentence_after(s, n + 1)
    }
}

/// Wraps `Regex::new` and `Regex::captures`, and takes the text of one group
/// from the match. The result is named by `captured`. Only groups that take part
/// in every match are asked for. Of the expression for a first sentence the result is
/// stated whole: it takes as few characters before the end mark as it can. A block begins with a brace or a bracket, and a
/// `text` member holds quotes, so neither is found in a text without them.
#[verifier::external_body]
pub(crate) fn capture(pattern: &str, text: &str, group: usize) -> (r: Option<String>)
    requires
        is_group(pattern@, group as int),
    ensures
        r.deep_view() == captured(pattern@, text@, group as nat),
        pattern@ == FIRST_SENTENCE@ && group == 1 ==> r.deep_view() == sentence_after(text@, 10),
        pattern@ == JSON_BLOCK@ && !text@.contains('{') && !text@.contains('[') ==> r is None,
        pattern@ == TEXT_MEMBER@ && !text@.contains('"') ==> r is None,
{
    regex::Regex::new(pattern).unwrap().captures(text).map(|c| c[group].to_string())
}

/// Wraps `Regex::new` and `Regex::replace_all` with a `NoExpand` replacement.
/// The result is named by `all_replaced_literally`.
#[verifier::external_body]
pub(crate) fn replace_all_literally(pattern: &str, text: &str, literal: &str) -> (r: Option<String>)
    ensures
        r.deep_view() == all_replaced_literally(pattern@, text@, literal@),
{
    let re = regex::Regex::new(pattern).ok()?;
    Some(re.replace_all(text, regex::NoExpand(literal)).to_string())
}

/// The characters with a meaning of their own in a regular expression.
pub open spec fn is_meta(c: char) -> bool {
    ||| c == '\\' || c == '.' || c == '+' || c == '*' || c == '?' || c == '(' || c == ')'
    ||| c == '|' || c == '[' || c == ']' || c == '{' || c == '}' || c == '^' || c == '$'
    ||| c == '#' || c == '&' || c == '-' || c == '~'
}

/// A text with a backslash before each character that has a meaning of its own.
pub open spec fn escaped(text: Seq<char>) -> Seq<char>
    decreases text.len(),
{
    if text.len() == 0 {
        Seq::empty()
    } else if is_meta(text.last()) {
        escaped(text.drop_last()).push('\\').push(text.last())
    } else {
        escaped(text.drop_last()).push(text.last())
    }
}

fn has_meaning(c: char) -> (r: bool)
    ensures
        r == is_meta(c),
{
    c == '\\' || c == '.' || c == '+' || c == '*' || c == '?' || c == '(' || c == ')' || c == '|'
        || c == '[' || c == ']' || c == '{' || c == '}' || c == '^' || c == '$' || c == '#' || c
        == '&' || c == '-' || c == '~'
}

/// Puts a backslash before each character that has a meaning of its own.
pub fn escape(text: &str) -> (r: String)
    ensures
        r@ == escaped(text@),
{
    let mut out = String::new();
    for c in it: text.chars()
        invariant
            it.seq() == text@,
            out@ == escaped(text@.take(it.index())),
    {
        proof {
            assert(text@.take(it.index() + 1).drop_last() =~= text@.take(it.index()));
            assert(text@.take(it.index() + 1).last() == c);
        }
        if has_meaning(c) {
            out.push('\\');
        }
        out.push(c);
    }
    assert(text@.take(text@.len() as int) =~= text@);
    out
}

// ── Laws ─────────────────────────────────────────────────────────────────────

/// The first sentence of a text ends at its first end mark behind at least ten characters,
/// where at most 120 come before that mark and no line feed does; without such a mark there is
/// none.
pub proof fn law_the_first_sentence_ends_at_its_mark(s: Seq<char>, n: nat, k: int)
    requires
        n <= k,
        forall|j: int|
            n <= j < k && j < s.len() ==> #[trigger] s[j] != '.' && s[j] != '!' && s[j] != '?',
        forall|j: int| 0 <= j < k && j < s.len() ==> #[trigger] s[j] != '\n',
    ensures
        k <= 120 && k < s.len() && (s[k] == '.' || s[k] == '!' || s[k] == '?') ==> sentence_after(
            s,
            n,
        ) == Some(s.take(k + 1)),
        k >= s.len() || k > 120 ==> sentence_after(s, n) is None,
    decreases k - n,
{
    if n < k && n < s.len() && n <= 120 {
        assert(!s.take(n as int).contains('\n')) by {
            if s.take(n as int).contains('\n') {
                let j = choose|j: int| 0 <= j < n && s.take(n as int)[j] == '\n';
                assert(s[j] == '\n');
            }
        }
        assert(s[n as int] != '.' && s[n as int] != '!' && s[n as int] != '?');
        law_the_first_sentence_ends_at_its_mark(s, n + 1, k);
    } else if n == k && n < s.len() && n <= 120 {
        if s.take(n as int).contains('\n') {
            let j = choose|j: int| 0 <= j < n && s.take(n as int)[j] == '\n';
            assert(s[j] == '\n');
        }
    }
}

/// The tag of an error goes, with the white space behind it, and nothing else does.
pub proof fn law_the_error_tag_goes(gap: Seq<char>, text: Seq<char>)
    requires
        forall|i: int| 0 <= i < gap.len() ==> Class::Space.holds(#[trigger] gap[i]),
        text.len() > 0 ==> !Class::Space.holds(text[0]),
    ensures
        without_error_tag("[erreur]"@ + gap + text) == text,
        !begins(text, "[erreur]"@) ==> without_error_tag(text) == text,
{
    reveal_strlit("[erreur]");
    let s = "[erreur]"@ + gap + text;
    assert(s.take(8) =~= "[erreur]"@);
    let rest = s.skip(8);
    assert(rest =~= gap + text);
    if text.len() > 0 {
        assert(rest[gap.len() as int] == text[0]);
    }
    crate::text::lemma_strip_front_at(rest, Class::Space, gap.len() as int);
    assert(rest.subrange(gap.len() as int, rest.len() as int) =~= text);
}

/// A text is escaped character by character: a special one gets a backslash, any other stays.
pub proof fn law_escaping_goes_by_characters(a: Seq<char>, b: Seq<char>, c: char)
    ensures
        escaped(a + b) == escaped(a) + escaped(b),
        is_meta(c) ==> escaped(seq![c]) == seq!['\\', c],
        !is_meta(c) ==> escaped(seq![c]) == seq![c],
    decreases b.len(),
{
    reveal_with_fuel(escaped, 2);
    assert(seq![c].drop_last() =~= Seq::empty());
    assert(escaped(seq![c]) =~= (if is_meta(c) {
        seq!['\\', c]
    } else {
        seq![c]
    }));
    if b.len() == 0 {
        assert(a + b =~= a);
        assert(escaped(a) + escaped(b) =~= escaped(a));
    } else {
        law_escaping_goes_by_characters(a, b.drop_last(), c);
        assert((a + b).drop_last() =~= a + b.drop_last());
        assert(escaped(a + b) =~= escaped(a) + escaped(b));
    }
}

} // verus!
