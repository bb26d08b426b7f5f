//! Replies that are not plain prose: JSON with or without its fences, and calls
//! written out in the text.
use vstd::prelude::*;

use crate::actions::{actions_in, call_of, calls_view, parsed_calls, ToolCall};
use crate::json::{
    in_brackets, json_of_text, law_an_added_member_is_found, member, no_members, read_json, text_at,
    with_member, Json, JsonTree,
};
use crate::pattern::{
    begins_with_json, capture, captured, remove_first, without_closing, without_opening, FENCE_CLOSE, FENCE_OPEN,
    INLINE_TOOL, JSON_BLOCK, TEXT_MEMBER,
};
use crate::text::{
    alphanumeric, begins, chars_of, contains, is_alphanumeric, is_blank, is_space,
    law_replacing_goes_by_characters, lemma_strip_back_at,
    lemma_strip_front_at, occurs, occurs_at, replace, replaced,
    starts_with, strip_back, strip_front, substitute, substituted, text_between, trim, trim_back,
    trim_front, trimmed, Class,
};

verus! {

// ── JSON replies ─────────────────────────────────────────────────────────────

/// A text with its line breaks written as escapes, as JSON strings have them.
pub open spec fn breaks_escaped(s: Seq<char>) -> Seq<char> {
    replaced(s, Class::Only('\n'), "\\n"@)
}

fn escape_breaks(s: &str) -> (r: String)
    ensures
        r@ == breaks_escaped(s@),
{
    replace(s, &Class::Only('\n'), "\\n")
}

/// The reply that asks for no action and has a text spoken.
pub open spec fn words_only(text: Seq<char>) -> JsonTree {
    with_member(
        with_member(no_members(), "action"@, JsonTree::Text("none"@)),
        "text"@,
        JsonTree::Text(text),
    )
}

fn only_words(text: &str) -> (r: Json)
    ensures
        r@ == words_only(text@),
{
    Json::object().with_text("action", "none").with_text("text", text)
}

/// What a reply without its fences means, by what was read from it: as it stands,
/// with its line breaks escaped, from a block in it, from that block with its line
/// breaks escaped; and the raw content of a `text` member in it. A reply of which
/// nothing can be read is prose, unless it holds a brace or begins with a bracket:
/// then it is a broken attempt at JSON, and nothing of it is spoken.
pub open spec fn meaning(
    s: Seq<char>,
    whole: Option<JsonTree>,
    escaped: Option<JsonTree>,
    block: Option<JsonTree>,
    block_escaped: Option<JsonTree>,
    text_member: Option<Seq<char>>,
) -> JsonTree {
    match (whole, escaped, block, block_escaped, text_member) {
        (Some(t), _, _, _, _) => t,
        (_, Some(t), _, _, _) => t,
        (_, _, Some(t), _, _) => t,
        (_, _, _, Some(t), _) => t,
        (_, _, _, _, Some(text)) => words_only(substituted(text, "\\n"@, " "@)),
        _ => if !occurs(s, "{"@) && !begins(s, "["@) {
            words_only(s)
        } else {
            words_only(Seq::empty())
        },
    }
}

/// Tells what a reply without its fences means, by what was read from it.
pub fn meaning_of(
    s: &str,
    whole: Option<Json>,
    escaped: Option<Json>,
    block: Option<Json>,
    block_escaped: Option<Json>,
    text_member: Option<String>,
) -> (r: Json)
    ensures
        r@ == meaning(
            s@,
            whole.deep_view(),
            escaped.deep_view(),
            block.deep_view(),
            block_escaped.deep_view(),
            text_member.deep_view(),
        ),
{
    if let Some(t) = whole {
        return t;
    }
    if let Some(t) = escaped {
        return t;
    }
    if let Some(t) = block {
        return t;
    }
    if let Some(t) = block_escaped {
        return t;
    }
    if let Some(text) = text_member {
        proof {
            reveal_strlit("\\n");
        }
        return only_words(substitute(text.as_str(), "\\n", " ").as_str());
    }
    if !contains(s, "{") && !starts_with(s, "[") {
        only_words(s)
    } else {
        only_words(String::new().as_str())
    }
}

/// A reply without the fences around it.
pub open spec fn unfenced(raw: Seq<char>) -> Seq<char> {
    trimmed(without_closing(without_opening(raw)))
}

/// What is read from a block, where there is one.
pub open spec fn read_block(block: Option<Seq<char>>) -> Option<JsonTree> {
    match block {
        Some(b) => json_of_text(b),
        None => None,
    }
}

/// What is read from a block with its line breaks escaped, where there is one.
pub open spec fn read_block_escaped(block: Option<Seq<char>>) -> Option<JsonTree> {
    match block {
        Some(b) => json_of_text(breaks_escaped(b)),
        None => None,
    }
}

/// What a reply means.
pub open spec fn reply_meaning(raw: Seq<char>) -> JsonTree {
    let s = unfenced(raw);
    let block = captured(JSON_BLOCK@, s, 0);
    meaning(
        s,
        json_of_text(s),
        json_of_text(breaks_escaped(s)),
        read_block(block),
        read_block_escaped(block),
        captured(TEXT_MEMBER@, s, 1),
    )
}

/// Whether a text is plain prose: without braces, brackets, backticks and quotes.
pub open spec fn is_prose(s: Seq<char>) -> bool {
    !s.contains('{') && !s.contains('[') && !s.contains('`') && !s.contains('"')
}

/// Reads a reply, forgiving as it may be: with code fences around it, line breaks
/// inside its strings, text around its JSON, cut off, or plain prose. Prose that is not
/// JSON is spoken as it is, and asks for no action.
pub fn parse_json(raw: &str) -> (r: Json)
    ensures
        r@ == reply_meaning(raw@),
        is_prose(raw@) && json_of_text(trimmed(raw@)) is None ==> r@ == words_only(trimmed(raw@)),
{
    let open = remove_first(FENCE_OPEN, raw);
    let s = trim(remove_first(FENCE_CLOSE, open.as_str()).as_str());
    proof {
        if is_prose(raw@) {
            lemma_prose_has_no_fence(raw@);
            lemma_trimmed_prose(raw@);
            lemma_escaped_prose(trimmed(raw@));
        }
    }
    let whole = read_json(s.as_str());
    if whole.is_some() {
        return meaning_of(s.as_str(), whole, None, None, None, None);
    }
    let escaped = read_json(escape_breaks(s.as_str()).as_str());
    if escaped.is_some() {
        return meaning_of(s.as_str(), None, escaped, None, None, None);
    }
    if let Some(block) = capture(JSON_BLOCK, s.as_str(), 0) {
        let read = read_json(block.as_str());
        if read.is_some() {
            return meaning_of(s.as_str(), None, None, read, None, None);
        }
        let read_escaped = read_json(escape_breaks(block.as_str()).as_str());
        if read_escaped.is_some() {
            return meaning_of(s.as_str(), None, None, None, read_escaped, None);
        }
    }
    let text_member = capture(TEXT_MEMBER, s.as_str(), 1);
    meaning_of(s.as_str(), None, None, None, None, text_member)
}

proof fn lemma_no_fence_at_start(s: Seq<char>)
    requires
        s.len() == 0 || s[0] != '`',
    ensures
        without_opening(s) == s,
{
    reveal_strlit("```");
    if begins(s, "```"@) {
        assert(s.take(3)[0] == s[0]);
    }
}

proof fn lemma_no_fence_at_end(s: Seq<char>)
    requires
        s.len() == 0 || s.last() != '`',
    ensures
        without_closing(s) == s,
{
    reveal_strlit("```");
    if s.len() >= 3 {
        assert(s.skip(s.len() - 3)[2] == s.last());
    }
}

proof fn lemma_prose_has_no_fence(s: Seq<char>)
    requires
        is_prose(s),
    ensures
        unfenced(s) == trimmed(s),
{
    if s.len() > 0 {
        assert(s.contains(s[0]));
        assert(s.contains(s.last()));
    }
    lemma_no_fence_at_start(s);
    lemma_no_fence_at_end(s);
}

proof fn lemma_strip_front_chars(s: Seq<char>, class: Class, c: char)
    requires
        strip_front(s, class).contains(c),
    ensures
        s.contains(c),
    decreases s.len(),
{
    if s.len() > 0 && class.holds(s[0]) {
        let t = s.subrange(1, s.len() as int);
        lemma_strip_front_chars(t, class, c);
        let i = choose|i: int| 0 <= i < t.len() && t[i] == c;
        assert(s[i + 1] == c);
    }
}

proof fn lemma_strip_back_chars(s: Seq<char>, class: Class, c: char)
    requires
        strip_back(s, class).contains(c),
    ensures
        s.contains(c),
    decreases s.len(),
{
    if s.len() > 0 && class.holds(s.last()) {
        let t = s.drop_last();
        lemma_strip_back_chars(t, class, c);
        let i = choose|i: int| 0 <= i < t.len() && t[i] == c;
        assert(s[i] == c);
    }
}

proof fn lemma_trimmed_prose(s: Seq<char>)
    requires
        is_prose(s),
    ensures
        is_prose(trimmed(s)),
        !occurs(trimmed(s), "{"@),
        !begins(trimmed(s), "["@),
{
    let t = trimmed(s);
    assert forall|c: char| #[trigger] t.contains(c) implies s.contains(c) by {
        lemma_strip_back_chars(strip_front(s, Class::Space), Class::Space, c);
        lemma_strip_front_chars(s, Class::Space, c);
    }
    assert(t.contains('{') ==> s.contains('{'));
    assert(t.contains('[') ==> s.contains('['));
    assert(t.contains('`') ==> s.contains('`'));
    assert(t.contains('"') ==> s.contains('"'));
    reveal_strlit("{");
    reveal_strlit("[");
    if occurs(t, "{"@) {
        let i = choose|i: int| occurs_at(t, "{"@, i);
        assert(t.subrange(i, i + 1)[0] == t[i]);
        assert(t.contains(t[i]));
    }
    if begins(t, "["@) {
        assert(t.take(1)[0] == t[0]);
        assert(t.contains(t[0]));
    }
}

/// Escaping the line breaks of a text without any changes nothing; where there is one,
/// a backslash comes in, and no quote.
proof fn lemma_escaped_prose(s: Seq<char>)
    requires
        !s.contains('"'),
    ensures
        breaks_escaped(s) == s || breaks_escaped(s).contains('\\'),
        !breaks_escaped(s).contains('"'),
    decreases s.len(),
{
    reveal_strlit("\\n");
    if s.len() == 0 {
        assert(breaks_escaped(s) =~= s);
    } else {
        let t = s.drop_last();
        assert forall|i: int| 0 <= i < t.len() implies t[i] != '"' by {
            assert(s.contains(s[i]));
        }
        lemma_escaped_prose(t);
        let q = breaks_escaped(t);
        let r = breaks_escaped(s);
        assert(s.contains(s.last()));
        if s.last() == '\n' {
            assert(r == q + "\\n"@);
            assert(r[q.len() as int] == '\\');
        } else {
            assert(r == q.push(s.last()));
            if q == t {
                assert(r =~= s);
            } else {
                let i = choose|i: int| 0 <= i < q.len() && q[i] == '\\';
                assert(r[i] == '\\');
            }
        }
        assert forall|i: int| 0 <= i < r.len() implies r[i] != '"' by {
            if i < q.len() {
                assert(q.contains(q[i]));
                assert(r[i] == q[i]);
            }
        }
    }
}

proof fn lemma_brackets_stay(v: Seq<char>)
    requires
        in_brackets(v),
    ensures
        trimmed(v) == v,
{
    lemma_strip_front_at(v, Class::Space, 0);
    assert(v.subrange(0, v.len() as int) =~= v);
    lemma_strip_back_at(v, Class::Space, v.len() as int);
}

/// A JSON reply comes back as it is: a text that reads as an object or a list, bare or
/// between fences, means what it reads as. Such a text is what `serde_json` writes of an
/// object or a list.
pub proof fn law_a_json_reply_comes_back(
    text: Seq<char>,
    t: JsonTree,
    before: Seq<char>,
    after: Seq<char>,
)
    requires
        json_of_text(text) == Some(t),
        in_brackets(text),
        is_blank(before),
        is_blank(after),
    ensures
        reply_meaning(text) == t,
        reply_meaning("```json"@ + before + text + after + "```"@) == t,
        reply_meaning("```"@ + before + text + after + "```"@) == t,
{
    lemma_no_fence_at_start(text);
    lemma_no_fence_at_end(text);
    lemma_brackets_stay(text);
    reveal_strlit("```");
    reveal_strlit("```json");
    let inner = before + text + after + "```"@;
    let tail = text + after + "```"@;
    let named = "```json"@ + before + text + after + "```"@;
    let bare = "```"@ + before + text + after + "```"@;
    assert(named.take(3) =~= "```"@);
    assert(bare.take(3) =~= "```"@);
    assert(named.skip(3).skip(4) =~= inner);
    assert(bare.skip(3) =~= inner);
    assert(begins_with_json(named.skip(3)));
    assert(!begins_with_json(inner)) by {
        if before.len() > 0 {
            assert(is_space(before[0]));
            assert(inner[0] == before[0]);
        } else {
            assert(inner[0] == text[0]);
        }
    }
    assert forall|j: int| 0 <= j < before.len() implies Class::Space.holds(inner[j]) by {
        assert(inner[j] == before[j]);
    }
    assert(inner[before.len() as int] == text[0]);
    lemma_strip_front_at(inner, Class::Space, before.len() as int);
    assert(inner.subrange(before.len() as int, inner.len() as int) =~= tail);
    let body = text + after;
    assert(tail.skip(tail.len() - 3) =~= "```"@);
    assert(tail.take(tail.len() - 3) =~= body);
    assert forall|j: int| text.len() <= j < body.len() implies Class::Space.holds(body[j]) by {
        assert(body[j] == after[j - text.len()]);
    }
    assert(body[text.len() - 1] == text.last());
    lemma_strip_back_at(body, Class::Space, text.len() as int);
    assert(body.subrange(0, text.len() as int) =~= text);
    assert(unfenced(named) == text);
    assert(unfenced(bare) == text);
}

/// A broken attempt at JSON is never read aloud: where nothing could be read from a
/// reply, what is spoken of it holds no brace.
pub proof fn law_broken_json_is_not_spoken(s: Seq<char>)
    ensures
        text_at(meaning(s, None, None, None, None, None), "text"@) matches Some(words) && (words
            == s || words.len() == 0) && !words.contains('{'),
{
    reveal_strlit("{");
    reveal_strlit("text");
    reveal_strlit("action");
    let words = if !occurs(s, "{"@) && !begins(s, "["@) {
        s
    } else {
        Seq::empty()
    };
    let t = words_only(words);
    assert(t->Object_0.last() == ("text"@, JsonTree::Text(words)));
    if words.contains('{') {
        let i = choose|i: int| 0 <= i < words.len() && words[i] == '{';
        assert(s.subrange(i, i + 1) =~= "{"@);
        assert(occurs_at(s, "{"@, i));
    }
}

// ── Calls in the text ────────────────────────────────────────────────────────

/// Whether a text is made of letters, digits and underscores.
pub open spec fn is_word(s: Seq<char>) -> bool {
    forall|i: int| 0 <= i < s.len() ==> is_alphanumeric(#[trigger] s[i]) || s[i] == '_'
}

/// Whether what was streamed so far is shaping up to be a call written out in the
/// text (`switch_project {"name": …}`), bare JSON, or prose with a JSON object after
/// it.
pub open spec fn inline_tool(s: Seq<char>) -> bool {
    let t = strip_front(s, Class::Space);
    ||| begins(t, "{"@)
    ||| begins(t, "```"@)
    ||| begins(t, "["@)
    ||| occurs(t, "{\""@)
    ||| exists|i: int|
        0 <= i < t.len() && t[i] == '{' && !t.take(i).contains('{') && is_word(
            strip_back(#[trigger] t.take(i), Class::Space),
        )
}

fn all_word(s: &str) -> (r: bool)
    ensures
        r == is_word(s@),
{
    let v = chars_of(s);
    for i in 0..v.len()
        invariant
            v@ == s@,
            forall|j: int| 0 <= j < i ==> is_alphanumeric(#[trigger] s@[j]) || s@[j] == '_',
    {
        if !(alphanumeric(v[i]) || v[i] == '_') {
            return false;
        }
    }
    true
}

/// Tells whether what was streamed so far looks like a call written out in the text.
pub fn looks_like_inline_tool(s: &str) -> (r: bool)
    ensures
        r == inline_tool(s@),
{
    let t = trim_front(s, &Class::Space);
    if starts_with(t.as_str(), "{") || starts_with(t.as_str(), "```") || starts_with(
        t.as_str(),
        "[",
    ) {
        return true;
    }
    if contains(t.as_str(), "{\"") {
        return true;
    }
    let v = chars_of(t.as_str());
    for i in 0..v.len()
        invariant
            v@ == t@,
            forall|j: int| 0 <= j < i ==> t@[j] != '{',
            t@ == strip_front(s@, Class::Space),
            !begins(t@, "{"@),
            !begins(t@, "```"@),
            !begins(t@, "["@),
            !occurs(t@, "{\""@),
    {
        if v[i] == '{' {
            let before = text_between(&v, 0, i);
            assert(before@ =~= t@.take(i as int));
            let r = all_word(trim_back(before.as_str(), &Class::Space).as_str());
            assert(!t@.take(i as int).contains('{'));
            assert forall|k: int|
                0 <= k < t@.len() && t@[k] == '{' && !(#[trigger] t@.take(k)).contains(
                    '{',
                ) implies k == i by {
                if k > i {
                    assert(t@.take(k)[i as int] == '{');
                }
            }
            return r;
        }
    }
    false
}

/// The calls in a text that looks like one, by what was read from it: the name and
/// the arguments of a call written out, where these are JSON, or else what the text
/// means as JSON.
pub open spec fn inline_calls(
    call: Option<(Seq<char>, JsonTree)>,
    otherwise: JsonTree,
) -> Seq<(Seq<char>, JsonTree)> {
    match call {
        Some(c) => seq![c],
        None => actions_in(otherwise).map_values(|item: JsonTree| call_of(item)),
    }
}

/// The call that is written out in a text: its name, and its arguments, where these
/// are JSON.
pub open spec fn written_call(text: Seq<char>) -> Option<(Seq<char>, JsonTree)> {
    match (captured(INLINE_TOOL@, text, 1), captured(INLINE_TOOL@, text, 2)) {
        (Some(name), Some(args)) => match json_of_text(args) {
            Some(t) => Some((name, t)),
            None => None,
        },
        _ => None,
    }
}

/// Makes the call that is written out, from its name and the arguments that were
/// read.
pub fn call_from(name: Option<String>, args: Option<Json>) -> (r: Option<ToolCall>)
    ensures
        match (name, args) {
            (Some(n), Some(a)) => r matches Some(c) && c.name@ == n@ && c.args@ == a@,
            _ => r is None,
        },
{
    match (name, args) {
        (Some(name), Some(args)) => Some(ToolCall { name, args }),
        _ => None,
    }
}

/// The calls in a text that looks like one.
pub open spec fn calls_in_text(text: Seq<char>) -> Seq<(Seq<char>, JsonTree)> {
    inline_calls(written_call(text), reply_meaning(text))
}

/// The calls in a reply that is JSON, or was meant to be.
pub open spec fn calls_in_reply(raw: Seq<char>) -> Seq<(Seq<char>, JsonTree)> {
    actions_in(reply_meaning(raw)).map_values(|item: JsonTree| call_of(item))
}

/// Takes the calls out of a reply that is JSON, or was meant to be.
pub fn reply_calls(raw: &str) -> (r: Vec<ToolCall>)
    ensures
        calls_view(r@) == calls_in_reply(raw@),
{
    parsed_calls(parse_json(raw))
}

/// Takes the calls out of a text that looks like one.
pub fn text_calls(text: &str) -> (r: Vec<ToolCall>)
    ensures
        calls_view(r@) == calls_in_text(text@),
{
    let name = capture(INLINE_TOOL, text, 1);
    let args = match capture(INLINE_TOOL, text, 2) {
        Some(raw) => read_json(raw.as_str()),
        None => None,
    };
    match call_from(name, args) {
        Some(c) => {
            let mut out: Vec<ToolCall> = Vec::new();
            let ghost one = (c.name@, c.args@);
            out.push(c);
            assert(calls_view(out@) =~= seq![one]);
            out
        },
        None => reply_calls(text),
    }
}

// ── Laws on replies ──────────────────────────────────────────────────────────

/// What can be read from a reply counts, in this order: the whole of it, the whole with its
/// line breaks escaped, a block in it, that block with its line breaks escaped.
pub proof fn law_the_first_reading_counts(
    s: Seq<char>,
    t: JsonTree,
    a: Option<JsonTree>,
    b: Option<JsonTree>,
    c: Option<JsonTree>,
    text: Option<Seq<char>>,
)
    ensures
        meaning(s, Some(t), a, b, c, text) == t,
        meaning(s, None, Some(t), b, c, text) == t,
        meaning(s, None, None, Some(t), c, text) == t,
        meaning(s, None, None, None, Some(t), text) == t,
{
}

proof fn lemma_words_only(text: Seq<char>)
    ensures
        member(words_only(text), "action"@) == Some(JsonTree::Text("none"@)),
        member(words_only(text), "text"@) == Some(JsonTree::Text(text)),
{
    reveal_strlit("action");
    reveal_strlit("text");
    assert("action"@.len() == 6 && "text"@.len() == 4);
    let n = no_members();
    let a = with_member(n, "action"@, JsonTree::Text("none"@));
    law_an_added_member_is_found(n, "action"@, JsonTree::Text("none"@), "text"@);
    law_an_added_member_is_found(a, "text"@, JsonTree::Text(text), "action"@);
}

/// Where nothing of a reply is JSON, its raw text member is spoken, with spaces for escaped
/// line breaks; without one, prose is spoken as it is. Neither asks for an action.
pub proof fn law_unread_replies_are_spoken(s: Seq<char>, text: Seq<char>)
    ensures
        member(meaning(s, None, None, None, None, Some(text)), "text"@) == Some(
            JsonTree::Text(substituted(text, "\\n"@, " "@)),
        ),
        member(meaning(s, None, None, None, None, Some(text)), "action"@) == Some(
            JsonTree::Text("none"@),
        ),
        !s.contains('{') && (s.len() == 0 || s[0] != '[') ==> member(
            meaning(s, None, None, None, None, None),
            "text"@,
        ) == Some(JsonTree::Text(s)),
        member(meaning(s, None, None, None, None, None), "action"@) == Some(
            JsonTree::Text("none"@),
        ),
{
    lemma_words_only(substituted(text, "\\n"@, " "@));
    lemma_words_only(s);
    lemma_words_only(Seq::empty());
    reveal_strlit("{");
    reveal_strlit("[");
    if occurs(s, "{"@) {
        let i = choose|i: int| occurs_at(s, "{"@, i);
        assert(s.subrange(i, i + 1)[0] == s[i]);
        assert(s.contains(s[i]));
    }
    if begins(s, "["@) {
        assert(s.take(1)[0] == s[0]);
    }
}

/// Prose is never taken for a call: a reply without a brace that begins with no backtick and
/// no bracket is spoken as it streams in.
pub proof fn law_prose_is_not_taken_for_a_call(s: Seq<char>)
    requires
        !s.contains('{'),
        !s.contains('`'),
        !s.contains('['),
    ensures
        !inline_tool(s),
{
    let t = strip_front(s, Class::Space);
    assert forall|c: char| #[trigger] t.contains(c) implies s.contains(c) by {
        lemma_strip_front_chars(s, Class::Space, c);
    }
    reveal_strlit("{");
    reveal_strlit("[");
    reveal_strlit("```");
    reveal_strlit("{\"");
    assert(!t.contains('{') && !t.contains('`') && !t.contains('['));
    if begins(t, "{"@) {
        assert(t.take(1)[0] == t[0]);
        assert(t.contains(t[0]));
    }
    if begins(t, "["@) {
        assert(t.take(1)[0] == t[0]);
        assert(t.contains(t[0]));
    }
    if begins(t, "```"@) {
        assert(t.take(3)[0] == t[0]);
        assert(t.contains(t[0]));
    }
    if occurs(t, "{\""@) {
        let i = choose|i: int| occurs_at(t, "{\""@, i);
        assert(t.subrange(i, i + 2)[0] == t[i]);
        assert(t.contains(t[i]));
    }
    if exists|i: int|
        0 <= i < t.len() && t[i] == '{' && !t.take(i).contains('{') && is_word(
            strip_back(#[trigger] t.take(i), Class::Space),
        ) {
        let i = choose|i: int|
            0 <= i < t.len() && t[i] == '{' && !t.take(i).contains('{') && is_word(
                strip_back(#[trigger] t.take(i), Class::Space),
            );
        assert(t.contains(t[i]));
    }
}

/// A call is recognised before any of it is spoken: a reply that begins with a brace, a
/// bracket or a fence, or with a word and a brace behind it, and one that holds the beginning
/// of a JSON object, looks like a call, whatever follows.
pub proof fn law_calls_are_recognised(word: Seq<char>, gap: Seq<char>, rest: Seq<char>, front: Seq<char>)
    requires
        is_word(word),
        word.len() > 0,
        !is_space(word[0]),
        !is_space(word.last()),
        !word.contains('{'),
        is_blank(gap),
        front.len() > 0 ==> !is_space(front[0]),
    ensures
        inline_tool("{"@ + rest),
        inline_tool("["@ + rest),
        inline_tool("```"@ + rest),
        inline_tool(word + gap + "{"@ + rest),
        inline_tool(front + "{\""@ + rest),
{
    reveal_strlit("{");
    reveal_strlit("[");
    reveal_strlit("```");
    reveal_strlit("{\"");
    let a = "{"@ + rest;
    lemma_strip_front_at(a, Class::Space, 0);
    assert(a.subrange(0, a.len() as int) =~= a);
    assert(a.take(1) =~= "{"@);
    let b = "["@ + rest;
    lemma_strip_front_at(b, Class::Space, 0);
    assert(b.subrange(0, b.len() as int) =~= b);
    assert(b.take(1) =~= "["@);
    let c = "```"@ + rest;
    lemma_strip_front_at(c, Class::Space, 0);
    assert(c.subrange(0, c.len() as int) =~= c);
    assert(c.take(3) =~= "```"@);
    let d = word + gap + "{"@ + rest;
    assert(d[0] == word[0]);
    lemma_strip_front_at(d, Class::Space, 0);
    assert(d.subrange(0, d.len() as int) =~= d);
    let k = word.len() + gap.len();
    assert(d[k as int] == '{');
    let before = d.take(k as int);
    assert(before =~= word + gap);
    assert(!before.contains('{')) by {
        if before.contains('{') {
            let i = choose|i: int| 0 <= i < before.len() && before[i] == '{';
            if i < word.len() {
                assert(word[i] == '{');
                assert(word.contains(word[i]));
            } else {
                assert(is_space(gap[i - word.len()]));
            }
        }
    }
    assert forall|j: int| word.len() <= j < before.len() implies Class::Space.holds(before[j]) by {
        assert(before[j] == gap[j - word.len()]);
    }
    assert(before[word.len() - 1] == word.last());
    lemma_strip_back_at(before, Class::Space, word.len() as int);
    assert(before.subrange(0, word.len() as int) =~= word);
    assert(is_word(strip_back(d.take(k as int), Class::Space)));
    assert(inline_tool(d));
    let e = front + "{\""@ + rest;
    assert(e[0] == (if front.len() > 0 { front[0] } else { '{' }));
    lemma_strip_front_at(e, Class::Space, 0);
    assert(e.subrange(0, e.len() as int) =~= e);
    assert(e.subrange(front.len() as int, front.len() as int + 2) =~= "{\""@);
    assert(occurs_at(e, "{\""@, front.len() as int));
}

/// A call that is written out is that one call, where its arguments are JSON; any other text
/// is read as JSON, and each of its items is a call.
pub proof fn law_a_written_call_is_one_call(
    text: Seq<char>,
    name: Seq<char>,
    args: Seq<char>,
    t: JsonTree,
)
    ensures
        captured(INLINE_TOOL@, text, 1) == Some(name) && captured(INLINE_TOOL@, text, 2) == Some(
            args,
        ) && json_of_text(args) == Some(t) ==> calls_in_text(text) == seq![(name, t)],
        captured(INLINE_TOOL@, text, 2) is None || json_of_text(captured(INLINE_TOOL@, text, 2)->0)
            is None ==> calls_in_text(text) == calls_in_reply(text),
{
}

/// Each item of a list that a reply means is a call, in its order and with all its members; a
/// reply that means no list is one call.
pub proof fn law_the_items_of_a_reply_are_its_calls(
    raw: Seq<char>,
    items: Seq<JsonTree>,
    i: int,
    action: Seq<char>,
)
    ensures
        reply_meaning(raw) == JsonTree::List(items) ==> {
            &&& calls_in_reply(raw).len() == items.len()
            &&& 0 <= i < items.len() ==> calls_in_reply(raw)[i].1 == items[i]
            &&& 0 <= i < items.len() && member(items[i], "action"@) == Some(JsonTree::Text(action))
                ==> calls_in_reply(raw)[i].0 == action
        },
        !(reply_meaning(raw) is List) ==> {
            &&& calls_in_reply(raw).len() == 1
            &&& calls_in_reply(raw)[0].1 == reply_meaning(raw)
            &&& member(reply_meaning(raw), "action"@) == Some(JsonTree::Text(action))
                ==> calls_in_reply(raw)[0].0 == action
        },
{
}

/// The calls that are handed out of a reply are the items that it means, all of them in order.
pub proof fn law_the_calls_of_a_reply_are_handed_out(
    raw: &str,
    r: Vec<ToolCall>,
    text: &str,
    in_text: Vec<ToolCall>,
    parsed: Json,
    looks: bool,
    items: Seq<JsonTree>,
    i: int,
    action: Seq<char>,
)
    requires
        call_ensures(reply_calls, (raw,), r),
        call_ensures(text_calls, (text,), in_text),
        call_ensures(parse_json, (raw,), parsed),
        call_ensures(looks_like_inline_tool, (text,), looks),
    ensures
        parsed@ == reply_meaning(raw@),
        looks == inline_tool(text@),
        calls_view(in_text@) == calls_in_text(text@),
        reply_meaning(raw@) == JsonTree::List(items) ==> r@.len() == items.len(),
        reply_meaning(raw@) == JsonTree::List(items) && 0 <= i < items.len() ==> r@[i].args@
            == items[i],
        reply_meaning(raw@) == JsonTree::List(items) && 0 <= i < items.len() && member(
            items[i],
            "action"@,
        ) == Some(JsonTree::Text(action)) ==> r@[i].name@ == action,
        !(reply_meaning(raw@) is List) ==> r@.len() == 1 && r@[0].args@ == reply_meaning(raw@),
{
    let v = calls_view(r@);
    assert(v.len() == r@.len());
    law_the_items_of_a_reply_are_its_calls(raw@, items, i, action);
    if 0 <= i < v.len() {
        assert(v[i] == (r@[i].name@, r@[i].args@));
    }
    if v.len() > 0 {
        assert(v[0] == (r@[0].name@, r@[0].args@));
    }
}

/// A line break inside a reply is written as an escape, and nothing else changes.
pub proof fn law_only_line_breaks_are_escaped(a: Seq<char>, b: Seq<char>, c: char)
    ensures
        breaks_escaped(a + b) == breaks_escaped(a) + breaks_escaped(b),
        breaks_escaped(seq!['\n']) == seq!['\\', 'n'],
        c != '\n' ==> breaks_escaped(seq![c]) == seq![c],
{
    reveal_strlit("\\n");
    assert("\\n"@ =~= seq!['\\', 'n']);
    law_replacing_goes_by_characters(a, b, c, Class::Only('\n'), "\\n"@);
    law_replacing_goes_by_characters(a, b, '\n', Class::Only('\n'), "\\n"@);
}

/// A reply that is not JSON as it stands means what can be read from it: with its line breaks
/// escaped; from a block in it; or from that block with its line breaks escaped.
pub proof fn law_a_reply_means_what_can_be_read(raw: Seq<char>, block: Seq<char>, t: JsonTree)
    requires
        json_of_text(unfenced(raw)) is None,
    ensures
        json_of_text(breaks_escaped(unfenced(raw))) == Some(t) ==> reply_meaning(raw) == t,
        json_of_text(breaks_escaped(unfenced(raw))) is None && captured(
            JSON_BLOCK@,
            unfenced(raw),
            0,
        ) == Some(block) && json_of_text(block) == Some(t) ==> reply_meaning(raw) == t,
        json_of_text(breaks_escaped(unfenced(raw))) is None && captured(
            JSON_BLOCK@,
            unfenced(raw),
            0,
        ) == Some(block) && json_of_text(block) is None && json_of_text(breaks_escaped(block))
            == Some(t) ==> reply_meaning(raw) == t,
{
}

/// Nothing is spoken of a broken attempt at JSON: of a reply that cannot be read and holds a
/// brace, or begins with a bracket.
pub proof fn law_nothing_is_spoken_of_broken_json(s: Seq<char>)
    requires
        s.contains('{') || s.len() > 0 && s[0] == '[',
    ensures
        member(meaning(s, None, None, None, None, None), "text"@) == Some(
            JsonTree::Text(Seq::empty()),
        ),
{
    reveal_strlit("{");
    reveal_strlit("[");
    lemma_words_only(Seq::empty());
    if s.contains('{') {
        let i = choose|i: int| 0 <= i < s.len() && s[i] == '{';
        assert(s.subrange(i, i + 1) =~= "{"@);
        assert(occurs_at(s, "{"@, i));
    } else {
        assert(s.take(1) =~= "["@);
    }
}

} // verus!
