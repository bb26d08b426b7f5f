//! Incremental sentence splitting for streamed replies.
use vstd::prelude::*;

use crate::text::{Class, count, is_blank, is_space, space, strip_front, text_between, trim, trimmed};
use crate::text::{
    law_only_blank_texts_trim_to_nothing, lemma_strip_back_at, lemma_strip_front_at,
    lemma_trimmed_range,
};

verus! {

/// Fragments shorter than this are not cut: synthesis has a fixed cost per
/// sentence, and "Oui." alone sounds choppier than "Oui. Je m'en occupe."
pub const MIN_SENTENCE_CHARS: usize = 12;

/// The punctuation that ends a sentence.
pub open spec fn is_end(c: char) -> bool {
    c == '.' || c == '!' || c == '?' || c == '…' || c == ':'
}

/// A cut right before `s[i]`: end punctuation, then white space, and at least
/// `min` characters before it. A decimal such as "2.5" survives, since no white
/// space follows its dot.
pub open spec fn boundary_at(s: Seq<char>, min: nat, i: int) -> bool {
    &&& 0 < i < s.len()
    &&& is_end(s[i - 1])
    &&& is_space(s[i])
    &&& trimmed(s.take(i)).len() >= min
}

/// The first cut at or after `i`.
pub open spec fn boundary_from(s: Seq<char>, min: nat, i: int) -> Option<int>
    decreases s.len() - i,
{
    if i >= s.len() {
        None
    } else if boundary_at(s, min, i) {
        Some(i)
    } else {
        boundary_from(s, min, i + 1)
    }
}

/// The first cut in `s`.
pub open spec fn boundary(s: Seq<char>) -> Option<int> {
    boundary_from(s, MIN_SENTENCE_CHARS as nat, 1)
}

/// The complete sentences of `s`, trimmed.
pub open spec fn sentences(s: Seq<char>) -> Seq<Seq<char>>
    decreases s.len(),
{
    match boundary(s) {
        Some(i) if 0 < i <= s.len() => seq![trimmed(s.take(i))] + sentences(s.skip(i)),
        _ => Seq::empty(),
    }
}

/// What is left of `s` once its complete sentences are cut off.
pub open spec fn remainder(s: Seq<char>) -> Seq<char>
    decreases s.len(),
{
    match boundary(s) {
        Some(i) if 0 < i <= s.len() => remainder(s.skip(i)),
        _ => s,
    }
}

/// The trimmed rest of a text, where anything is left of it.
pub open spec fn last_words(s: Seq<char>) -> Option<Seq<char>> {
    if trimmed(s).len() == 0 {
        None
    } else {
        Some(trimmed(s))
    }
}

/// All that is spoken of a complete text: its sentences, then its last words.
pub open spec fn spoken(s: Seq<char>) -> Seq<Seq<char>> {
    match last_words(remainder(s)) {
        Some(rest) => sentences(s).push(rest),
        None => sentences(s),
    }
}

/// The characters of a text that are not white space.
pub open spec fn visible(s: Seq<char>) -> Seq<char>
    decreases s.len(),
{
    if s.len() == 0 {
        Seq::empty()
    } else if is_space(s.last()) {
        visible(s.drop_last())
    } else {
        visible(s.drop_last()).push(s.last())
    }
}

/// The characters of several texts that are not white space, in order.
pub open spec fn visible_all(parts: Seq<Seq<char>>) -> Seq<char>
    decreases parts.len(),
{
    if parts.len() == 0 {
        Seq::empty()
    } else {
        visible_all(parts.drop_last()) + visible(parts.last())
    }
}

// ── The buffer ───────────────────────────────────────────────────────────────

fn end_mark(c: char) -> (r: bool)
    ensures
        r == is_end(c),
{
    c == '.' || c == '!' || c == '?' || c == '…' || c == ':'
}

/// Position right after the first sentence that holds at least `min`
/// characters and is followed by white space.
pub fn find_boundary(s: &Vec<char>, min: usize) -> (r: Option<usize>)
    ensures
        match r {
            Some(i) => boundary_from(s@, min as nat, 1) == Some(i as int) && 0 < i < s@.len(),
            None => boundary_from(s@, min as nat, 1) is None,
        },
{
    let mut i: usize = 1;
    while i < s.len()
        invariant
            1 <= i,
            boundary_from(s@, min as nat, 1) == boundary_from(s@, min as nat, i as int),
        decreases s@.len() - i,
    {
        if end_mark(s[i - 1]) && space(s[i]) {
            let before = text_between(s, 0, i);
            assert(s@.subrange(0, i as int) =~= s@.take(i as int));
            if count(trim(before.as_str()).as_str()) >= min {
                return Some(i);
            }
        }
        i = i + 1;
    }
    None
}

/// Feed it deltas, get back the sentences that they complete.
pub struct SentenceBuffer {
    buf: Vec<char>,
}

impl View for SentenceBuffer {
    type V = Seq<char>;

    closed spec fn view(&self) -> Seq<char> {
        self.buf@
    }
}

impl Default for SentenceBuffer {
    fn default() -> (r: Self)
        ensures
            r@ == Seq::<char>::empty(),
    {
        SentenceBuffer::new()
    }
}

impl SentenceBuffer {
    pub fn new() -> (r: Self)
        ensures
            r@ == Seq::<char>::empty(),
    {
        SentenceBuffer { buf: Vec::new() }
    }

    /// Adds `delta` and hands out the sentences that are complete now.
    pub fn push(&mut self, delta: &str) -> (r: Vec<String>)
        ensures
            r.deep_view() == sentences(old(self)@ + delta@),
            final(self)@ == remainder(old(self)@ + delta@),
    {
        for c in it: delta.chars()
            invariant
                it.seq() == delta@,
                self.buf@ == old(self)@ + delta@.take(it.index()),
        {
            self.buf.push(c);
            assert(delta@.take(it.index() + 1) =~= delta@.take(it.index()).push(c));
        }
        assert(delta@.take(delta@.len() as int) =~= delta@);
        let ghost whole = old(self)@ + delta@;
        let mut out: Vec<String> = Vec::new();
        assert(out.deep_view() + sentences(self.buf@) =~= sentences(whole));
        loop
            invariant_except_break
                out.deep_view() + sentences(self.buf@) == sentences(whole),
                remainder(self.buf@) == remainder(whole),
            ensures
                out.deep_view() == sentences(whole),
                self.buf@ == remainder(whole),
            decreases self.buf@.len(),
        {
            let ghost before = self.buf@;
            let ghost said = out.deep_view();
            match find_boundary(&self.buf, MIN_SENTENCE_CHARS) {
                None => {
                    assert(out.deep_view() + sentences(self.buf@) =~= out.deep_view());
                    break;
                },
                Some(cut) => {
                    let rest = self.buf.split_off(cut);
                    let sentence = text_between(&self.buf, 0, self.buf.len());
                    assert(sentence@ =~= before.take(cut as int));
                    out.push(trim(sentence.as_str()));
                    self.buf = rest;
                    assert(self.buf@ =~= before.skip(cut as int));
                    assert(out.deep_view() =~= said.push(trimmed(before.take(cut as int))));
                    assert(out.deep_view() + sentences(self.buf@) =~= said + sentences(before));
                },
            }
        }
        out
    }

    /// Hands out what is left, and empties the buffer.
    pub fn flush(&mut self) -> (r: Option<String>)
        ensures
            r.deep_view() == last_words(old(self)@),
            final(self)@ == Seq::<char>::empty(),
    {
        let all = text_between(&self.buf, 0, self.buf.len());
        assert(all@ =~= old(self)@);
        let s = trim(all.as_str());
        self.buf = Vec::new();
        if s.as_str().is_empty() {
            None
        } else {
            Some(s)
        }
    }
}

/// Splits a complete text into speakable sentences.
pub fn split_sentences(text: &str) -> (r: Vec<String>)
    ensures
        r.deep_view() == spoken(text@),
{
    let mut b = SentenceBuffer::new();
    assert(b@ + text@ =~= text@);
    let mut out = b.push(text);
    let ghost said = out.deep_view();
    if let Some(rest) = b.flush() {
        let ghost words = rest@;
        out.push(rest);
        assert(out.deep_view() =~= said.push(words));
    }
    out
}

// ── Laws ─────────────────────────────────────────────────────────────────────

proof fn lemma_boundary_from(s: Seq<char>, min: nat, i: int)
    ensures
        match boundary_from(s, min, i) {
            Some(k) => i <= k && boundary_at(s, min, k) && forall|j: int|
                i <= j < k ==> !boundary_at(s, min, j),
            None => forall|j: int| i <= j < s.len() ==> !boundary_at(s, min, j),
        },
    decreases s.len() - i,
{
    if i < s.len() && !boundary_at(s, min, i) {
        lemma_boundary_from(s, min, i + 1);
    }
}

proof fn lemma_boundary_is_first(s: Seq<char>, min: nat, i: int, k: int)
    requires
        i <= k < s.len(),
        boundary_at(s, min, k),
        forall|j: int| i <= j < k ==> !boundary_at(s, min, j),
    ensures
        boundary_from(s, min, i) == Some(k),
    decreases k - i,
{
    if i < k {
        lemma_boundary_is_first(s, min, i + 1, k);
    }
}

/// The first cut of a text stays its first cut when more text follows.
proof fn lemma_boundary_stays(a: Seq<char>, b: Seq<char>)
    requires
        boundary(a) is Some,
    ensures
        boundary(a + b) == boundary(a),
{
    let min = MIN_SENTENCE_CHARS as nat;
    lemma_boundary_from(a, min, 1);
    let k = boundary(a)->0;
    assert forall|j: int| 1 <= j <= k implies #[trigger] boundary_at(a + b, min, j)
        == boundary_at(a, min, j) by {
        assert((a + b).take(j) =~= a.take(j));
    }
    lemma_boundary_is_first(a + b, min, 1, k);
}

/// How a text is cut into deltas makes no difference: feeding `a` and then `b`
/// hands out the sentences that feeding both at once does, and leaves the same
/// rest.
pub proof fn law_deltas_do_not_matter(a: Seq<char>, b: Seq<char>)
    ensures
        sentences(a + b) == sentences(a) + sentences(remainder(a) + b),
        remainder(a + b) == remainder(remainder(a) + b),
    decreases a.len(),
{
    lemma_boundary_from(a, MIN_SENTENCE_CHARS as nat, 1);
    match boundary(a) {
        Some(i) => {
            lemma_boundary_stays(a, b);
            law_deltas_do_not_matter(a.skip(i), b);
            assert((a + b).skip(i) =~= a.skip(i) + b);
            assert((a + b).take(i) =~= a.take(i));
            assert(sentences(a + b) =~= sentences(a) + sentences(remainder(a) + b));
        },
        None => {
            assert(sentences(a) + sentences(a + b) =~= sentences(a + b));
        },
    }
}

/// What a push leaves in the buffer holds no complete sentence.
pub proof fn law_remainder_is_incomplete(s: Seq<char>)
    ensures
        sentences(remainder(s)) == Seq::<Seq<char>>::empty(),
        remainder(remainder(s)) == remainder(s),
    decreases s.len(),
{
    lemma_boundary_from(s, MIN_SENTENCE_CHARS as nat, 1);
    match boundary(s) {
        Some(i) => law_remainder_is_incomplete(s.skip(i)),
        None => {},
    }
}

/// Trimming a trimmed text changes nothing.
pub proof fn law_trim_is_idempotent(s: Seq<char>)
    ensures
        trimmed(trimmed(s)) == trimmed(s),
{
    let (i, j) = lemma_trimmed_range(s);
    let t = trimmed(s);
    if i < j {
        assert(t[0] == s[i]);
        assert(t[t.len() - 1] == s[j - 1]);
        lemma_strip_front_at(t, Class::Space, 0);
        assert(t.subrange(0, t.len() as int) =~= t);
        lemma_strip_back_at(t, Class::Space, t.len() as int);
    }
}

/// Every sentence that a push hands out holds at least `MIN_SENTENCE_CHARS`
/// characters, is trimmed, and ends in end punctuation.
pub proof fn law_sentences_are_complete(s: Seq<char>, k: int)
    requires
        0 <= k < sentences(s).len(),
    ensures
        sentences(s)[k].len() >= MIN_SENTENCE_CHARS,
        trimmed(sentences(s)[k]) == sentences(s)[k],
        is_end(sentences(s)[k].last()),
    decreases s.len(),
{
    lemma_boundary_from(s, MIN_SENTENCE_CHARS as nat, 1);
    match boundary(s) {
        Some(i) => {
            if k == 0 {
                let t = s.take(i);
                let (x, y) = lemma_trimmed_range(t);
                assert(t[i - 1] == s[i - 1]);
                assert(y == i) by {
                    if y < i {
                        assert(is_space(t[i - 1]));
                    }
                }
                assert(trimmed(t).last() == t[y - 1]);
                law_trim_is_idempotent(t);
            } else {
                law_sentences_are_complete(s.skip(i), k - 1);
            }
        },
        None => {},
    }
}

proof fn lemma_visible_concat(a: Seq<char>, b: Seq<char>)
    ensures
        visible(a + b) == visible(a) + visible(b),
    decreases b.len(),
{
    if b.len() == 0 {
        assert(a + b =~= a);
        assert(visible(a) + visible(b) =~= visible(a));
    } else {
        lemma_visible_concat(a, b.drop_last());
        assert((a + b).drop_last() =~= a + b.drop_last());
        assert(visible(a + b) =~= visible(a) + visible(b));
    }
}

proof fn lemma_visible_of_space(s: Seq<char>)
    requires
        forall|j: int| 0 <= j < s.len() ==> is_space(s[j]),
    ensures
        visible(s) == Seq::<char>::empty(),
    decreases s.len(),
{
    if s.len() > 0 {
        lemma_visible_of_space(s.drop_last());
    }
}

proof fn lemma_visible_trimmed(s: Seq<char>)
    ensures
        visible(trimmed(s)) == visible(s),
{
    let (i, j) = lemma_trimmed_range(s);
    let a = s.subrange(0, i);
    let b = s.subrange(i, j);
    let c = s.subrange(j, s.len() as int);
    assert(s =~= a + (b + c));
    lemma_visible_concat(a, b + c);
    lemma_visible_concat(b, c);
    lemma_visible_of_space(a);
    lemma_visible_of_space(c);
    assert(visible(s) =~= visible(b));
}

proof fn lemma_visible_all_concat(a: Seq<Seq<char>>, b: Seq<Seq<char>>)
    ensures
        visible_all(a + b) == visible_all(a) + visible_all(b),
    decreases b.len(),
{
    if b.len() == 0 {
        assert(a + b =~= a);
        assert(visible_all(a) + visible_all(b) =~= visible_all(a));
    } else {
        lemma_visible_all_concat(a, b.drop_last());
        assert((a + b).drop_last() =~= a + b.drop_last());
        assert(visible_all(a + b) =~= visible_all(a) + visible_all(b));
    }
}

proof fn lemma_visible_pushed(s: Seq<char>)
    ensures
        visible_all(sentences(s)) + visible(remainder(s)) == visible(s),
    decreases s.len(),
{
    lemma_boundary_from(s, MIN_SENTENCE_CHARS as nat, 1);
    match boundary(s) {
        Some(i) => {
            lemma_visible_pushed(s.skip(i));
            let first = seq![trimmed(s.take(i))];
            lemma_visible_all_concat(first, sentences(s.skip(i)));
            assert(first.drop_last() =~= Seq::<Seq<char>>::empty());
            reveal_with_fuel(visible_all, 2);
            assert(visible_all(first) =~= visible(trimmed(s.take(i))));
            lemma_visible_trimmed(s.take(i));
            lemma_visible_concat(s.take(i), s.skip(i));
            assert(s.take(i) + s.skip(i) =~= s);
            assert(visible_all(sentences(s)) + visible(remainder(s)) =~= visible(s));
        },
        None => {
            assert(visible_all(sentences(s)) + visible(s) =~= visible(s));
        },
    }
}

/// The parts one behind the other, each with its gap in front of it.
pub open spec fn laid_out(gaps: Seq<Seq<char>>, parts: Seq<Seq<char>>) -> Seq<char>
    decreases parts.len(),
{
    if parts.len() == 0 {
        Seq::empty()
    } else {
        laid_out(gaps.drop_last(), parts.drop_last()) + gaps.last() + parts.last()
    }
}

/// One gap of nothing but white space for each part.
pub open spec fn are_gaps(gaps: Seq<Seq<char>>, parts: Seq<Seq<char>>) -> bool {
    &&& gaps.len() == parts.len()
    &&& forall|k: int| 0 <= k < gaps.len() ==> is_blank(#[trigger] gaps[k])
}

proof fn lemma_laid_out_behind(
    gap: Seq<char>,
    part: Seq<char>,
    gaps: Seq<Seq<char>>,
    parts: Seq<Seq<char>>,
)
    requires
        gaps.len() == parts.len(),
    ensures
        laid_out(seq![gap] + gaps, seq![part] + parts) == gap + part + laid_out(gaps, parts),
    decreases parts.len(),
{
    let g = seq![gap] + gaps;
    let p = seq![part] + parts;
    if parts.len() == 0 {
        assert(laid_out(g.drop_last(), p.drop_last()) =~= Seq::<char>::empty());
        assert(laid_out(g, p) =~= gap + part + laid_out(gaps, parts));
    } else {
        lemma_laid_out_behind(gap, part, gaps.drop_last(), parts.drop_last());
        assert(g.drop_last() =~= seq![gap] + gaps.drop_last());
        assert(p.drop_last() =~= seq![part] + parts.drop_last());
        assert(laid_out(g, p) =~= gap + part + laid_out(gaps, parts));
    }
}

/// A push loses nothing but white space between sentences: the text is the sentences
/// that it hands out, in order and as they stand in it, with white space alone in front
/// of each, followed by what it keeps.
pub proof fn law_push_loses_nothing(s: Seq<char>) -> (gaps: Seq<Seq<char>>)
    ensures
        are_gaps(gaps, sentences(s)),
        s == laid_out(gaps, sentences(s)) + remainder(s),
    decreases s.len(),
{
    lemma_boundary_from(s, MIN_SENTENCE_CHARS as nat, 1);
    match boundary(s) {
        Some(i) => {
            let rest = s.skip(i);
            let later = law_push_loses_nothing(rest);
            let t = s.take(i);
            let (x, y) = lemma_trimmed_range(t);
            assert(t[i - 1] == s[i - 1]);
            assert(y == i) by {
                if y < i {
                    assert(is_space(t[i - 1]));
                }
            }
            let gap = t.take(x);
            lemma_laid_out_behind(gap, trimmed(t), later, sentences(rest));
            assert(gap + trimmed(t) =~= t);
            assert(s =~= t + (laid_out(later, sentences(rest)) + remainder(rest)));
            let gaps = seq![gap] + later;
            assert(s =~= laid_out(gaps, sentences(s)) + remainder(s));
            assert forall|k: int| 0 <= k < gaps.len() implies is_blank(#[trigger] gaps[k]) by {
                if k > 0 {
                    assert(is_blank(later[k - 1]));
                }
            }
            gaps
        },
        None => {
            assert(s =~= laid_out(Seq::empty(), sentences(s)) + remainder(s));
            Seq::empty()
        },
    }
}

/// Splitting a complete text loses nothing but white space around sentences: the text is
/// what is spoken of it, in order and as it stands in it, with white space alone in front
/// of each sentence and behind the last.
pub proof fn law_split_loses_nothing(s: Seq<char>) -> (r: (Seq<Seq<char>>, Seq<char>))
    ensures
        are_gaps(r.0, spoken(s)),
        is_blank(r.1),
        s == laid_out(r.0, spoken(s)) + r.1,
{
    let gaps = law_push_loses_nothing(s);
    let rest = remainder(s);
    let (x, y) = lemma_trimmed_range(rest);
    match last_words(rest) {
        Some(words) => {
            let all = gaps.push(rest.take(x));
            assert(all.drop_last() =~= gaps);
            assert(spoken(s).drop_last() =~= sentences(s));
            assert(rest =~= rest.take(x) + trimmed(rest) + rest.skip(y));
            assert(s =~= laid_out(all, spoken(s)) + rest.skip(y));
            (all, rest.skip(y))
        },
        None => (gaps, rest),
    }
}

/// A blank text has nothing to say: no beginning of it holds a sentence.
pub proof fn law_blank_text_is_silent(s: Seq<char>, more: Seq<char>)
    requires
        trimmed(s + more).len() == 0,
    ensures
        sentences(s).len() == 0,
        last_words(remainder(s)) is None,
{
    lemma_visible_trimmed(s + more);
    lemma_visible_concat(s, more);
    assert(visible(trimmed(s + more)) =~= Seq::<char>::empty());
    assert(visible(s).len() == 0);
    lemma_visible_pushed(s);
    if sentences(s).len() > 0 {
        law_sentences_are_complete(s, sentences(s).len() - 1);
        let last = sentences(s).last();
        assert(visible(last).len() > 0);
        assert(visible_all(sentences(s)).len() > 0);
    }
    let rest = remainder(s);
    lemma_visible_trimmed(rest);
    let (i, j) = lemma_trimmed_range(rest);
    if i < j {
        assert(trimmed(rest).last() == rest[j - 1]);
        assert(visible(trimmed(rest)).len() > 0);
    }
}

/// A sentence is handed out as soon as it is complete: once white space follows its end mark
/// and it holds at least twelve characters. The end marks are the full stop, the exclamation
/// and question marks, the ellipsis and the colon.
pub proof fn law_a_complete_sentence_is_handed_out(
    a: Seq<char>,
    end: char,
    gap: char,
    rest: Seq<char>,
)
    requires
        end == '.' || end == '!' || end == '?' || end == '…' || end == ':',
        is_space(gap),
        trimmed(a.push(end)).len() >= 12,
    ensures
        sentences(a.push(end).push(gap) + rest).len() > 0,
{
    let s = a.push(end).push(gap) + rest;
    let k = a.len() + 1;
    assert(s.take(k as int) =~= a.push(end));
    assert(s[k - 1] == end);
    assert(s[k as int] == gap);
    assert(boundary_at(s, MIN_SENTENCE_CHARS as nat, k as int));
    lemma_boundary_from(s, MIN_SENTENCE_CHARS as nat, 1);
}

/// Nothing is cut in the middle of a word or a number: what is kept behind a sentence begins
/// with white space, and the sentence before it holds at least twelve characters.
pub proof fn law_cuts_are_made_at_white_space(s: Seq<char>, k: int)
    requires
        0 <= k < sentences(s).len(),
    ensures
        remainder(s).len() > 0,
        is_space(remainder(s)[0]),
        sentences(s)[k].len() >= 12,
        sentences(s)[k].last() == '.' || sentences(s)[k].last() == '!' || sentences(s)[k].last()
            == '?' || sentences(s)[k].last() == '…' || sentences(s)[k].last() == ':',
    decreases s.len(),
{
    law_sentences_are_complete(s, k);
    lemma_boundary_from(s, MIN_SENTENCE_CHARS as nat, 1);
    if let Some(i) = boundary(s) {
        let rest = s.skip(i);
        assert(rest[0] == s[i]);
        lemma_boundary_from(rest, MIN_SENTENCE_CHARS as nat, 1);
        if sentences(rest).len() > 0 {
            law_cuts_are_made_at_white_space(rest, 0);
        }
    }
}

/// A buffer hands the sentences out as they are completed, and keeps the rest; a flush hands
/// that out, and empties the buffer.
pub proof fn law_a_buffer_keeps_what_it_does_not_hand_out(
    buffer: &mut SentenceBuffer,
    delta: &str,
    r: Vec<String>,
    full: &mut SentenceBuffer,
    last: Option<String>,
) -> (gaps: Seq<Seq<char>>)
    requires
        call_ensures(SentenceBuffer::push, (buffer, delta), r),
        call_ensures(SentenceBuffer::flush, (full,), last),
    ensures
        are_gaps(gaps, r.deep_view()),
        old(buffer)@ + delta@ == laid_out(gaps, r.deep_view()) + final(buffer)@,
        final(full)@.len() == 0,
        last is Some <==> !is_blank(old(full)@),
        last matches Some(t) ==> t@ == trimmed(old(full)@),
{
    law_only_blank_texts_trim_to_nothing(old(full)@);
    law_push_loses_nothing(old(buffer)@ + delta@)
}

/// A text that is split is handed out in full, in its order: between its sentences stands
/// nothing but white space.
pub proof fn law_a_split_text_is_handed_out_in_full(text: &str, r: Vec<String>) -> (parts: (
    Seq<Seq<char>>,
    Seq<char>,
))
    requires
        call_ensures(split_sentences, (text,), r),
    ensures
        are_gaps(parts.0, r.deep_view()),
        is_blank(parts.1),
        text@ == laid_out(parts.0, r.deep_view()) + parts.1,
{
    law_split_loses_nothing(text@)
}

} // verus!
