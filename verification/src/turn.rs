//! One turn of the conversation: what the user said goes to the model, what the model
//! streams back is spoken as it comes in, and its actions are carried out.
use vstd::prelude::*;

use crate::actions::{
    calls_view, choose_voice, failure_line, failures, first_filled, law_the_first_line_is_spoken,
    voice_line, ToolCall,
};
use crate::calls::{after_fragments, native_calls, ToolCalls};
use crate::chat::{
    chat_request, conversation, delta_text, law_a_request_says_what_is_asked, message_text,
    messages_view, reply_text, request, tools, vox_tools, Message, Role,
};
use crate::json::{items_of, member, Json, JsonTree};
use crate::reply::{calls_in_reply, calls_in_text, inline_tool, looks_like_inline_tool};
use crate::sentences::{
    last_words, law_blank_text_is_silent, law_deltas_do_not_matter, remainder, sentences, spoken,
    SentenceBuffer,
};
use crate::text::{is_blank, law_only_blank_texts_trim_to_nothing, trim, trimmed};

verus! {

/// Starts a turn: what the user said goes into the history.
pub fn ask_ollama(history: &mut Vec<Message>, transcript: &str) -> (r: Turn)
    ensures
        messages_view(final(history)@) == messages_view(old(history)@).push(
            (Role::User, transcript@),
        ),
        r.wf(),
        r@ == TurnView::new(),
{
    history.push(Message { role: Role::User, content: transcript.to_owned() });
    assert(messages_view(history@) =~= messages_view(old(history)@).push(
        (Role::User, transcript@),
    ));
    Turn::new()
}

// ── The requests ─────────────────────────────────────────────────────────────

/// The first attempt: with tools, streamed. `agent` is the name of the coding agent.
pub fn first_request(
    model: &str,
    system: &str,
    history: &Vec<Message>,
    en: bool,
    agent: &str,
) -> (r: Json)
    ensures
        r@ == request(
            model@,
            conversation(system@, messages_view(history@)),
            Some(tools(en, agent@)),
            300,
            true,
        ),
{
    chat_request(model, system, history, Some(vox_tools(en, agent)), 300, true)
}

/// The second attempt: without tools, at once.
pub fn second_request(model: &str, system: &str, history: &Vec<Message>) -> (r: Json)
    ensures
        r@ == request(
            model@,
            conversation(system@, messages_view(history@)),
            None,
            300,
            false,
        ),
{
    chat_request(model, system, history, None, 300, false)
}

// ── What a turn leads to ─────────────────────────────────────────────────────

/// What is done at the end of a turn.
#[derive(Debug, PartialEq)]
pub enum Effect {
    /// Say a sentence in the speech session, which is opened where there is none yet.
    Sentence(String),
    /// End the speech session, which ends in a speaking-done.
    EndSession,
    /// Say a text in a speech session of its own, which ends in a speaking-done.
    Speak(String),
    /// Report a speaking-done.
    SpeakingDone,
    /// Add a reply to the history.
    Remember(String),
}

pub enum EffectView {
    Sentence(Seq<char>),
    EndSession,
    Speak(Seq<char>),
    SpeakingDone,
    Remember(Seq<char>),
}

impl View for Effect {
    type V = EffectView;

    open spec fn view(&self) -> EffectView {
        match self {
            Effect::Sentence(s) => EffectView::Sentence(s@),
            Effect::EndSession => EffectView::EndSession,
            Effect::Speak(s) => EffectView::Speak(s@),
            Effect::SpeakingDone => EffectView::SpeakingDone,
            Effect::Remember(s) => EffectView::Remember(s@),
        }
    }
}

pub open spec fn effects_view(effects: Seq<Effect>) -> Seq<EffectView> {
    effects.map_values(|e: Effect| e@)
}

/// Whether effects come to rest: the last one that is heard ends in a speaking-done.
pub open spec fn settles(effects: Seq<EffectView>) -> bool
    decreases effects.len(),
{
    if effects.len() == 0 {
        false
    } else {
        match effects.last() {
            EffectView::Remember(_) => settles(effects.drop_last()),
            EffectView::Sentence(_) => false,
            _ => true,
        }
    }
}

fn add_effect(effects: &mut Vec<Effect>, e: Effect)
    ensures
        effects_view(final(effects)@) == effects_view(old(effects)@).push(e@),
{
    effects.push(e);
    assert(effects_view(effects@) =~= effects_view(old(effects)@).push(e@));
}

fn no_effects() -> (r: Vec<Effect>)
    ensures
        effects_view(r@) == Seq::<EffectView>::empty(),
{
    let r: Vec<Effect> = Vec::new();
    assert(effects_view(r@) =~= Seq::empty());
    r
}

/// A line that is spoken; where there is none, the turn is over.
pub open spec fn voice_effect(voice: Seq<char>) -> EffectView {
    if voice.len() == 0 {
        EffectView::SpeakingDone
    } else {
        EffectView::Speak(voice)
    }
}

fn speak_voice(voice: String) -> (r: Effect)
    ensures
        r@ == voice_effect(voice@),
{
    if voice.as_str().is_empty() {
        Effect::SpeakingDone
    } else {
        Effect::Speak(voice)
    }
}

// ── The stream ───────────────────────────────────────────────────────────────

/// A turn while the reply streams in.
#[verifier::ext_equal]
pub struct TurnView {
    /// All the text so far.
    pub full: Seq<char>,
    /// The part of it that was handed on to be spoken.
    pub fed: Seq<char>,
    /// Whether the text looks like a call, so that no more of it is spoken.
    pub suppressed: bool,
    /// The tool calls so far.
    pub calls: Map<u64, (Seq<char>, Seq<char>)>,
}

/// How a turn ends.
#[derive(Clone, Copy, Debug, PartialEq, Eq, Structural)]
pub enum Ending {
    /// Carry the tool calls out.
    Calls,
    /// Carry the calls in the text out.
    Text,
    /// The reply was spoken: close it.
    Close,
    /// There was no reply: make the second attempt.
    TryAgain,
}

impl TurnView {
    pub open spec fn new() -> TurnView {
        TurnView {
            full: Seq::empty(),
            fed: Seq::empty(),
            suppressed: false,
            calls: Map::empty(),
        }
    }

    /// Only a beginning of the text is ever handed on.
    pub open spec fn wf(self) -> bool {
        self.fed.len() <= self.full.len() && self.full.take(self.fed.len() as int) == self.fed
            && (!self.suppressed && self.calls.dom().is_empty() ==> self.fed == self.full)
    }

    /// Whether a sentence was spoken.
    pub open spec fn speaking(self) -> bool {
        sentences(self.fed).len() > 0
    }

    /// The tool calls after a delta.
    pub open spec fn calls_after(self, delta: JsonTree) -> Map<u64, (Seq<char>, Seq<char>)> {
        match items_of(member(delta, "tool_calls"@)) {
            Some(fragments) => after_fragments(self.calls, fragments),
            None => self.calls,
        }
    }

    /// The turn after a delta. Text is spoken as it streams in, but not once it looks
    /// like a call, nor while a tool call is forming.
    pub open spec fn after(self, delta: JsonTree) -> TurnView {
        let calls = self.calls_after(delta);
        match delta_text(delta) {
            Some(c) => {
                let full = self.full + c;
                let suppressed = self.suppressed || inline_tool(full);
                let fed = if !suppressed && calls.dom().is_empty() {
                    self.fed + c
                } else {
                    self.fed
                };
                TurnView { full, fed, suppressed, calls }
            },
            None => TurnView { calls, ..self },
        }
    }

    /// How the turn ends.
    pub open spec fn ending(self, failed: bool) -> Ending {
        if failed {
            if self.speaking() || trimmed(self.full).len() > 0 {
                Ending::Close
            } else {
                Ending::TryAgain
            }
        } else if !self.calls.dom().is_empty() {
            Ending::Calls
        } else if trimmed(self.full).len() == 0 {
            Ending::TryAgain
        } else if self.suppressed {
            Ending::Text
        } else {
            Ending::Close
        }
    }

    /// The last words, where any are left to be spoken.
    pub open spec fn last_sentence(self) -> Seq<EffectView> {
        match last_words(remainder(self.fed)) {
            Some(rest) => seq![EffectView::Sentence(rest)],
            None => Seq::empty(),
        }
    }

    /// The end of a reply that was spoken: its last words, the end of the session, and
    /// the reply goes into the history.
    pub open spec fn close(self, failed: bool) -> Seq<EffectView> {
        let heard = self.last_sentence();
        let end = if self.speaking() || heard.len() > 0 {
            EffectView::EndSession
        } else {
            EffectView::SpeakingDone
        };
        heard + seq![
            end,
            EffectView::Remember(
                if failed {
                    self.full
                } else {
                    trimmed(self.full)
                },
            ),
        ]
    }

    /// The end of a reply with tool calls, once they were tried. Where some of it was
    /// spoken already, only a failure is news.
    pub open spec fn close_calls(
        self,
        calls: Seq<(Seq<char>, JsonTree)>,
        lines: Seq<Option<Seq<char>>>,
    ) -> Seq<EffectView> {
        if self.speaking() {
            let failed = first_filled(failures(lines));
            let news = if failed.len() == 0 {
                Seq::empty()
            } else {
                seq![EffectView::Sentence(failed)]
            };
            self.last_sentence() + news + seq![
                EffectView::EndSession,
                EffectView::Remember(self.full),
            ]
        } else {
            let voice = voice_line(calls, lines);
            seq![EffectView::Remember(voice), voice_effect(voice)]
        }
    }

    /// What is done before calls in the text are tried: what was spoken of it so far
    /// is closed.
    pub open spec fn before_text(self) -> Seq<EffectView> {
        if self.speaking() {
            seq![EffectView::EndSession]
        } else {
            Seq::empty()
        }
    }
}

/// A turn while the reply streams in.
pub struct Turn {
    full: String,
    buf: SentenceBuffer,
    speaking: bool,
    suppressed: bool,
    calls: ToolCalls,
    fed: Ghost<Seq<char>>,
}

impl View for Turn {
    type V = TurnView;

    closed spec fn view(&self) -> TurnView {
        TurnView {
            full: self.full@,
            fed: self.fed@,
            suppressed: self.suppressed,
            calls: self.calls@,
        }
    }
}

impl Turn {
    pub closed spec fn wf(self) -> bool {
        &&& self@.wf()
        &&& self.buf@ == remainder(self.fed@)
        &&& self.speaking == (sentences(self.fed@).len() > 0)
    }

    pub fn new() -> (r: Self)
        ensures
            r.wf(),
            r@ == TurnView::new(),
    {
        let r = Turn {
            full: String::new(),
            buf: SentenceBuffer::new(),
            speaking: false,
            suppressed: false,
            calls: ToolCalls::new(),
            fed: Ghost(Seq::empty()),
        };
        assert(r@ =~= TurnView::new());
        assert(r@.full.take(0) =~= r@.fed);
        r
    }

    /// Takes a delta in, and hands out the sentences that are spoken now.
    pub fn on_delta(&mut self, delta: &Json) -> (r: Vec<String>)
        requires
            old(self).wf(),
        ensures
            final(self).wf(),
            final(self)@ == old(self)@.after(delta@),
            sentences(final(self)@.fed) == sentences(old(self)@.fed) + r.deep_view(),
    {
        let ghost before = self@;
        if let Some(t) = delta.get("tool_calls") {
            if let Some(fragments) = t.as_list() {
                self.calls.on_fragments(fragments);
            }
        }
        proof {
            lemma_calls_stay(before, delta@);
        }
        let none: Vec<String> = Vec::new();
        assert(sentences(before.fed) + none.deep_view() =~= sentences(before.fed));
        match delta.text("content") {
            None => {
                assert(self@ =~= before.after(delta@));
                none
            },
            Some(c) => {
                self.full.append(c.as_str());
                if !self.suppressed && looks_like_inline_tool(self.full.as_str()) {
                    self.suppressed = true;
                }
                if !self.suppressed && self.calls.is_empty() {
                    proof {
                        law_deltas_do_not_matter(before.fed, c@);
                    }
                    let out = self.buf.push(c.as_str());
                    if out.len() > 0 {
                        self.speaking = true;
                    }
                    self.fed = Ghost(before.fed + c@);
                    assert(out.deep_view().len() == out@.len());
                    assert(self@ =~= before.after(delta@));
                    assert(self@.full.take(self@.fed.len() as int) =~= self@.fed);
                    out
                } else {
                    assert(self@ =~= before.after(delta@));
                    assert(self@.full.take(self@.fed.len() as int) =~= before.full.take(
                        before.fed.len() as int,
                    ));
                    none
                }
            },
        }
    }

    /// Tells how the turn ends.
    pub fn ending(&self, failed: bool) -> (r: Ending)
        requires
            self.wf(),
        ensures
            r == self@.ending(failed),
    {
        let silent = trim(self.full.as_str()).as_str().is_empty();
        if failed {
            if self.speaking || !silent {
                Ending::Close
            } else {
                Ending::TryAgain
            }
        } else if !self.calls.is_empty() {
            Ending::Calls
        } else if silent {
            Ending::TryAgain
        } else if self.suppressed {
            Ending::Text
        } else {
            Ending::Close
        }
    }

    /// The tool calls, in order.
    pub fn tool_calls(&self) -> (r: Vec<ToolCall>)
        ensures
            calls_view(r@) == native_calls(self@.calls),
    {
        self.calls.calls()
    }

    /// The text of the reply.
    pub fn text(&self) -> (r: String)
        ensures
            r@ == trimmed(self@.full),
    {
        trim(self.full.as_str())
    }

    /// Closes a reply that was spoken.
    pub fn close(self, failed: bool) -> (r: Vec<Effect>)
        requires
            self.wf(),
        ensures
            effects_view(r@) == self@.close(failed),
    {
        let mut out = no_effects();
        let mut buf = self.buf;
        let mut speaking = self.speaking;
        if let Some(rest) = buf.flush() {
            add_effect(&mut out, Effect::Sentence(rest));
            speaking = true;
        }
        assert(effects_view(out@) =~= self@.last_sentence());
        if speaking {
            add_effect(&mut out, Effect::EndSession);
        } else {
            add_effect(&mut out, Effect::SpeakingDone);
        }
        let text = if failed {
            self.full
        } else {
            trim(self.full.as_str())
        };
        add_effect(&mut out, Effect::Remember(text));
        assert(effects_view(out@) =~= self@.close(failed));
        out
    }

    /// Closes a reply with tool calls, once they were tried.
    pub fn close_calls(self, calls: &Vec<ToolCall>, lines: &Vec<Option<String>>) -> (r: Vec<Effect>)
        requires
            self.wf(),
        ensures
            effects_view(r@) == self@.close_calls(calls_view(calls@), lines.deep_view()),
    {
        let mut out = no_effects();
        if self.speaking {
            let mut buf = self.buf;
            if let Some(rest) = buf.flush() {
                add_effect(&mut out, Effect::Sentence(rest));
            }
            assert(effects_view(out@) =~= self@.last_sentence());
            let failed = failure_line(lines);
            if !failed.as_str().is_empty() {
                add_effect(&mut out, Effect::Sentence(failed));
            }
            add_effect(&mut out, Effect::EndSession);
            add_effect(&mut out, Effect::Remember(self.full));
        } else {
            let voice = choose_voice(calls, lines);
            add_effect(&mut out, Effect::Remember(voice.clone()));
            add_effect(&mut out, speak_voice(voice));
        }
        assert(effects_view(out@) =~= self@.close_calls(calls_view(calls@), lines.deep_view()));
        out
    }

    /// Closes what was spoken so far of a reply with calls in its text.
    pub fn before_text(&self) -> (r: Vec<Effect>)
        requires
            self.wf(),
        ensures
            effects_view(r@) == self@.before_text(),
    {
        let mut out = no_effects();
        if self.speaking {
            add_effect(&mut out, Effect::EndSession);
        }
        assert(effects_view(out@) =~= self@.before_text());
        out
    }
}

/// What is done once the calls in the text of a reply were tried: the line that is
/// spoken goes into the history.
pub open spec fn text_effects(
    calls: Seq<(Seq<char>, JsonTree)>,
    lines: Seq<Option<Seq<char>>>,
) -> Seq<EffectView> {
    let voice = voice_line(calls, lines);
    seq![EffectView::Remember(voice), voice_effect(voice)]
}

/// Closes a reply with calls in its text, once they were tried.
pub fn close_text(calls: &Vec<ToolCall>, lines: &Vec<Option<String>>) -> (r: Vec<Effect>)
    ensures
        effects_view(r@) == text_effects(calls_view(calls@), lines.deep_view()),
{
    let voice = choose_voice(calls, lines);
    let mut out = no_effects();
    add_effect(&mut out, Effect::Remember(voice.clone()));
    add_effect(&mut out, speak_voice(voice));
    assert(effects_view(out@) =~= text_effects(calls_view(calls@), lines.deep_view()));
    out
}

// ── The second attempt ───────────────────────────────────────────────────────

/// The text of the second reply.
pub open spec fn second_text(reply: JsonTree) -> Seq<char> {
    match reply_text(reply) {
        Some(t) => trimmed(t),
        None => Seq::empty(),
    }
}

/// Takes the text out of the second reply.
pub fn second_reply(reply: &Json) -> (r: String)
    ensures
        r@ == second_text(reply@),
{
    match message_text(reply) {
        Some(t) => trim(t.as_str()),
        None => String::new(),
    }
}

/// What is done after the second attempt: the reply goes into the history as it came,
/// and once its actions were tried, their line is spoken. Without a reply the turn is
/// over.
pub open spec fn second_effects(
    raw: Option<Seq<char>>,
    calls: Seq<(Seq<char>, JsonTree)>,
    lines: Seq<Option<Seq<char>>>,
) -> Seq<EffectView> {
    match raw {
        Some(text) => seq![EffectView::Remember(text), voice_effect(voice_line(calls, lines))],
        None => seq![EffectView::SpeakingDone],
    }
}

/// Closes the second attempt.
pub fn close_second(
    raw: Option<String>,
    calls: &Vec<ToolCall>,
    lines: &Vec<Option<String>>,
) -> (r: Vec<Effect>)
    ensures
        effects_view(r@) == second_effects(
            raw.deep_view(),
            calls_view(calls@),
            lines.deep_view(),
        ),
{
    let mut out = no_effects();
    match raw {
        Some(text) => {
            add_effect(&mut out, Effect::Remember(text));
            add_effect(&mut out, speak_voice(choose_voice(calls, lines)));
        },
        None => {
            add_effect(&mut out, Effect::SpeakingDone);
        },
    }
    assert(effects_view(out@) =~= second_effects(
        raw.deep_view(),
        calls_view(calls@),
        lines.deep_view(),
    ));
    out
}

// ── Laws ─────────────────────────────────────────────────────────────────────

/// Tool calls never go away again.
proof fn lemma_fragments_stay(m: Map<u64, (Seq<char>, Seq<char>)>, fragments: Seq<JsonTree>)
    ensures
        m.dom().subset_of(after_fragments(m, fragments).dom()),
    decreases fragments.len(),
{
    if fragments.len() > 0 {
        lemma_fragments_stay(m, fragments.drop_last());
    }
}

proof fn lemma_calls_stay(v: TurnView, delta: JsonTree)
    ensures
        v.calls.dom().subset_of(v.calls_after(delta).dom()),
        v.calls_after(delta).dom().is_empty() ==> v.calls.dom().is_empty(),
{
    if let Some(fragments) = items_of(member(delta, "tool_calls"@)) {
        lemma_fragments_stay(v.calls, fragments);
    }
    if v.calls_after(delta).dom().is_empty() {
        assert(v.calls.dom() =~= Set::empty());
    }
}

/// All that is done at the end of a turn: `lines` tell how the calls in the reply
/// went, `second` is the second reply with its calls, and `second_lines` tell how
/// these went.
pub open spec fn turn_effects(
    v: TurnView,
    failed: bool,
    lines: Seq<Option<Seq<char>>>,
    second: Option<Seq<char>>,
    second_lines: Seq<Option<Seq<char>>>,
) -> Seq<EffectView> {
    match v.ending(failed) {
        Ending::Calls => v.close_calls(native_calls(v.calls), lines),
        Ending::Text => v.before_text() + text_effects(calls_in_text(trimmed(v.full)), lines),
        Ending::Close => v.close(failed),
        Ending::TryAgain => second_effects(
            second,
            match second {
                Some(raw) => calls_in_reply(raw),
                None => Seq::empty(),
            },
            second_lines,
        ),
    }
}

/// Every turn ends in a speaking-done, reported at once or by the speech session,
/// whatever the model replies and however its calls go.
pub proof fn law_every_turn_ends_in_speaking_done(
    v: TurnView,
    failed: bool,
    lines: Seq<Option<Seq<char>>>,
    second: Option<Seq<char>>,
    second_lines: Seq<Option<Seq<char>>>,
)
    ensures
        settles(turn_effects(v, failed, lines, second, second_lines)),
{
    reveal_with_fuel(settles, 3);
    let all = turn_effects(v, failed, lines, second, second_lines);
    match v.ending(failed) {
        Ending::Calls => {
            if v.speaking() {
                assert(all.last() == EffectView::Remember(v.full));
                assert(all.drop_last().last() == EffectView::EndSession);
            }
        },
        Ending::Close => {
            assert(all.last() is Remember);
            assert(all.drop_last().last() is EndSession || all.drop_last().last() is SpeakingDone);
        },
        _ => {},
    }
}

/// The second attempt is made only where nothing was spoken, so it never speaks a
/// second reply on top of the first.
pub proof fn law_the_second_attempt_follows_silence(v: TurnView, failed: bool)
    requires
        v.wf(),
        v.ending(failed) == Ending::TryAgain,
    ensures
        !v.speaking(),
{
    let more = v.full.skip(v.fed.len() as int);
    assert(v.fed + more =~= v.full);
    if trimmed(v.full).len() == 0 {
        law_blank_text_is_silent(v.fed, more);
    }
}

/// A stream without data leads to the second attempt.
pub proof fn law_no_data_leads_to_the_second_attempt(failed: bool)
    ensures
        TurnView::new().wf(),
        TurnView::new().ending(failed) == Ending::TryAgain,
{
    let v = TurnView::new();
    assert(v.full.take(0) =~= v.fed);
}

/// Once the text looks like a call, or a tool call is forming, nothing more of the
/// reply is handed on to be spoken, whatever follows.
pub proof fn law_calls_are_not_spoken(v: TurnView, delta: JsonTree)
    requires
        v.suppressed || !v.calls.dom().is_empty(),
    ensures
        v.after(delta).fed == v.fed,
        v.after(delta).suppressed || !v.after(delta).calls.dom().is_empty(),
{
    lemma_calls_stay(v, delta);
}

/// Every turn keeps what it holds of its text: what was handed on to be spoken is a
/// beginning of it.
pub proof fn law_turns_stay_well_formed(v: TurnView, delta: JsonTree)
    requires
        v.wf(),
    ensures
        v.after(delta).wf(),
{
    lemma_calls_stay(v, delta);
    let w = v.after(delta);
    if let Some(c) = delta_text(delta) {
        assert(w.full.take(v.fed.len() as int) =~= v.full.take(v.fed.len() as int));
        if !w.suppressed && w.calls.dom().is_empty() {
            assert(w.full.take(w.fed.len() as int) =~= w.fed);
        }
    }
}

/// A reply in prose is spoken in full, sentence by sentence, and nothing else is.
pub proof fn law_prose_is_spoken_in_full(v: TurnView)
    requires
        v.wf(),
        v.ending(false) == Ending::Close,
    ensures
        spoken(v.full) == sentences(v.fed) + (match last_words(remainder(v.fed)) {
            Some(rest) => seq![rest],
            None => Seq::empty(),
        }),
{
    match last_words(remainder(v.fed)) {
        Some(rest) => {
            assert(sentences(v.fed).push(rest) =~= sentences(v.fed) + seq![rest]);
        },
        None => {
            assert(sentences(v.fed) + Seq::<Seq<char>>::empty() =~= sentences(v.fed));
        },
    }
}

/// A delta adds its text to the reply and its fragments to the tool calls, and nothing else.
/// The text is handed on to be spoken where no call is forming and the reply, with it, does
/// not look like one.
pub proof fn law_a_delta_adds_its_text(
    v: TurnView,
    delta: JsonTree,
    text: Seq<char>,
    fragments: Seq<JsonTree>,
)
    ensures
        member(delta, "tool_calls"@) == Some(JsonTree::List(fragments)) ==> v.after(delta).calls
            == after_fragments(v.calls, fragments),
        !(member(delta, "tool_calls"@) matches Some(JsonTree::List(_))) ==> v.after(delta).calls
            == v.calls,
        member(delta, "content"@) == Some(JsonTree::Text(text)) ==> {
            &&& v.after(delta).full == v.full + text
            &&& v.after(delta).suppressed == (v.suppressed || inline_tool(v.full + text))
            &&& v.after(delta).suppressed || !v.after(delta).calls.dom().is_empty() ==> v.after(
                delta,
            ).fed == v.fed
            &&& !v.after(delta).suppressed && v.after(delta).calls.dom().is_empty() ==> v.after(
                delta,
            ).fed == v.fed + text
        },
        !(member(delta, "content"@) matches Some(JsonTree::Text(_))) ==> v.after(delta).full
            == v.full && v.after(delta).fed == v.fed && v.after(delta).suppressed == v.suppressed,
{
}

/// A turn after deltas, one after the other.
pub open spec fn after_all(v: TurnView, deltas: Seq<JsonTree>) -> TurnView
    decreases deltas.len(),
{
    if deltas.len() == 0 {
        v
    } else {
        after_all(v, deltas.drop_last()).after(deltas.last())
    }
}

/// The texts of deltas, one behind the other.
pub open spec fn texts_of(deltas: Seq<JsonTree>) -> Seq<char>
    decreases deltas.len(),
{
    if deltas.len() == 0 {
        Seq::empty()
    } else {
        texts_of(deltas.drop_last()) + (match member(deltas.last(), "content"@) {
            Some(JsonTree::Text(c)) => c,
            _ => Seq::empty(),
        })
    }
}

/// The fragments of tool calls in deltas, one behind the other.
pub open spec fn fragments_of(deltas: Seq<JsonTree>) -> Seq<JsonTree>
    decreases deltas.len(),
{
    if deltas.len() == 0 {
        Seq::empty()
    } else {
        fragments_of(deltas.drop_last()) + (match member(deltas.last(), "tool_calls"@) {
            Some(JsonTree::List(f)) => f,
            _ => Seq::empty(),
        })
    }
}

proof fn lemma_fragments_concat(
    m: Map<u64, (Seq<char>, Seq<char>)>,
    a: Seq<JsonTree>,
    b: Seq<JsonTree>,
)
    ensures
        after_fragments(m, a + b) == after_fragments(after_fragments(m, a), b),
    decreases b.len(),
{
    if b.len() == 0 {
        assert(a + b =~= a);
    } else {
        lemma_fragments_concat(m, a, b.drop_last());
        assert((a + b).drop_last() =~= a + b.drop_last());
    }
}

/// Nothing of a stream is lost, however it is cut into deltas: the reply is all of their
/// texts, and the tool calls are put together from all of their fragments.
pub proof fn law_the_whole_stream_is_taken_in(deltas: Seq<JsonTree>)
    ensures
        after_all(TurnView::new(), deltas).full == texts_of(deltas),
        after_all(TurnView::new(), deltas).calls == after_fragments(
            Map::empty(),
            fragments_of(deltas),
        ),
    decreases deltas.len(),
{
    if deltas.len() > 0 {
        let before = deltas.drop_last();
        law_the_whole_stream_is_taken_in(before);
        let f = match member(deltas.last(), "tool_calls"@) {
            Some(JsonTree::List(f)) => f,
            _ => Seq::empty(),
        };
        lemma_fragments_concat(Map::empty(), fragments_of(before), f);
        assert(texts_of(before) + Seq::<char>::empty() =~= texts_of(before));
    }
}

/// How a turn ends goes by what came: with tool calls they are carried out; a blank reply
/// without any leads to the second attempt; a reply that looks like a call is read as one;
/// and any other was spoken. A stream that failed leads to the second attempt only where
/// nothing came of it.
pub proof fn law_how_a_turn_ends(v: TurnView)
    ensures
        !v.calls.dom().is_empty() ==> v.ending(false) == Ending::Calls,
        v.calls.dom().is_empty() && is_blank(v.full) ==> v.ending(false) == Ending::TryAgain,
        v.calls.dom().is_empty() && !is_blank(v.full) && v.suppressed ==> v.ending(false)
            == Ending::Text,
        v.calls.dom().is_empty() && !is_blank(v.full) && !v.suppressed ==> v.ending(false)
            == Ending::Close,
        sentences(v.fed).len() > 0 || !is_blank(v.full) ==> v.ending(true) == Ending::Close,
        sentences(v.fed).len() == 0 && is_blank(v.full) ==> v.ending(true) == Ending::TryAgain,
{
    law_only_blank_texts_trim_to_nothing(v.full);
}

/// What effects have said, in order.
pub open spec fn heard(effects: Seq<EffectView>) -> Seq<Seq<char>>
    decreases effects.len(),
{
    if effects.len() == 0 {
        Seq::empty()
    } else {
        let before = heard(effects.drop_last());
        match effects.last() {
            EffectView::Sentence(s) => before.push(s),
            EffectView::Speak(s) => before.push(s),
            _ => before,
        }
    }
}

/// What effects add to the history, in order.
pub open spec fn remembered(effects: Seq<EffectView>) -> Seq<Seq<char>>
    decreases effects.len(),
{
    if effects.len() == 0 {
        Seq::empty()
    } else {
        let before = remembered(effects.drop_last());
        match effects.last() {
            EffectView::Remember(s) => before.push(s),
            _ => before,
        }
    }
}

proof fn lemma_effects_push(effects: Seq<EffectView>, e: EffectView)
    ensures
        heard(effects.push(e)) == (match e {
            EffectView::Sentence(s) => heard(effects).push(s),
            EffectView::Speak(s) => heard(effects).push(s),
            _ => heard(effects),
        }),
        remembered(effects.push(e)) == (match e {
            EffectView::Remember(s) => remembered(effects).push(s),
            _ => remembered(effects),
        }),
{
    assert(effects.push(e).drop_last() =~= effects);
}

proof fn lemma_last_sentence(v: TurnView)
    ensures
        heard(v.last_sentence()) == (match last_words(remainder(v.fed)) {
            Some(rest) => seq![rest],
            None => Seq::empty(),
        }),
        remembered(v.last_sentence()).len() == 0,
{
    let none = Seq::<EffectView>::empty();
    if let Some(rest) = last_words(remainder(v.fed)) {
        lemma_effects_push(none, EffectView::Sentence(rest));
        assert(none.push(EffectView::Sentence(rest)) =~= v.last_sentence());
        assert(heard(none).push(rest) =~= seq![rest]);
    }
}

/// A reply in prose is heard in full: the sentences that were handed out while it streamed
/// in, followed by what is said when it is closed, are all that is to be spoken of it; and
/// it goes into the history, once and as it came but for white space around it.
pub proof fn law_prose_is_heard_and_remembered(v: TurnView)
    requires
        v.wf(),
        v.ending(false) == Ending::Close,
    ensures
        sentences(v.fed) + heard(v.close(false)) == spoken(v.full),
        remembered(v.close(false)) == seq![trimmed(v.full)],
        remembered(v.close(true)) == seq![v.full],
        heard(v.close(true)) == heard(v.close(false)),
{
    law_prose_is_spoken_in_full(v);
    lemma_last_sentence(v);
    lemma_close(v, false);
    lemma_close(v, true);
}

proof fn lemma_close(v: TurnView, failed: bool)
    ensures
        heard(v.close(failed)) == heard(v.last_sentence()),
        remembered(v.close(failed)) == seq![
            if failed {
                v.full
            } else {
                trimmed(v.full)
            },
        ],
{
    lemma_last_sentence(v);
    let l = v.last_sentence();
    let end = if v.speaking() || l.len() > 0 {
        EffectView::EndSession
    } else {
        EffectView::SpeakingDone
    };
    let text = if failed {
        v.full
    } else {
        trimmed(v.full)
    };
    lemma_effects_push(l, end);
    lemma_effects_push(l.push(end), EffectView::Remember(text));
    assert(l.push(end).push(EffectView::Remember(text)) =~= v.close(failed));
    assert(remembered(l).push(text) =~= seq![text]);
}

/// A speech session is ended exactly where one was opened: once a sentence was handed on.
pub proof fn law_an_open_session_is_ended(v: TurnView, failed: bool)
    ensures
        v.close(failed).contains(EffectView::EndSession) <==> sentences(v.fed).len() > 0
            || last_words(remainder(v.fed)) is Some,
        v.close(failed).contains(EffectView::SpeakingDone) <==> !(sentences(v.fed).len() > 0
            || last_words(remainder(v.fed)) is Some),
        v.before_text().contains(EffectView::EndSession) <==> sentences(v.fed).len() > 0,
{
    let l = v.last_sentence();
    let all = v.close(failed);
    assert(all[l.len() as int] is EndSession || all[l.len() as int] is SpeakingDone);
    assert(all.contains(all[l.len() as int]));
    if sentences(v.fed).len() > 0 {
        assert(v.before_text()[0] == EffectView::EndSession);
    }
}

/// A call that failed is told at the end of the turn, and is the last that is said in it,
/// whether some of the reply was spoken already or not.
pub proof fn law_a_failed_call_is_told_last(
    v: TurnView,
    calls: Seq<(Seq<char>, JsonTree)>,
    lines: Seq<Option<Seq<char>>>,
    k: int,
    line: Seq<char>,
)
    requires
        line.len() > 0,
        0 <= k < lines.len(),
        lines[k] == Some(line),
        forall|j: int| 0 <= j < k ==> (#[trigger] lines[j] is None || lines[j]->0.len() == 0),
    ensures
        heard(v.close_calls(calls, lines)).len() > 0,
        heard(v.close_calls(calls, lines)).last() == line,
        heard(text_effects(calls, lines)) == seq![line],
        remembered(text_effects(calls, lines)) == seq![line],
        heard(second_effects(Some(v.full), calls, lines)) == seq![line],
{
    law_the_first_line_is_spoken(calls, lines, k, line);
    law_the_first_line_is_spoken(Seq::empty(), lines, k, line);
    assert(first_filled(failures(lines)) == line) by {
        if first_filled(failures(lines)).len() == 0 {
            assert(voice_line(Seq::empty(), lines).len() == 0);
        }
    }
    lemma_spoken_line(line, line);
    lemma_spoken_line(v.full, line);
    lemma_last_sentence(v);
    if v.speaking() {
        let l = v.last_sentence();
        lemma_effects_push(l, EffectView::Sentence(line));
        let a = l.push(EffectView::Sentence(line));
        lemma_effects_push(a, EffectView::EndSession);
        lemma_effects_push(a.push(EffectView::EndSession), EffectView::Remember(v.full));
        assert(a.push(EffectView::EndSession).push(EffectView::Remember(v.full)) =~= v.close_calls(
            calls,
            lines,
        ));
    }
}

proof fn lemma_spoken_line(text: Seq<char>, voice: Seq<char>)
    ensures
        heard(seq![EffectView::Remember(text), voice_effect(voice)]) == (if voice.len() > 0 {
            seq![voice]
        } else {
            Seq::empty()
        }),
        remembered(seq![EffectView::Remember(text), voice_effect(voice)]) == seq![text],
{
    let none = Seq::<EffectView>::empty();
    lemma_effects_push(none, EffectView::Remember(text));
    let a = none.push(EffectView::Remember(text));
    lemma_effects_push(a, voice_effect(voice));
    assert(a.push(voice_effect(voice)) =~= seq![
        EffectView::Remember(text),
        voice_effect(voice),
    ]);
    assert(remembered(none).push(text) =~= seq![text]);
    assert(heard(none).push(voice) =~= seq![voice]);
}

/// Where no call failed and nothing of the reply was spoken, what the model wants said with
/// its first call is said and remembered; where some of the reply was spoken, only its last
/// words are said, and the reply is remembered.
pub proof fn law_successful_calls_are_confirmed(
    v: TurnView,
    calls: Seq<(Seq<char>, JsonTree)>,
    lines: Seq<Option<Seq<char>>>,
    k: int,
    line: Seq<char>,
)
    requires
        line.len() > 0,
        0 <= k < calls.len(),
        member(calls[k].1, "text"@) == Some(JsonTree::Text(line)),
        forall|j: int|
            0 <= j < k ==> !(member((#[trigger] calls[j]).1, "text"@) matches Some(
                JsonTree::Text(t),
            ) && t.len() > 0),
        forall|j: int|
            0 <= j < lines.len() ==> (#[trigger] lines[j] is None || lines[j]->0.len() == 0),
    ensures
        sentences(v.fed).len() == 0 ==> heard(v.close_calls(calls, lines)) == seq![line]
            && remembered(v.close_calls(calls, lines)) == seq![line],
        sentences(v.fed).len() > 0 ==> heard(v.close_calls(calls, lines)) == (match last_words(
            remainder(v.fed),
        ) {
            Some(rest) => seq![rest],
            None => Seq::empty(),
        }) && remembered(v.close_calls(calls, lines)) == seq![v.full],
        heard(text_effects(calls, lines)) == seq![line],
        remembered(text_effects(calls, lines)) == seq![line],
        heard(second_effects(Some(v.full), calls, lines)) == seq![line],
        remembered(second_effects(Some(v.full), calls, lines)) == seq![v.full],
{
    law_the_first_line_is_spoken(calls, lines, k, line);
    law_the_first_line_is_spoken(Seq::empty(), lines, k, line);
    lemma_spoken_line(line, line);
    lemma_spoken_line(v.full, line);
    lemma_last_sentence(v);
    assert(first_filled(failures(lines)).len() == 0) by {
        assert(voice_line(Seq::empty(), lines).len() == 0);
    }
    if v.speaking() {
        let l = v.last_sentence();
        lemma_effects_push(l, EffectView::EndSession);
        lemma_effects_push(l.push(EffectView::EndSession), EffectView::Remember(v.full));
        assert(l.push(EffectView::EndSession).push(EffectView::Remember(v.full)) =~= v.close_calls(
            calls,
            lines,
        ));
        assert(remembered(l).push(v.full) =~= seq![v.full]);
    }
}

/// What the user said goes to the end of the history, and the history stays as it was before
/// it.
pub proof fn law_the_user_is_remembered(
    history: &mut Vec<Message>,
    transcript: &str,
    r: Turn,
    i: int,
)
    requires
        call_ensures(ask_ollama, (history, transcript), r),
    ensures
        final(history)@.len() == old(history)@.len() + 1,
        final(history)@.last().role is User,
        final(history)@.last().content@ == transcript@,
        0 <= i < old(history)@.len() ==> final(history)@[i].role == old(history)@[i].role
            && final(history)@[i].content@ == old(history)@[i].content@,
        r@.full.len() == 0,
        r@.fed.len() == 0,
        !r@.suppressed,
        r@.calls.dom().is_empty(),
{
    let a = messages_view(old(history)@);
    let b = messages_view(final(history)@);
    assert(b.len() == final(history)@.len());
    assert(a.len() == old(history)@.len());
    assert(b.last() == (Role::User, transcript@));
    assert(b[b.len() - 1] == (final(history)@.last().role, final(history)@.last().content@));
    if 0 <= i < a.len() {
        assert(b[i] == a[i]);
        assert(a[i] == (old(history)@[i].role, old(history)@[i].content@));
        assert(b[i] == (final(history)@[i].role, final(history)@[i].content@));
    }
}

/// The first request holds the model, the instructions, the whole history and the three tools,
/// and asks for a stream; the second holds the same without tools, and asks for the reply at
/// once.
pub proof fn law_requests_hold_the_conversation(
    model: &str,
    system: &str,
    history: &Vec<Message>,
    en: bool,
    agent: &str,
    first: Json,
    second: Json,
)
    requires
        call_ensures(first_request, (model, system, history, en, agent), first),
        call_ensures(second_request, (model, system, history), second),
    ensures
        member(first@, "model"@) == Some(JsonTree::Text(model@)),
        member(first@, "messages"@) == Some(conversation(system@, messages_view(history@))),
        member(first@, "tools"@) == Some(tools(en, agent@)),
        member(first@, "max_tokens"@) == Some(JsonTree::Int(300)),
        member(second@, "max_tokens"@) == Some(JsonTree::Int(300)),
        member(first@, "stream"@) == Some(JsonTree::Bool(true)),
        member(second@, "model"@) == Some(JsonTree::Text(model@)),
        member(second@, "messages"@) == Some(conversation(system@, messages_view(history@))),
        member(second@, "tools"@) is None,
        member(second@, "stream"@) == Some(JsonTree::Bool(false)),
{
    let c = conversation(system@, messages_view(history@));
    law_a_request_says_what_is_asked(model@, c, Some(tools(en, agent@)), 300, true);
    law_a_request_says_what_is_asked(model@, c, None, 300, false);
}

/// A delta that a turn takes in adds its text to the reply; where that is prose, it is handed
/// on, and the sentences that it completes are handed out.
pub proof fn law_a_turn_takes_its_deltas_in(
    turn: &mut Turn,
    delta: &Json,
    r: Vec<String>,
    text: Seq<char>,
)
    requires
        call_ensures(Turn::on_delta, (turn, delta), r),
        member(delta@, "content"@) == Some(JsonTree::Text(text)),
    ensures
        final(turn)@.full == old(turn)@.full + text,
        final(turn)@ == old(turn)@.after(delta@),
        sentences(final(turn)@.fed) == sentences(old(turn)@.fed) + r.deep_view(),
        !final(turn)@.suppressed && final(turn)@.calls.dom().is_empty() ==> final(turn)@.fed
            == old(turn)@.fed + text,
{
    law_a_delta_adds_its_text(old(turn)@, delta@, text, Seq::empty());
}

/// A turn that ends in prose says what is left of it and remembers all of it; how it ends is
/// what its text and its calls call for.
pub proof fn law_a_turn_in_prose_is_closed(turn: Turn, end: Ending, r: Vec<Effect>)
    requires
        turn@.wf(),
        call_ensures(Turn::ending, (&turn, false), end),
        end == Ending::Close,
        call_ensures(Turn::close, (turn, false), r),
    ensures
        sentences(turn@.fed) + heard(effects_view(r@)) == spoken(turn@.full),
        remembered(effects_view(r@)) == seq![trimmed(turn@.full)],
        turn@.calls.dom().is_empty(),
        !is_blank(turn@.full),
        !turn@.suppressed,
{
    law_how_a_turn_ends(turn@);
    law_prose_is_heard_and_remembered(turn@);
}

/// The calls that a turn hands out are those in its slots, and its text is the reply without
/// white space around it.
pub proof fn law_a_turn_hands_its_calls_out(turn: &Turn, r: Vec<ToolCall>, text: String)
    requires
        call_ensures(Turn::tool_calls, (turn,), r),
        call_ensures(Turn::text, (turn,), text),
    ensures
        calls_view(r@) == native_calls(turn@.calls),
        text@ == trimmed(turn@.full),
{
}

/// However a turn with calls ends, the first failure is the last that is said in it.
pub proof fn law_every_ending_tells_of_a_failure(
    turn: Turn,
    calls: &Vec<ToolCall>,
    lines: &Vec<Option<String>>,
    raw: String,
    a: Vec<Effect>,
    b: Vec<Effect>,
    c: Vec<Effect>,
    k: int,
)
    requires
        call_ensures(Turn::close_calls, (turn, calls, lines), a),
        call_ensures(close_text, (calls, lines), b),
        call_ensures(close_second, (Some(raw), calls, lines), c),
        0 <= k < lines@.len(),
        lines@[k] is Some,
        lines@[k]->0@.len() > 0,
        forall|j: int|
            0 <= j < k ==> (#[trigger] lines@[j] is None || lines@[j]->0@.len() == 0),
    ensures
        heard(effects_view(a@)).len() > 0,
        heard(effects_view(a@)).last() == lines@[k]->0@,
        heard(effects_view(b@)) == seq![lines@[k]->0@],
        heard(effects_view(c@)) == seq![lines@[k]->0@],
        remembered(effects_view(c@)) == seq![raw@],
{
    let all = lines.deep_view();
    let line = lines@[k]->0@;
    assert(all[k] == Some(line));
    assert forall|j: int| 0 <= j < k implies (#[trigger] all[j] is None || all[j]->0.len() == 0) by {
        assert(lines@[j] is None || lines@[j]->0@.len() == 0);
    }
    let v = calls_view(calls@);
    law_a_failed_call_is_told_last(turn@, v, all, k, line);
    law_the_first_line_is_spoken(v, all, k, line);
    lemma_spoken_line(raw@, line);
}

/// Without a second reply the turn is over: nothing is said, and a speaking-done is reported.
pub proof fn law_no_second_reply_ends_the_turn(
    calls: &Vec<ToolCall>,
    lines: &Vec<Option<String>>,
    r: Vec<Effect>,
    reply: &Json,
    text: String,
    said: Seq<char>,
)
    requires
        call_ensures(close_second, (None, calls, lines), r),
        call_ensures(second_reply, (reply,), text),
    ensures
        effects_view(r@) == seq![EffectView::SpeakingDone],
        reply_text(reply@) == Some(said) ==> text@ == trimmed(said),
        reply_text(reply@) is None ==> text@.len() == 0,
{
}

} // verus!
