//! Speech: what is handed to the voice engine, what comes back from it, and the
//! queued session that plays sentence after sentence.
use vstd::prelude::*;

use crate::json::pairs;
use crate::pattern::{
    all_replaced, all_replaced_literally, escape, escaped, replace_all, replace_all_literally,
    DOT_RUN,
};
use crate::sentences::{split_sentences, spoken};
use crate::settings::lang_config;
use crate::text::{
    begins, cat3, decimal, lemma_replaced_chars, lower, replace, replaced, same, starts_with,
    to_decimal, to_lowercase, trim, trimmed, Class,
};

verus! {

/// One unit of a queued speech session.
#[derive(Debug, PartialEq)]
pub enum SpeechItem {
    /// A sentence to synthesize and play, with the project that it is about.
    Sentence { text: String, workspace: Option<String> },
    /// No more sentences will come; the session ends once the queue has drained.
    End,
}

pub enum SpeechItemView {
    Sentence { text: Seq<char>, workspace: Option<Seq<char>> },
    End,
}

impl View for SpeechItem {
    type V = SpeechItemView;

    open spec fn view(&self) -> SpeechItemView {
        match self {
            SpeechItem::Sentence { text, workspace } => SpeechItemView::Sentence {
                text: text@,
                workspace: workspace.deep_view(),
            },
            SpeechItem::End => SpeechItemView::End,
        }
    }
}

/// What items say.
pub open spec fn items_view(items: Seq<SpeechItem>) -> Seq<SpeechItemView> {
    items.map_values(|i: SpeechItem| i@)
}

/// The items of a session that speaks a text: its sentences, then the end.
pub open spec fn text_items(text: Seq<char>) -> Seq<SpeechItemView> {
    spoken(text).map_values(
        |s: Seq<char>| SpeechItemView::Sentence { text: s, workspace: None },
    ).push(SpeechItemView::End)
}

/// Splits a complete text into the items of a session of its own.
pub fn speak(text: &str) -> (r: Vec<SpeechItem>)
    ensures
        items_view(r@) == text_items(text@),
{
    let said = split_sentences(text);
    let ghost wanted = text_items(text@);
    let ghost all = said@;
    let mut out: Vec<SpeechItem> = Vec::new();
    for s in it: said
        invariant
            it.seq() == all,
            wanted == text_items(text@),
            spoken(text@).len() == all.len(),
            forall|j: int| 0 <= j < all.len() ==> #[trigger] all[j]@ == spoken(text@)[j],
            out@.len() == it.index(),
            forall|j: int| 0 <= j < it.index() ==> #[trigger] out@[j]@ == wanted[j],
    {
        assert(all[it.index()] == s);
        out.push(SpeechItem::Sentence { text: s, workspace: None });
    }
    out.push(SpeechItem::End);
    assert(items_view(out@) =~= wanted);
    out
}

// ── Pronunciation ────────────────────────────────────────────────────────────

/// The expression for a whole word, in capitals or not: where the word begins or ends in a
/// letter, a digit or an underscore, no other stands next to it there. A sign at either end
/// may stand next to anything, so "C++" is found before a space, and "l'" before a letter.
pub open spec fn word_pattern(word: Seq<char>) -> Seq<char> {
    r"(?i)(?:\b|\b{start-half})"@ + escaped(word) + r"(?:\b|\b{end-half})"@
}

/// A text with one word respelled; unchanged where the word makes no expression.
pub open spec fn respelled_word(text: Seq<char>, word: Seq<char>, phonetic: Seq<char>) -> Seq<char> {
    match all_replaced_literally(word_pattern(word), text, phonetic) {
        Some(t) => t,
        None => text,
    }
}

/// A text with the words of the dictionary respelled, one after the other.
pub open spec fn respelled(text: Seq<char>, words: Seq<(Seq<char>, Seq<char>)>) -> Seq<char>
    decreases words.len(),
{
    if words.len() == 0 {
        text
    } else {
        respelled_word(
            respelled(text, words.drop_last()),
            words.last().0,
            words.last().1,
        )
    }
}

/// Rewrites tricky words with the user's respellings, whole words only and in
/// capitals or not. A respelling is inserted literally.
pub fn apply_pronunciations(text: &str, words: &Vec<(String, String)>) -> (r: String)
    ensures
        r@ == respelled(text@, pairs(words@)),
{
    let mut out = text.to_owned();
    for i in 0..words.len()
        invariant
            out@ == respelled(text@, pairs(words@).take(i as int)),
    {
        proof {
            let some = pairs(words@).take(i + 1);
            assert(some.drop_last() =~= pairs(words@).take(i as int));
            assert(some.last() == (words@[i as int].0@, words@[i as int].1@));
        }
        let pattern = cat3(
            r"(?i)(?:\b|\b{start-half})",
            escape(words[i].0.as_str()).as_str(),
            r"(?:\b|\b{end-half})",
        );
        match replace_all_literally(pattern.as_str(), out.as_str(), words[i].1.as_str()) {
            Some(t) => {
                out = t;
            },
            None => {},
        }
    }
    assert(pairs(words@).take(words@.len() as int) =~= pairs(words@));
    out
}

// ── The line protocol of the voice daemons ───────────────────────────────────

/// The name of the file for a synthesized sentence.
pub fn tts_file_name(now_ms: u128) -> (r: String)
    ensures
        r@ == "vox_tts_"@ + decimal(now_ms as nat) + ".wav"@,
{
    cat3("vox_tts_", to_decimal(now_ms).as_str(), ".wav")
}

/// A text on one line: line breaks become full stops, and runs of full stops
/// shrink to one.
pub open spec fn on_one_line(text: Seq<char>) -> Seq<char> {
    all_replaced(DOT_RUN@, replaced(text, Class::LineBreak, ". "@), "."@)
}

/// Whether a text holds a line break.
pub open spec fn has_line_break(s: Seq<char>) -> bool {
    exists|i: int| 0 <= i < s.len() && (#[trigger] s[i] == '\r' || s[i] == '\n')
}

/// Puts a text on one line.
pub fn flatten(text: &str) -> (r: String)
    ensures
        r@ == on_one_line(text@),
        !has_line_break(r@),
{
    let broken = replace(text, &Class::LineBreak, ". ");
    let r = replace_all(DOT_RUN, broken.as_str(), ".");
    proof {
        lemma_replaced_chars(text@, Class::LineBreak, ". "@);
        reveal_strlit(". ");
        reveal_strlit(".");
        assert(!". "@.contains('\r') && !". "@.contains('\n'));
        assert(!"."@.contains('\r') && !"."@.contains('\n'));
        assert forall|i: int| 0 <= i < r@.len() implies #[trigger] r@[i] != '\r' && r@[i] != '\n' by {
            assert(r@.contains(r@[i]));
        }
    }
    r
}

/// The request for a sentence: where to write it, a tab, the sentence. It is a
/// single line wherever the path is one, so the daemon never reads a sentence in
/// pieces.
pub fn tts_request(out: &str, text: &str) -> (r: String)
    ensures
        r@ == out@ + "\t"@ + on_one_line(text@),
        !has_line_break(out@) ==> !has_line_break(r@),
{
    let flat = flatten(text);
    let r = cat3(out, "\t", flat.as_str());
    proof {
        reveal_strlit("\t");
        if !has_line_break(out@) {
            assert forall|i: int| 0 <= i < r@.len() implies #[trigger] r@[i] != '\r' && r@[i]
                != '\n' by {
                if i < out@.len() {
                    assert(r@[i] == out@[i]);
                } else if i > out@.len() {
                    assert(r@[i] == flat@[i - out@.len() - 1]);
                }
            }
        }
    }
    r
}

/// Whether the daemon reports that it wrote a sentence.
pub fn tts_succeeded(response: &str) -> (r: bool)
    ensures
        r == begins(response@, "ok:"@),
{
    starts_with(response, "ok:")
}

/// The transcript in the reply of the transcription daemon: nothing of silence,
/// nor of an error.
pub open spec fn transcript_of(line: Seq<char>) -> Seq<char> {
    if line == "EMPTY"@ || begins(line, "ERROR:"@) {
        Seq::empty()
    } else {
        line
    }
}

/// What to do about a recording.
#[derive(Debug, PartialEq)]
pub enum Transcription {
    /// Here is what was said.
    Done(String),
    /// Ask the command-line tool.
    Run { program: String, args: Vec<String> },
    /// There is nothing to transcribe with.
    Unavailable,
}

/// The arguments of the transcription tool.
pub open spec fn whisper_args(wav: Seq<char>, lang: Seq<char>, out_dir: Seq<char>) -> Seq<Seq<char>> {
    seq![
        wav,
        "--model"@,
        "small"@,
        "--language"@,
        lang,
        "--output_format"@,
        "txt"@,
        "--output_dir"@,
        out_dir,
    ]
}

/// Decides how a recording is transcribed: the reply of the daemon is taken where
/// there is one, and else the command-line tool is run where it is installed.
pub fn transcribe(
    reply: Option<String>,
    whisper: Option<String>,
    wav: &str,
    language: &str,
    out_dir: &str,
) -> (r: Transcription)
    ensures
        match reply {
            Some(line) => r matches Transcription::Done(t) && t@ == transcript_of(line@),
            None => match whisper {
                Some(w) => r matches Transcription::Run { program, args } && program@ == w@
                    && args.deep_view() == whisper_args(
                    wav@,
                    if language@ == "en"@ {
                        "en"@
                    } else {
                        "fr"@
                    },
                    out_dir@,
                ),
                None => r is Unavailable,
            },
        },
{
    match reply {
        Some(line) => {
            if same(line.as_str(), "EMPTY") || starts_with(line.as_str(), "ERROR:") {
                Transcription::Done(String::new())
            } else {
                Transcription::Done(line)
            }
        },
        None => match whisper {
            None => Transcription::Unavailable,
            Some(program) => {
                let lang = lang_config(language).stt;
                let mut args: Vec<String> = Vec::new();
                args.push(wav.to_owned());
                args.push("--model".to_owned());
                args.push("small".to_owned());
                args.push("--language".to_owned());
                args.push(lang.to_owned());
                args.push("--output_format".to_owned());
                args.push("txt".to_owned());
                args.push("--output_dir".to_owned());
                args.push(out_dir.to_owned());
                assert(args.deep_view() =~= whisper_args(wav@, lang@, out_dir@));
                Transcription::Run { program, args }
            },
        },
    }
}

/// The transcript that the command-line tool left behind; nothing where it failed
/// or wrote nothing.
pub fn cli_transcript(success: bool, written: Option<String>) -> (r: String)
    ensures
        r@ == (match written {
            Some(t) if success => trimmed(t@),
            _ => Seq::empty(),
        }),
{
    if !success {
        return String::new();
    }
    match written {
        Some(t) => trim(t.as_str()),
        None => String::new(),
    }
}

// ── Engines and voices ───────────────────────────────────────────────────────

/// The speech engine: the one asked for in the environment, else that of the
/// language; in lower case.
pub fn speech_engine(env: Option<String>, language: &str) -> (r: String)
    ensures
        r@ == (match env {
            Some(e) => lower(e@),
            None => if language@ == "en"@ {
                lower("kokoro"@)
            } else {
                lower("piper"@)
            },
        }),
{
    match env {
        Some(e) => to_lowercase(e.as_str()),
        None => to_lowercase(lang_config(language).tts_engine),
    }
}

/// Whether an engine speaks through a daemon. Only `say` does not.
pub fn uses_daemon(engine: &str) -> (r: bool)
    ensures
        r == (engine@ != "say"@),
{
    !same(engine, "say")
}

/// The voice of the system command: the one asked for in the environment, else
/// that of the language.
pub fn say_voice(env: Option<String>, language: &str) -> (r: String)
    ensures
        r@ == (match env {
            Some(v) => v@,
            None => if language@ == "en"@ {
                "Samantha"@
            } else {
                "Thomas"@
            },
        }),
{
    match env {
        Some(v) => v,
        None => lang_config(language).say_voice.to_owned(),
    }
}

/// Whether a session goes on waiting for its daemon: for 80 polls at most, and
/// not once it is ready or the session is interrupted.
pub fn keep_waiting(polls: u32, interrupted: bool, ready: bool) -> (r: bool)
    ensures
        r == (polls < 80 && !interrupted && !ready),
{
    polls < 80 && !interrupted && !ready
}

// ── The session: synthesis ───────────────────────────────────────────────────

/// What the synthesis stage does with an item.
#[derive(Debug, PartialEq)]
pub enum SynthStep {
    Stop,
    Voice { text: String, workspace: Option<String> },
}

/// Takes an item from the queue: an interrupt or the end of the queue stops the
/// stage, a sentence is voiced.
pub fn synth_step(item: SpeechItem, interrupted: bool) -> (r: SynthStep)
    ensures
        match item {
            SpeechItem::Sentence { text, workspace } if !interrupted => r == (SynthStep::Voice {
                text,
                workspace,
            }),
            _ => r is Stop,
        },
{
    if interrupted {
        return SynthStep::Stop;
    }
    match item {
        SpeechItem::End => SynthStep::Stop,
        SpeechItem::Sentence { text, workspace } => SynthStep::Voice { text, workspace },
    }
}

/// One unit of playback.
#[derive(Debug, PartialEq)]
pub enum PlayMsg {
    /// A synthesized sentence.
    Wav { path: String, workspace: Option<String> },
    /// A sentence for the system command, which no daemon synthesized.
    Say { text: String },
    End,
}

/// What is played of a sentence: the file that the daemon wrote, and else the
/// text by the system command.
pub fn play_message(wav: Option<String>, spoken: String, workspace: Option<String>) -> (r: PlayMsg)
    ensures
        match wav {
            Some(path) => r == (PlayMsg::Wav { path, workspace }),
            None => r == (PlayMsg::Say { text: spoken }),
        },
{
    match wav {
        Some(path) => PlayMsg::Wav { path, workspace },
        None => PlayMsg::Say { text: spoken },
    }
}

// ── The session: playback ────────────────────────────────────────────────────

/// What the playback stage does with a message. `announce` asks for a
/// speaking-start first.
#[derive(Debug, PartialEq)]
pub enum PlayStep {
    /// End the session with a speaking-done.
    Finish,
    /// Delete a file that will not be played.
    Discard { path: String },
    /// Do nothing.
    Skip,
    /// Play a file, wait for it, and delete it.
    Play { announce: bool, path: String, workspace: Option<String> },
    /// Speak a text with the system command.
    Say { announce: bool, text: String },
}

/// The step for a message, in a session that made a sound before or not.
pub open spec fn play_step(started: bool, msg: PlayMsg, interrupted: bool) -> PlayStep {
    match msg {
        PlayMsg::End => PlayStep::Finish,
        PlayMsg::Wav { path, workspace } => if interrupted {
            PlayStep::Discard { path }
        } else {
            PlayStep::Play { announce: !started, path, workspace }
        },
        PlayMsg::Say { text } => if interrupted {
            PlayStep::Skip
        } else {
            PlayStep::Say { announce: !started, text }
        },
    }
}

/// Whether a step makes a sound.
pub open spec fn sounds(step: PlayStep) -> bool {
    step is Play || step is Say
}

/// The playback stage of a session.
pub struct Playback {
    started: bool,
}

impl Playback {
    /// Whether a sound was made.
    pub closed spec fn has_started(self) -> bool {
        self.started
    }

    pub fn new() -> (r: Self)
        ensures
            !r.has_started(),
    {
        Playback { started: false }
    }

    /// Takes a message from the queue.
    pub fn step(&mut self, msg: PlayMsg, interrupted: bool) -> (r: PlayStep)
        ensures
            r == play_step(old(self).has_started(), msg, interrupted),
            final(self).has_started() == (old(self).has_started() || sounds(r)),
    {
        match msg {
            PlayMsg::End => PlayStep::Finish,
            PlayMsg::Wav { path, workspace } => {
                if interrupted {
                    return PlayStep::Discard { path };
                }
                let announce = !self.started;
                self.started = true;
                PlayStep::Play { announce, path, workspace }
            },
            PlayMsg::Say { text } => {
                if interrupted {
                    return PlayStep::Skip;
                }
                let announce = !self.started;
                self.started = true;
                PlayStep::Say { announce, text }
            },
        }
    }
}

/// What the renderer hears of a session.
pub enum SessionEvent {
    SpeakingStart,
    Sound,
    SpeakingDone,
}

/// What the renderer hears of a step.
pub open spec fn step_events(step: PlayStep) -> Seq<SessionEvent> {
    match step {
        PlayStep::Play { announce, .. } => if announce {
            seq![SessionEvent::SpeakingStart, SessionEvent::Sound]
        } else {
            seq![SessionEvent::Sound]
        },
        PlayStep::Say { announce, .. } => if announce {
            seq![SessionEvent::SpeakingStart, SessionEvent::Sound]
        } else {
            seq![SessionEvent::Sound]
        },
        _ => Seq::empty(),
    }
}

/// What the renderer hears of a session that takes these messages, each together
/// with whether an interrupt had come by then. It ends at the end message, or
/// where the queue closes.
pub open spec fn session_events(started: bool, msgs: Seq<(PlayMsg, bool)>) -> Seq<SessionEvent>
    decreases msgs.len(),
{
    if msgs.len() == 0 {
        seq![SessionEvent::SpeakingDone]
    } else {
        let step = play_step(started, msgs[0].0, msgs[0].1);
        if step is Finish {
            seq![SessionEvent::SpeakingDone]
        } else {
            step_events(step) + session_events(started || sounds(step), msgs.skip(1))
        }
    }
}

/// How many messages before the end are played.
pub open spec fn played(msgs: Seq<(PlayMsg, bool)>) -> nat
    decreases msgs.len(),
{
    if msgs.len() == 0 || msgs[0].0 is End {
        0
    } else {
        (if msgs[0].1 {
            0nat
        } else {
            1nat
        }) + played(msgs.skip(1))
    }
}

/// `n` sounds, a speaking-start before the first unless there was one, and a
/// speaking-done after the last.
pub open spec fn well_framed(started: bool, n: nat) -> Seq<SessionEvent> {
    let sound = Seq::new(n, |i: int| SessionEvent::Sound);
    if n > 0 && !started {
        seq![SessionEvent::SpeakingStart] + sound + seq![SessionEvent::SpeakingDone]
    } else {
        sound + seq![SessionEvent::SpeakingDone]
    }
}

/// A session emits one speaking-start, right before its first sound, if it makes
/// any; one sound for each message that no interrupt preceded; and exactly one
/// speaking-done, at its end.
pub proof fn law_session_is_framed(started: bool, msgs: Seq<(PlayMsg, bool)>)
    ensures
        session_events(started, msgs) == well_framed(started, played(msgs)),
    decreases msgs.len(),
{
    if msgs.len() == 0 {
        assert(session_events(started, msgs) =~= well_framed(started, 0));
    } else {
        let step = play_step(started, msgs[0].0, msgs[0].1);
        if step is Finish {
            assert(session_events(started, msgs) =~= well_framed(started, 0));
        } else {
            law_session_is_framed(started || sounds(step), msgs.skip(1));
            assert(session_events(started, msgs) =~= well_framed(started, played(msgs)));
        }
    }
}

/// A session that is interrupted before its first message makes no sound.
pub proof fn law_interrupted_session_is_silent(msgs: Seq<(PlayMsg, bool)>)
    requires
        forall|i: int| 0 <= i < msgs.len() ==> (#[trigger] msgs[i]).1,
    ensures
        session_events(false, msgs) == seq![SessionEvent::SpeakingDone],
    decreases msgs.len(),
{
    if msgs.len() > 0 {
        assert(msgs[0].1);
        assert forall|i: int| 0 <= i < msgs.skip(1).len() implies (#[trigger] msgs.skip(1)[i]).1 by {
            assert(msgs[i + 1].1);
        }
        law_interrupted_session_is_silent(msgs.skip(1));
        assert(session_events(false, msgs) =~= seq![SessionEvent::SpeakingDone]);
    }
}

// ── Recordings ───────────────────────────────────────────────────────────────

/// The bytes that `base64` decodes from a text in the standard alphabet with
/// padding; nothing where it is not one.
pub uninterp spec fn base64_bytes(text: Seq<char>) -> Option<Seq<u8>>;

/// Wraps `Engine::decode` of `base64::engine::general_purpose::STANDARD`, whose
/// result is named by `base64_bytes`.
#[verifier::external_body]
fn decode_base64(text: &str) -> (r: Option<Vec<u8>>)
    ensures
        r.deep_view() == base64_bytes(text@),
{
    base64::Engine::decode(&base64::engine::general_purpose::STANDARD, text).ok()
}

/// The recording that the renderer sent.
pub fn voice_input(wav: &str) -> (r: Option<Vec<u8>>)
    ensures
        r.deep_view() == base64_bytes(wav@),
{
    decode_base64(wav)
}

/// The name of the file for a recording.
pub fn recording_name(now_ms: u128) -> (r: String)
    ensures
        r@ == "vox_"@ + decimal(now_ms as nat) + ".wav"@,
{
    cat3("vox_", to_decimal(now_ms).as_str(), ".wav")
}

/// What follows a recording.
#[derive(Debug, PartialEq)]
pub enum VoiceOutcome {
    /// There is nothing to answer: the renderer hears a speaking-done.
    SpeakingDone,
    /// This is to be shown and answered.
    Answer(String),
}

/// What follows a recording with this transcript; there is no transcript where it
/// could not be decoded or stored.
pub fn voice_outcome(transcript: Option<String>) -> (r: VoiceOutcome)
    ensures
        match transcript {
            Some(t) if t@.len() > 0 => r == VoiceOutcome::Answer(t),
            _ => r is SpeakingDone,
        },
{
    match transcript {
        Some(t) => if t.as_str().is_empty() {
            VoiceOutcome::SpeakingDone
        } else {
            VoiceOutcome::Answer(t)
        },
        None => VoiceOutcome::SpeakingDone,
    }
}

// ── Laws ─────────────────────────────────────────────────────────────────────

/// A text is spoken sentence by sentence, all of them in order and about no project, and then
/// its session ends.
pub proof fn law_a_text_is_spoken_sentence_by_sentence(text: Seq<char>, i: int)
    ensures
        text_items(text).len() == spoken(text).len() + 1,
        text_items(text).last() is End,
        0 <= i < spoken(text).len() ==> text_items(text)[i] == (SpeechItemView::Sentence {
            text: spoken(text)[i],
            workspace: None,
        }),
{
}

/// Words are respelled one after the other, in the order of the dictionary; a word that makes
/// no expression changes nothing, and nor does an empty dictionary.
pub proof fn law_words_are_respelled_in_order(
    text: Seq<char>,
    a: Seq<(Seq<char>, Seq<char>)>,
    b: Seq<(Seq<char>, Seq<char>)>,
    word: Seq<char>,
    phonetic: Seq<char>,
)
    ensures
        respelled(text, Seq::empty()) == text,
        respelled(text, a + b) == respelled(respelled(text, a), b),
        all_replaced_literally(word_pattern(word), text, phonetic) matches Some(t) ==> respelled(
            text,
            seq![(word, phonetic)],
        ) == t,
        all_replaced_literally(word_pattern(word), text, phonetic) is None ==> respelled(
            text,
            seq![(word, phonetic)],
        ) == text,
    decreases b.len(),
{
    reveal_with_fuel(respelled, 2);
    assert(seq![(word, phonetic)].drop_last() =~= Seq::empty());
    if b.len() == 0 {
        assert(a + b =~= a);
    } else {
        law_words_are_respelled_in_order(text, a, b.drop_last(), word, phonetic);
        assert((a + b).drop_last() =~= a + b.drop_last());
    }
}

/// What the transcription daemon heard is taken as it is, but for its reports on silence and
/// on errors, which are no words of the user.
pub proof fn law_what_was_heard_is_taken_as_it_is(line: Seq<char>)
    ensures
        line == "EMPTY"@ || begins(line, "ERROR:"@) ==> transcript_of(line).len() == 0,
        line != "EMPTY"@ && !begins(line, "ERROR:"@) ==> transcript_of(line) == line,
{
}

/// Playback plays what it is handed: the file with its project, or the text, announced where
/// no sound was made before. An interrupt silences both, and the file is deleted.
pub proof fn law_playback_plays_what_it_is_handed(
    started: bool,
    path: String,
    workspace: Option<String>,
    text: String,
    interrupted: bool,
)
    ensures
        play_step(started, PlayMsg::Wav { path, workspace }, false) == (PlayStep::Play {
            announce: !started,
            path,
            workspace,
        }),
        play_step(started, PlayMsg::Say { text }, false) == (PlayStep::Say {
            announce: !started,
            text,
        }),
        play_step(started, PlayMsg::Wav { path, workspace }, true) == (PlayStep::Discard { path }),
        play_step(started, PlayMsg::Say { text }, true) is Skip,
        play_step(started, PlayMsg::End, interrupted) is Finish,
{
}

/// The transcription tool is told the recording, the language and where to write.
pub proof fn law_the_tool_is_told_what_to_transcribe(
    wav: Seq<char>,
    lang: Seq<char>,
    out_dir: Seq<char>,
)
    ensures
        whisper_args(wav, lang, out_dir)[0] == wav,
        exists|i: int|
            0 <= i < whisper_args(wav, lang, out_dir).len() - 1 && #[trigger] whisper_args(
                wav,
                lang,
                out_dir,
            )[i] == "--language"@ && whisper_args(wav, lang, out_dir)[i + 1] == lang,
        exists|i: int|
            0 <= i < whisper_args(wav, lang, out_dir).len() - 1 && #[trigger] whisper_args(
                wav,
                lang,
                out_dir,
            )[i] == "--output_dir"@ && whisper_args(wav, lang, out_dir)[i + 1] == out_dir,
        exists|i: int|
            0 <= i < whisper_args(wav, lang, out_dir).len() - 1 && #[trigger] whisper_args(
                wav,
                lang,
                out_dir,
            )[i] == "--output_format"@ && whisper_args(wav, lang, out_dir)[i + 1] == "txt"@,
{
    let a = whisper_args(wav, lang, out_dir);
    assert(a[3] == "--language"@ && a[4] == lang);
    assert(a[5] == "--output_format"@ && a[6] == "txt"@);
    assert(a[7] == "--output_dir"@ && a[8] == out_dir);
}

/// A text on one line differs from a text without line breaks only in its runs of full stops.
pub proof fn law_a_single_line_keeps_its_words(text: Seq<char>)
    requires
        !has_line_break(text),
    ensures
        on_one_line(text) == all_replaced(DOT_RUN@, text, "."@),
{
    lemma_nothing_to_replace(text);
}

proof fn lemma_nothing_to_replace(s: Seq<char>)
    requires
        !has_line_break(s),
    ensures
        replaced(s, Class::LineBreak, ". "@) == s,
    decreases s.len(),
{
    if s.len() > 0 {
        let t = s.drop_last();
        if has_line_break(t) {
            let i = choose|i: int| 0 <= i < t.len() && (#[trigger] t[i] == '\r' || t[i] == '\n');
            assert(s[i] == t[i]);
        }
        lemma_nothing_to_replace(t);
        assert(s[s.len() - 1] == s.last());
        assert(t.push(s.last()) =~= s);
    } else {
        assert(replaced(s, Class::LineBreak, ". "@) =~= s);
    }
}

/// A sentence is voiced as it is, with its project, unless an interrupt has come; what the
/// daemon wrote of it is played, and where it wrote nothing, the text itself is.
pub proof fn law_a_sentence_is_voiced_as_it_is(
    text: String,
    workspace: Option<String>,
    voiced: SynthStep,
    silenced: SynthStep,
    wav: String,
    played: PlayMsg,
    said: PlayMsg,
)
    requires
        call_ensures(synth_step, (SpeechItem::Sentence { text, workspace }, false), voiced),
        call_ensures(synth_step, (SpeechItem::Sentence { text, workspace }, true), silenced),
        call_ensures(play_message, (Some(wav), text, workspace), played),
        call_ensures(play_message, (None, text, workspace), said),
    ensures
        voiced == (SynthStep::Voice { text, workspace }),
        silenced is Stop,
        played == (PlayMsg::Wav { path: wav, workspace }),
        said == (PlayMsg::Say { text }),
{
}

/// What is spoken of a text are its sentences, all of them in order, and then the end.
pub proof fn law_a_spoken_text_is_queued_in_full(text: &str, r: Vec<SpeechItem>, i: int)
    requires
        call_ensures(speak, (text,), r),
    ensures
        r@.len() == spoken(text@).len() + 1,
        r@.last() is End,
        0 <= i < spoken(text@).len() ==> (r@[i] matches SpeechItem::Sentence { text: t, workspace }
            && t@ == spoken(text@)[i] && workspace is None),
{
    let v = items_view(r@);
    assert(v.len() == r@.len());
    law_a_text_is_spoken_sentence_by_sentence(text@, i);
    assert(v.last() == r@.last()@);
    if 0 <= i < spoken(text@).len() {
        assert(v[i] == r@[i]@);
    }
}

/// What the user said is answered, and silence is not; what the daemon heard is taken before
/// the tool is asked, and the tool is asked before anything is given up.
pub proof fn law_what_was_said_is_answered(
    line: String,
    tool: String,
    wav: &str,
    language: &str,
    out_dir: &str,
    heard: Transcription,
    asked: Transcription,
    given_up: Transcription,
    words: String,
    answered: VoiceOutcome,
    unheard: VoiceOutcome,
)
    requires
        call_ensures(transcribe, (Some(line), Some(tool), wav, language, out_dir), heard),
        call_ensures(transcribe, (None, Some(tool), wav, language, out_dir), asked),
        call_ensures(transcribe, (None, None, wav, language, out_dir), given_up),
        call_ensures(voice_outcome, (Some(words),), answered),
        call_ensures(voice_outcome, (None,), unheard),
    ensures
        heard matches Transcription::Done(t) && (line@ != "EMPTY"@ && !begins(line@, "ERROR:"@)
            ==> t@ == line@) && (line@ == "EMPTY"@ || begins(line@, "ERROR:"@) ==> t@.len() == 0),
        asked matches Transcription::Run { program, args } && program@ == tool@ && args@.len() > 0
            && args@[0]@ == wav@,
        given_up is Unavailable,
        words@.len() > 0 ==> answered == VoiceOutcome::Answer(words),
        words@.len() == 0 ==> answered is SpeakingDone,
        unheard is SpeakingDone,
{
    law_what_was_heard_is_taken_as_it_is(line@);
    let args = asked->args;
    assert(args.deep_view().len() == args@.len());
    assert(args.deep_view()[0] == args@[0]@);
}

/// The request for a sentence names the file and holds the sentence, and it is one line where
/// the path is one; the daemon succeeded where it says so.
pub proof fn law_a_request_is_one_line(out: &str, text: &str, r: String, reply: &str, ok: bool)
    requires
        call_ensures(tts_request, (out, text), r),
        call_ensures(tts_succeeded, (reply,), ok),
    ensures
        begins(r@, out@),
        r@ == out@ + "\t"@ + on_one_line(text@),
        !has_line_break(out@) ==> !has_line_break(r@),
        ok <==> begins(reply@, "ok:"@),
{
    assert(r@.take(out@.len() as int) =~= out@);
}

/// The environment chooses the engine and the voice, and else the language does.
pub proof fn law_the_environment_chooses_the_voice(
    env: String,
    language: &str,
    engine: String,
    by_language: String,
    voice: String,
    own_voice: String,
)
    requires
        call_ensures(speech_engine, (Some(env), language), engine),
        call_ensures(speech_engine, (None, language), by_language),
        call_ensures(say_voice, (Some(env), language), voice),
        call_ensures(say_voice, (None, language), own_voice),
    ensures
        engine@ == lower(env@),
        voice@ == env@,
        language@ == "en"@ ==> by_language@ == lower("kokoro"@) && own_voice@ == "Samantha"@,
        language@ != "en"@ ==> by_language@ == lower("piper"@) && own_voice@ == "Thomas"@,
{
}

/// The dictionary is applied in its order to the text that is spoken.
pub proof fn law_the_dictionary_is_applied(text: &str, words: &Vec<(String, String)>, r: String)
    requires
        call_ensures(apply_pronunciations, (text, words), r),
    ensures
        r@ == respelled(text@, pairs(words@)),
        words@.len() == 0 ==> r@ == text@,
{
    if words@.len() == 0 {
        assert(pairs(words@) =~= Seq::empty());
    }
}

/// What the transcription tool wrote is taken without white space around it, where it
/// succeeded; a session waits for its daemon until that is ready, and not for ever.
pub proof fn law_the_tool_is_believed_where_it_succeeded(
    written: String,
    heard: String,
    failed: String,
    nothing: String,
    polls: u32,
    waits: bool,
    ready: bool,
    interrupted: bool,
)
    requires
        call_ensures(cli_transcript, (true, Some(written)), heard),
        call_ensures(cli_transcript, (false, Some(written)), failed),
        call_ensures(cli_transcript, (true, None), nothing),
        call_ensures(keep_waiting, (polls, interrupted, ready), waits),
    ensures
        heard@ == trimmed(written@),
        failed@.len() == 0,
        nothing@.len() == 0,
        ready || interrupted ==> !waits,
        polls >= 80 ==> !waits,
        polls < 80 && !ready && !interrupted ==> waits,
{
}

/// The playback of a session does what its messages call for, and announces the first sound
/// alone.
pub proof fn law_the_first_sound_is_announced(
    playback: &mut Playback,
    path: String,
    workspace: Option<String>,
    r: PlayStep,
)
    requires
        call_ensures(Playback::step, (playback, PlayMsg::Wav { path, workspace }, false), r),
    ensures
        r == (PlayStep::Play { announce: !old(playback).has_started(), path, workspace }),
        final(playback).has_started(),
{
}

} // verus!
