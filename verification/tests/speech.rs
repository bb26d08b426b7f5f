use vox::agents::{
    agent_timeout, launched, spawn_agent, spawn_agent_in, watch_step, AgentCount, AgentPoll,
    Launch, LaunchOutcome, WatchStep,
};
use vox::pattern::escape;
use vox::speech::{
    apply_pronunciations, cli_transcript, flatten, keep_waiting, play_message, recording_name,
    say_voice, speak, speech_engine, synth_step, transcribe, tts_file_name, tts_request,
    tts_succeeded, uses_daemon, voice_input, voice_outcome, PlayMsg, PlayStep, Playback,
    SpeechItem, SynthStep, Transcription, VoiceOutcome,
};
use vox::state::{AudioSlot, Generation};

fn s(text: &str) -> String {
    text.to_string()
}

fn word(a: &str, b: &str) -> (String, String) {
    (s(a), s(b))
}

#[test]
fn a_text_becomes_a_session() {
    assert_eq!(
        speak("Le serveur tourne. Tout va bien"),
        vec![
            SpeechItem::Sentence { text: s("Le serveur tourne."), workspace: None },
            SpeechItem::Sentence { text: s("Tout va bien"), workspace: None },
            SpeechItem::End,
        ]
    );
    assert_eq!(speak("  "), vec![SpeechItem::End]);
}

#[test]
fn words_are_respelled() {
    let words = vec![word("Conductor", "conedeuctor"), word("c++", "cé $1 plus")];
    assert_eq!(
        apply_pronunciations("conductor, CONDUCTOR et Conductors", &words),
        "conedeuctor, conedeuctor et Conductors"
    );
    assert_eq!(
        apply_pronunciations("I like C++ a lot.", &vec![word("C++", "see plus plus")]),
        "I like see plus plus a lot."
    );
    assert_eq!(apply_pronunciations("du c++x, du c++", &vec![word("c++", "$0")]), "du $0x, du $0");
    assert_eq!(apply_pronunciations("a.net .NET", &vec![word(".net", "dotte")]), "adotte dotte");
    assert_eq!(apply_pronunciations("objc++ .nets", &vec![word("c++", "x"), word(".net", "y")]), "objc++ .nets");
    assert_eq!(apply_pronunciations("L'avion, l'été", &vec![word("l'", "elle ")]), "elle avion, elle été");
    assert_eq!(apply_pronunciations("rien", &vec![]), "rien");
    assert_eq!(
        apply_pronunciations("a b", &vec![word("a", "b"), word("b", "c")]),
        "c c"
    );
}

#[test]
fn special_characters_of_a_word_stand_for_themselves() {
    for c in "\\.+*?()|[]{}^$#&-~".chars() {
        let tricky = format!("a{c}b");
        assert_eq!(
            apply_pronunciations(&format!("x {tricky} y axb"), &vec![word(&tricky, "ok")]),
            "x ok y axb"
        );
    }
    assert_eq!(apply_pronunciations("a,b a/b", &vec![word("a,b", "1"), word("a/b", "2")]), "1 2");
}

#[test]
fn escapes_are_those_of_the_expressions() {
    for n in 0..=0x10ffffu32 {
        if let Some(c) = char::from_u32(n) {
            let text = c.to_string();
            assert_eq!(escape(&text), regex::escape(&text), "{n:x}");
        }
    }
    assert_eq!(escape("a.b+c"), "a\\.b\\+c");
}

#[test]
fn requests_stay_on_one_line() {
    assert_eq!(flatten("Un.\nDeux\r\nTrois"), "Un. Deux. Trois");
    assert_eq!(flatten("Attends... voilà"), "Attends. voilà");
    assert_eq!(tts_request("/tmp/a.wav", "Un\nDeux"), "/tmp/a.wav\tUn. Deux");
    assert!(!tts_request("/tmp/a.wav", "\r\n\n x \r").contains(['\r', '\n']));
    assert!(tts_succeeded("ok:/tmp/a.wav"));
    assert!(!tts_succeeded("error: ok:"));
    assert_eq!(tts_file_name(17), "vox_tts_17.wav");
}

#[test]
fn transcription() {
    let ask = |reply: Option<&str>, whisper: Option<&str>, lang: &str| {
        transcribe(reply.map(s), whisper.map(s), "/t/a.wav", lang, "/t")
    };
    assert_eq!(ask(Some("bonjour"), None, "fr"), Transcription::Done(s("bonjour")));
    assert_eq!(ask(Some("EMPTY"), Some("w"), "fr"), Transcription::Done(s("")));
    assert_eq!(ask(Some("ERROR: x"), Some("w"), "fr"), Transcription::Done(s("")));
    assert_eq!(ask(None, None, "fr"), Transcription::Unavailable);
    let run = |lang: &str| Transcription::Run {
        program: s("/bin/whisper"),
        args: [
            "/t/a.wav", "--model", "small", "--language", lang, "--output_format", "txt",
            "--output_dir", "/t",
        ]
        .iter()
        .map(|a| s(a))
        .collect(),
    };
    assert_eq!(ask(None, Some("/bin/whisper"), "en"), run("en"));
    assert_eq!(ask(None, Some("/bin/whisper"), "de"), run("fr"));
    assert_eq!(cli_transcript(true, Some(s(" oui \n"))), "oui");
    assert_eq!(cli_transcript(true, None), "");
    assert_eq!(cli_transcript(false, Some(s("oui"))), "");
}

#[test]
fn engines_and_voices() {
    assert_eq!(speech_engine(Some(s("SAY")), "en"), "say");
    assert_eq!(speech_engine(None, "en"), "kokoro");
    assert_eq!(speech_engine(None, "fr"), "piper");
    assert!(!uses_daemon("say"));
    assert!(uses_daemon("piper"));
    assert_eq!(say_voice(Some(s("Amélie")), "en"), "Amélie");
    assert_eq!(say_voice(None, "en"), "Samantha");
    assert_eq!(say_voice(None, "fr"), "Thomas");
    assert!(keep_waiting(79, false, false));
    assert!(!keep_waiting(80, false, false));
    assert!(!keep_waiting(0, true, false));
    assert!(!keep_waiting(0, false, true));
}

#[test]
fn the_synthesis_stage() {
    let sentence = || SpeechItem::Sentence { text: s("a"), workspace: Some(s("w")) };
    assert_eq!(
        synth_step(sentence(), false),
        SynthStep::Voice { text: s("a"), workspace: Some(s("w")) }
    );
    assert_eq!(synth_step(sentence(), true), SynthStep::Stop);
    assert_eq!(synth_step(SpeechItem::End, false), SynthStep::Stop);
    assert_eq!(
        play_message(Some(s("/p")), s("a"), None),
        PlayMsg::Wav { path: s("/p"), workspace: None }
    );
    assert_eq!(play_message(None, s("a"), Some(s("w"))), PlayMsg::Say { text: s("a") });
}

#[test]
fn a_session_is_announced_once() {
    let mut p = Playback::new();
    let wav = |path: &str| PlayMsg::Wav { path: s(path), workspace: None };
    assert_eq!(p.step(wav("/0"), true), PlayStep::Discard { path: s("/0") });
    assert_eq!(p.step(PlayMsg::Say { text: s("x") }, true), PlayStep::Skip);
    assert_eq!(
        p.step(wav("/1"), false),
        PlayStep::Play { announce: true, path: s("/1"), workspace: None }
    );
    assert_eq!(
        p.step(PlayMsg::Say { text: s("y") }, false),
        PlayStep::Say { announce: false, text: s("y") }
    );
    assert_eq!(p.step(PlayMsg::End, false), PlayStep::Finish);
    assert_eq!(p.step(PlayMsg::End, true), PlayStep::Finish);
}

#[test]
fn an_interrupted_session_makes_no_sound() {
    let mut p = Playback::new();
    for _ in 0..3 {
        assert_eq!(p.step(PlayMsg::Say { text: s("x") }, true), PlayStep::Skip);
    }
    assert_eq!(p.step(PlayMsg::End, true), PlayStep::Finish);
}

#[test]
fn recordings_are_decoded() {
    assert_eq!(voice_input("UklGRg=="), Some(b"RIFF".to_vec()));
    assert_eq!(voice_input(""), Some(vec![]));
    assert_eq!(voice_input("UklGRg"), None);
    assert_eq!(voice_input("!!!!"), None);
    assert_eq!(recording_name(1_700_000_000_123), "vox_1700000000123.wav");
    assert_eq!(voice_outcome(Some(s("salut"))), VoiceOutcome::Answer(s("salut")));
    assert_eq!(voice_outcome(Some(s(""))), VoiceOutcome::SpeakingDone);
    assert_eq!(voice_outcome(None), VoiceOutcome::SpeakingDone);
}

// ── Shared state ─────────────────────────────────────────────────────────────

#[test]
fn an_interrupt_is_for_good() {
    let mut g = Generation::new();
    let before = g.current();
    assert!(!g.superseded(before));
    assert_eq!(g.bump(), 1);
    let after = g.current();
    assert!(g.superseded(before));
    assert!(!g.superseded(after));
    for _ in 0..5 {
        g.bump();
        assert!(g.superseded(before) && g.superseded(after));
    }
}

#[test]
fn stale_acknowledgements_are_ignored() {
    let mut slot: AudioSlot<&str> = AudioSlot::new();
    assert_eq!(slot.acknowledge(1), None);
    slot.begin(1, "one");
    assert_eq!(slot.acknowledge(2), None);
    assert_eq!(slot.acknowledge(1), Some("one"));
    assert_eq!(slot.acknowledge(1), None);
    slot.begin(2, "two");
    assert_eq!(slot.acknowledge(1), None);
    assert_eq!(slot.release(), Some("two"));
    assert_eq!(slot.release(), None);
}

// ── Agents ───────────────────────────────────────────────────────────────────

#[test]
fn the_timeout_of_an_agent() {
    assert_eq!(agent_timeout(None), 600);
    assert_eq!(agent_timeout(Some("30")), 30);
    assert_eq!(agent_timeout(Some("soon")), 600);
    assert_eq!(agent_timeout(Some("-1")), 600);
}

#[test]
fn launching_an_agent() {
    assert_eq!(spawn_agent("/code/vox"), (s("vox"), s("/code/vox")));
    assert_eq!(spawn_agent("/"), (s("/"), s("/")));
    assert_eq!(
        spawn_agent_in(None, "Coder", "/w", "task"),
        Launch::Refused { message: s("Coder CLI not found — no agent launched") }
    );
    assert_eq!(
        spawn_agent_in(Some(s("/bin/coder")), "Coder", "/w", "- a list"),
        Launch::Run {
            program: s("/bin/coder"),
            args: vec![s("--print"), s("--dangerously-skip-permissions"), s("--"), s("- a list")],
            cwd: s("/w"),
        }
    );
}

#[test]
fn only_started_agents_count() {
    let mut count = AgentCount::new();
    assert_eq!(
        launched(&mut count, Some(s("no such file")), "vox", "/w", "t"),
        LaunchOutcome::Failed { message: s("agent launch failed: no such file") }
    );
    assert_eq!(
        launched(&mut count, None, "vox", "/w", "t"),
        LaunchOutcome::Launched { count: 1, project: s("vox"), path: s("/w"), prompt: s("t") }
    );
    assert_eq!(count.update_count(-1), 0);
    assert_eq!(count.update_count(-1), 0);
    assert_eq!(count.update_count(1), 1);
    assert_eq!(count.current(), 1);
    assert_eq!(count.update_count(i64::MIN), 0);
}

#[test]
fn watching_an_agent() {
    assert_eq!(watch_step(AgentPoll::Running, 2_000_000_000, 2), WatchStep::Wait);
    assert_eq!(watch_step(AgentPoll::Running, 2_000_000_001, 2), WatchStep::Kill);
    assert_eq!(watch_step(AgentPoll::Exited, 0, 2), WatchStep::Done);
    assert_eq!(watch_step(AgentPoll::Unknown, u128::MAX, 2), WatchStep::Done);
}
