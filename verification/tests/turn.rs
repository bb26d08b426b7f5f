use vox::actions::ToolCall;
use vox::calls::{slot_call, ToolCalls};
use vox::chat::{Message, Role};
use vox::json::{read_json, Json};
use vox::reply::{reply_calls, text_calls};
use vox::turn::{
    ask_ollama, close_second, close_text, first_request, second_reply, second_request, Effect,
    Ending, Turn,
};

fn s(text: &str) -> String {
    text.to_string()
}

fn json(text: &str) -> Json {
    read_json(text).unwrap()
}

fn content(text: &str) -> Json {
    Json::object().with_text("content", text)
}

fn turn(parts: &[&str]) -> (Turn, Vec<String>) {
    let mut t = Turn::new();
    let mut out = Vec::new();
    for p in parts {
        out.extend(t.on_delta(&content(p)));
    }
    (t, out)
}

// ── Tool calls ───────────────────────────────────────────────────────────────

fn shown(calls: &ToolCalls) -> Vec<(String, Json)> {
    calls.calls().into_iter().map(|c| (c.name, c.args)).collect()
}

#[test]
fn fragments_of_one_call_are_joined() {
    let mut c = ToolCalls::new();
    assert!(c.is_empty());
    c.on_fragment(&json("{\"index\":0,\"function\":{\"name\":\"launch_agent\",\"arguments\":\"{\\\"task\\\":\"}}"));
    c.on_fragment(&json("{\"index\":0,\"function\":{\"name\":\"again\",\"arguments\":\"\\\"t\\\"}\"}}"));
    assert!(!c.is_empty());
    assert_eq!(shown(&c), vec![(s("launch_agent"), json("{\"task\":\"t\"}"))]);
}

#[test]
fn a_new_object_under_an_old_index_is_a_new_call() {
    let mut c = ToolCalls::new();
    c.on_fragments(&vec![
        json("{\"index\":0,\"function\":{\"name\":\"a\",\"arguments\":\"{}\"}}"),
        json("{\"index\":0,\"function\":{\"name\":\"b\",\"arguments\":\" {\\\"x\\\":1}\"}}"),
        json("{\"function\":{\"name\":\"c\",\"arguments\":\"{\\\"y\\\":2}\"}}"),
    ]);
    assert_eq!(
        shown(&c),
        vec![
            (s("a"), json("{}")),
            (s("b"), json("{\"x\":1}")),
            (s("c"), json("{\"y\":2}"))
        ]
    );
}

#[test]
fn calls_come_in_the_order_of_their_slots() {
    let mut c = ToolCalls::new();
    c.take_in(7, Some("late"), Some("{}"), false);
    c.take_in(2, Some("early"), Some("broken"), false);
    c.take_in(2, None, None, true);
    assert_eq!(shown(&c), vec![(s("early"), Json::object()), (s("late"), Json::object())]);
    c.take_in(2, Some("new"), Some("{\"z\":0}"), true);
    assert_eq!(shown(&c)[2], (s("new"), json("{\"z\":0}")));
    assert_eq!(
        slot_call("n", None),
        ToolCall { name: s("n"), args: Json::object() }
    );
    assert_eq!(slot_call("n", Some(Json::Null)).args, Json::Null);
}

#[test]
fn slot_numbers_wrap_around() {
    let mut c = ToolCalls::new();
    c.take_in(u64::MAX, Some("last"), Some("{}"), false);
    c.take_in(u64::MAX, Some("first"), Some("{}"), true);
    assert_eq!(
        shown(&c),
        vec![(s("first"), Json::object()), (s("last"), Json::object())]
    );
}

// ── Turns ────────────────────────────────────────────────────────────────────

#[test]
fn a_turn_starts_with_what_was_said() {
    let mut history = vec![Message { role: Role::Assistant, content: s("hello") }];
    let t = ask_ollama(&mut history, "salut");
    assert_eq!(history.len(), 2);
    assert_eq!(history[1], Message { role: Role::User, content: s("salut") });
    assert_eq!(t.ending(false), Ending::TryAgain);
    assert_eq!(t.ending(true), Ending::TryAgain);
    let r = first_request("m", "sys", &history, true, "Coder");
    assert_eq!(r.get("max_tokens"), Some(&Json::Int(300)));
    assert_eq!(r.get("stream"), Some(&Json::Bool(true)));
    assert_eq!(r.get("tools").unwrap().as_list().unwrap().len(), 3);
    assert_eq!(r.get("messages").unwrap().as_list().unwrap().len(), 3);
    let r2 = second_request("m", "sys", &history);
    assert_eq!(r2.get("stream"), Some(&Json::Bool(false)));
    assert_eq!(r2.get("tools"), None);
}

#[test]
fn prose_is_spoken_while_it_streams() {
    let (t, out) = turn(&["Le serveur ", "tourne. Tout", " va bien"]);
    assert_eq!(out, [s("Le serveur tourne.")]);
    assert_eq!(t.ending(false), Ending::Close);
    assert_eq!(
        t.close(false),
        vec![
            Effect::Sentence(s("Tout va bien")),
            Effect::EndSession,
            Effect::Remember(s("Le serveur tourne. Tout va bien")),
        ]
    );
    let (short, none) = turn(&[" Oui. "]);
    assert!(none.is_empty());
    assert_eq!(
        short.close(false),
        vec![Effect::Sentence(s("Oui.")), Effect::EndSession, Effect::Remember(s("Oui."))]
    );
}

#[test]
fn a_broken_stream_is_closed_as_it_is() {
    let (t, _) = turn(&["Le serveur tourne. Et "]);
    assert_eq!(t.ending(true), Ending::Close);
    assert_eq!(
        t.close(true),
        vec![
            Effect::Sentence(s("Et")),
            Effect::EndSession,
            Effect::Remember(s("Le serveur tourne. Et ")),
        ]
    );
    let (call, _) = turn(&["{\"a\""]);
    assert_eq!(
        call.close(true),
        vec![Effect::SpeakingDone, Effect::Remember(s("{\"a\""))]
    );
}

#[test]
fn silence_leads_to_the_second_attempt() {
    let (t, out) = turn(&[" ", "\n"]);
    assert!(out.is_empty());
    assert_eq!(t.ending(false), Ending::TryAgain);
    assert_eq!(t.ending(true), Ending::TryAgain);
}

#[test]
fn tool_calls_are_not_spoken() {
    let mut t = Turn::new();
    let call = json(
        "{\"content\":\"Voilà une phrase entière. Et\",\"tool_calls\":[{\"index\":0,\"function\":\
         {\"name\":\"launch_agent\",\"arguments\":\"{\\\"text\\\":\\\"Je lance.\\\"}\"}}]}",
    );
    assert!(t.on_delta(&call).is_empty());
    assert!(t.on_delta(&content(" encore une autre phrase. Fin")).is_empty());
    assert_eq!(t.ending(false), Ending::Calls);
    let calls = t.tool_calls();
    assert_eq!(calls.len(), 1);
    assert_eq!(
        t.close_calls(&calls, &vec![None]),
        vec![Effect::Remember(s("Je lance.")), Effect::Speak(s("Je lance."))]
    );
}

#[test]
fn a_failed_call_is_told() {
    let with_calls = |before: &[&str]| {
        let (mut t, _) = turn(before);
        t.on_delta(&json("{\"tool_calls\":[{\"function\":{\"name\":\"x\"}}]}"));
        t
    };
    let lines = vec![Some(s("Raté."))];
    let t = with_calls(&["Je m'en occupe. Vraiment"]);
    let calls = t.tool_calls();
    assert_eq!(
        t.close_calls(&calls, &lines),
        vec![
            Effect::Sentence(s("Vraiment")),
            Effect::Sentence(s("Raté.")),
            Effect::EndSession,
            Effect::Remember(s("Je m'en occupe. Vraiment")),
        ]
    );
    let fine = with_calls(&["Je m'en occupe. "]);
    assert_eq!(
        fine.close_calls(&calls, &vec![None]),
        vec![Effect::EndSession, Effect::Remember(s("Je m'en occupe. "))]
    );
    let quiet = with_calls(&[]);
    assert_eq!(
        quiet.close_calls(&calls, &lines),
        vec![Effect::Remember(s("Raté.")), Effect::Speak(s("Raté."))]
    );
    assert_eq!(
        with_calls(&[]).close_calls(&calls, &vec![None]),
        vec![Effect::Remember(s("")), Effect::SpeakingDone]
    );
}

#[test]
fn calls_in_the_text_are_carried_out() {
    let (t, out) = turn(&["switch_project ", "{\"name\":\"vox\",\"text\":\"Je passe sur vox.\"}"]);
    assert!(out.is_empty());
    assert_eq!(t.ending(false), Ending::Text);
    assert!(t.before_text().is_empty());
    let calls = text_calls(&t.text());
    assert_eq!(calls[0].name, "switch_project");
    assert_eq!(
        close_text(&calls, &vec![None]),
        vec![Effect::Remember(s("Je passe sur vox.")), Effect::Speak(s("Je passe sur vox."))]
    );
    let (prose, said) = turn(&["Je m'en occupe. ", "{\"action\":\"none\"", ",\"text\":\"\"}"]);
    assert_eq!(said, [s("Je m'en occupe.")]);
    assert_eq!(prose.ending(false), Ending::Text);
    assert_eq!(prose.before_text(), vec![Effect::EndSession]);
    let none = text_calls(&prose.text());
    assert_eq!(
        close_text(&none, &vec![None]),
        vec![Effect::Remember(s("")), Effect::SpeakingDone]
    );
}

#[test]
fn the_second_attempt() {
    let reply = json(
        "{\"choices\":[{\"message\":{\"content\":\" {\\\"action\\\":\\\"none\\\",\\\"text\\\":\\\"Oui.\\\"} \"}}]}",
    );
    let raw = second_reply(&reply);
    assert_eq!(raw, "{\"action\":\"none\",\"text\":\"Oui.\"}");
    let calls = reply_calls(&raw);
    assert_eq!(
        close_second(Some(raw.clone()), &calls, &vec![None]),
        vec![Effect::Remember(raw), Effect::Speak(s("Oui."))]
    );
    assert_eq!(second_reply(&Json::Null), "");
    assert_eq!(
        close_second(Some(s("")), &reply_calls(""), &vec![None]),
        vec![Effect::Remember(s("")), Effect::SpeakingDone]
    );
    assert_eq!(close_second(None, &vec![], &vec![]), vec![Effect::SpeakingDone]);
}

#[test]
fn every_turn_ends_in_a_speaking_done() {
    let settled = |effects: &[Effect]| {
        matches!(
            effects.iter().rev().find(|e| !matches!(e, Effect::Remember(_))),
            Some(Effect::EndSession | Effect::Speak(_) | Effect::SpeakingDone)
        )
    };
    for parts in [&["Oui."][..], &["Le serveur tourne. Fin"][..], &["{"][..], &["a {\"b\"", "x"][..]] {
        for failed in [false, true] {
            let (t, _) = turn(parts);
            let effects = match t.ending(failed) {
                Ending::Calls => t.close_calls(&vec![], &vec![]),
                Ending::Text => {
                    let mut all = t.before_text();
                    all.extend(close_text(&text_calls(&t.text()), &vec![]));
                    all
                }
                Ending::Close => t.close(failed),
                Ending::TryAgain => close_second(None, &vec![], &vec![]),
            };
            assert!(settled(&effects));
        }
    }
}
