use vox::actions::{
    after_launch, after_prompt, apply_action, choose_voice, failure_line, offered_line,
    parsed_calls, ActionStep, PromptOutcome, ToolCall,
};
use vox::chat::{
    answer_at_once, chat_once, chat_request, line_kind, message_text, once_request, vox_tools,
    ChatStream, LineKind, Message, OnceEnd, OnceStream, Role, StreamStep, OLLAMA_URL,
};
use vox::conductor::{SessionInfo, Workspace};
use vox::json::{read_json, Json};
use vox::prompt::{build_system, describe_state, json_system, state_line_from};
use vox::reply::{
    call_from, looks_like_inline_tool, meaning_of, parse_json, reply_calls, text_calls,
};

fn s(text: &str) -> String {
    text.to_string()
}

fn json(text: &str) -> Json {
    read_json(text).unwrap()
}

/// A value with its members in the order of their keys.
fn sorted(j: &Json) -> Json {
    match j {
        Json::List(items) => Json::List(items.iter().map(sorted).collect()),
        Json::Object(members) => {
            let mut all: Vec<(String, Json)> =
                members.iter().map(|(k, v)| (k.clone(), sorted(v))).collect();
            all.sort_by_key(|m| m.0.clone());
            Json::Object(all)
        }
        other => other.copy(),
    }
}

// ── Requests ─────────────────────────────────────────────────────────────────

#[test]
fn requests_carry_the_conversation() {
    assert_eq!(OLLAMA_URL, "http://localhost:11434/v1/chat/completions");
    assert_eq!(
        sorted(&once_request("m", "sys", "ask", 120, true)),
        json(
            "{\"model\":\"m\",\"messages\":[{\"role\":\"system\",\"content\":\"sys\"},\
             {\"role\":\"user\",\"content\":\"ask\"}],\"max_tokens\":120,\"stream\":true}"
        )
    );
    let history = vec![
        Message { role: Role::User, content: s("a") },
        Message { role: Role::Assistant, content: s("b") },
    ];
    assert_eq!(
        sorted(&chat_request("m", "sys", &history, Some(Json::Null), 300, false)),
        json(
            "{\"model\":\"m\",\"messages\":[{\"role\":\"system\",\"content\":\"sys\"},\
             {\"role\":\"user\",\"content\":\"a\"},{\"role\":\"assistant\",\"content\":\"b\"}],\
             \"tools\":null,\"max_tokens\":300,\"stream\":false}"
        )
    );
}

#[test]
fn tools_in_english() {
    assert_eq!(
        sorted(&vox_tools(true, "Coder")),
        json(
            r#"[
            {"type":"function","function":{"name":"launch_agent",
             "description":"Launch a Coder agent on the ACTIVE project for a background development task",
             "parameters":{"type":"object","properties":{
               "task":{"type":"string","description":"Detailed description of the task"},
               "text":{"type":"string","description":"Short spoken reply in English (1-2 sentences)"}},
              "required":["task","text"]}}},
            {"type":"function","function":{"name":"prompt_worktree",
             "description":"Send a prompt to the coding agent of a named Conductor worktree. YOU write the full prompt: context, precise task, constraints, done criteria.",
             "parameters":{"type":"object","properties":{
               "project":{"type":"string","description":"Worktree/project name exactly as listed in the worktree state data"},
               "prompt":{"type":"string","description":"The complete detailed prompt to send to the agent (several sentences)"},
               "text":{"type":"string","description":"Short spoken confirmation in English"}},
              "required":["project","prompt","text"]}}},
            {"type":"function","function":{"name":"switch_project",
             "description":"Change the active project by its name in the ~/.vox/projects.json registry",
             "parameters":{"type":"object","properties":{
               "name":{"type":"string","description":"Project name in the registry"},
               "text":{"type":"string","description":"Short spoken reply in English"}},
              "required":["name","text"]}}}
            ]"#
        )
    );
}

#[test]
fn tools_in_french() {
    let tools = vox_tools(false, "Coder");
    let described: Vec<String> = tools
        .as_list()
        .unwrap()
        .iter()
        .map(|t| t.get2("function", "description").unwrap().as_text().unwrap())
        .collect();
    assert_eq!(
        described,
        [
            "Lance un agent Coder sur le projet ACTIF pour une tâche de développement en arrière-plan",
            "Envoie un prompt à l'agent d'un worktree Conductor nommé. C'est TOI qui rédiges le prompt complet : contexte, tâche précise, contraintes, critères de fin.",
            "Change le projet actif par son nom dans le registre ~/.vox/projects.json",
        ]
    );
}

// ── Replies ──────────────────────────────────────────────────────────────────

fn reply(content: &str) -> Json {
    Json::object().with(
        "choices",
        Json::List(vec![
            Json::object().with("message", Json::object().with_text("content", content)),
        ]),
    )
}

#[test]
fn answers_lose_their_quotes() {
    assert_eq!(message_text(&reply(" x ")), Some(s(" x ")));
    assert_eq!(chat_once(Some(&reply(" \"C'est 'bon'\" "))), Some(s("C'est 'bon")));
    assert_eq!(chat_once(Some(&reply(""))), Some(s("")));
    assert_eq!(chat_once(Some(&json("{\"choices\":[]}"))), None);
    assert_eq!(chat_once(Some(&json("{\"choices\":[{\"message\":{\"content\":1}}]}"))), None);
    assert_eq!(chat_once(Some(&Json::Null)), None);
    assert_eq!(chat_once(None), None);
}

#[test]
fn lines_of_a_stream() {
    assert_eq!(line_kind(" data:  {} "), LineKind::Data(s("{}")));
    assert_eq!(line_kind("data: [DONE]"), LineKind::End);
    assert_eq!(line_kind("event: x"), LineKind::Other);
    assert_eq!(line_kind(""), LineKind::Other);
}

fn delta(content: &str) -> Json {
    Json::object().with_text("content", content)
}

fn data(content: &str) -> Result<String, String> {
    Ok(format!("data: {{\"choices\":[{{\"delta\":{{\"content\":\"{content}\"}}}}]}}"))
}

#[test]
fn a_stream_delivers_deltas() {
    let mut st = ChatStream::new();
    assert_eq!(st.on_line(false, Ok(s(": comment"))), StreamStep::Next);
    assert_eq!(st.on_line(false, Ok(s("data: {broken"))), StreamStep::Next);
    assert_eq!(st.finish(), Err(s("no stream data")));
    assert_eq!(st.on_line(false, data("a")), StreamStep::Delta(delta("a")));
    assert_eq!(st.on_line(false, Ok(s("data: {}"))), StreamStep::Delta(Json::Null));
    assert_eq!(st.on_line(false, Ok(s("data: [DONE]"))), StreamStep::Stop);
    assert_eq!(st.on_line(true, data("b")), StreamStep::Stop);
    assert_eq!(st.finish(), Ok(()));
    let mut c = ChatStream::new();
    assert_eq!(c.on_chunk(None), StreamStep::Next);
    assert_eq!(c.finish(), Err(s("no stream data")));
    assert_eq!(c.on_chunk(Some(Json::Int(1))), StreamStep::Delta(Json::Null));
    assert_eq!(c.finish(), Ok(()));
}

#[test]
fn a_stream_fails_only_before_data() {
    let mut st = ChatStream::new();
    assert_eq!(st.on_line(false, Err(s("reset"))), StreamStep::Fail(s("reset")));
    let mut late = ChatStream::new();
    late.on_line(false, data("a"));
    assert_eq!(late.on_line(false, Err(s("timeout"))), StreamStep::Stop);
    assert_eq!(late.finish(), Ok(()));
}

#[test]
fn an_answer_is_spoken_as_it_streams() {
    let mut o = OnceStream::new();
    assert!(o.on_delta(&delta("\"Commence par vox")).is_empty());
    assert_eq!(o.on_delta(&delta(". Puis app")), [s("\"Commence par vox.")]);
    assert!(o.on_delta(&Json::Null).is_empty());
    assert!(o.on_delta(&delta("\" ")).is_empty());
    assert_eq!(
        o.finish(false, false),
        OnceEnd::Done {
            last: Some(s("Puis app\"")),
            answer: Some(s("Commence par vox. Puis app"))
        }
    );
}

#[test]
fn a_partial_answer_is_never_replayed() {
    let fed = |parts: &[&str]| {
        let mut o = OnceStream::new();
        for p in parts {
            o.on_delta(&delta(p));
        }
        o
    };
    assert_eq!(fed(&[]).finish(true, false), OnceEnd::AskAgain);
    assert_eq!(fed(&["un début"]).finish(true, false), OnceEnd::AskAgain);
    assert_eq!(
        fed(&["Une phrase entière. Et"]).finish(true, false),
        OnceEnd::Done { last: None, answer: Some(s("Une phrase entière. Et")) }
    );
    assert_eq!(
        fed(&["un début "]).finish(true, true),
        OnceEnd::Done { last: None, answer: Some(s("un début ")) }
    );
    assert_eq!(fed(&[" "]).finish(true, true), OnceEnd::Done { last: None, answer: None });
    assert_eq!(
        fed(&["un début"]).finish(false, true),
        OnceEnd::Done { last: None, answer: Some(s("un début")) }
    );
    assert_eq!(
        fed(&["\"\""]).finish(false, false),
        OnceEnd::Done { last: Some(s("\"\"")), answer: None }
    );
}

#[test]
fn an_answer_at_once_is_split() {
    assert_eq!(
        answer_at_once(Some(s("Le serveur tourne. Fin"))),
        (vec![s("Le serveur tourne."), s("Fin")], Some(s("Le serveur tourne. Fin")))
    );
    assert_eq!(answer_at_once(None), (vec![], None));
}

// ── Actions ──────────────────────────────────────────────────────────────────

fn act(name: &str, args: &str, en: bool) -> (ActionStep, String) {
    let mut active = s("/code/old");
    let registry = json("{\"vox\":\"/code/vox\",\"bad\":1}");
    let step = apply_action(&mut active, en, &registry, name, &json(args));
    (step, active)
}

fn said(line: &str) -> ActionStep {
    ActionStep::Done(Some(s(line)))
}

#[test]
fn launching_in_the_active_project() {
    assert_eq!(act("launch_agent", "{\"task\":\"t\"}", true).0, ActionStep::Launch { task: s("t") });
    assert_eq!(act("launch_agent", "{}", true).0, ActionStep::Done(None));
    assert_eq!(after_launch(true, "Coder", true), None);
    assert_eq!(
        after_launch(true, "Coder", false),
        Some(s("I couldn't launch the agent — is the Coder CLI installed?"))
    );
    assert_eq!(
        after_launch(false, "Coder", false),
        Some(s("Je n'ai pas pu lancer l'agent — le CLI Coder est-il installé ?"))
    );
}

#[test]
fn prompting_a_worktree() {
    assert_eq!(
        act("prompt_worktree", "{\"project\":\"vox\",\"prompt\":\"do it\"}", true).0,
        ActionStep::Prompt { project: s("vox"), prompt: s("do it") }
    );
    assert_eq!(
        act("prompt_worktree", "{\"project\":\"vox\",\"prompt\":\" \"}", true).0,
        said("I need a prompt to send.")
    );
    assert_eq!(act("prompt_worktree", "{}", false).0, said("Il me faut un prompt à envoyer."));
    assert_eq!(after_prompt(true, "vox", PromptOutcome::Started), None);
    assert_eq!(
        after_prompt(true, "vox", PromptOutcome::NotStarted),
        Some(s("I found the worktree but couldn't launch the agent."))
    );
    assert_eq!(
        after_prompt(false, "vox", PromptOutcome::NotStarted),
        Some(s("J'ai trouvé le worktree mais je n'ai pas pu lancer l'agent."))
    );
    assert_eq!(
        after_prompt(true, "vox", PromptOutcome::NoWorktree),
        Some(s("I can't find the worktree \"vox\"."))
    );
    assert_eq!(
        after_prompt(false, "vox", PromptOutcome::NoWorktree),
        Some(s("Je ne trouve pas le worktree \"vox\"."))
    );
}

#[test]
fn switching_projects() {
    let none = || ActionStep::Done(None);
    assert_eq!(act("switch_project", "{\"name\":\"vox\"}", true), (none(), s("/code/vox")));
    assert_eq!(
        act("switch_project", "{\"name\":\"new\",\"path\":\"/n\"}", true),
        (none(), s("/n"))
    );
    assert_eq!(
        act("switch_project", "{\"name\":\"vox\",\"path\":\"/n\"}", true).1,
        "/code/vox"
    );
    assert_eq!(
        act("switch_project", "{\"name\":\"bad\"}", true),
        (
            said("I don't know the project \"bad\". Add it to ~/.vox/projects.json."),
            s("/code/old")
        )
    );
    assert_eq!(
        act("switch_project", "{}", false).0,
        said("Je ne connais pas le projet \"\". Ajoute-le dans ~/.vox/projects.json.")
    );
    assert_eq!(act("dance", "{\"path\":\"/n\"}", true), (none(), s("/code/old")));
    assert_eq!(act("none", "{}", true), (none(), s("/code/old")));
}

#[test]
fn failures_outrank_confirmations() {
    let call = |text: &str| ToolCall { name: s("x"), args: Json::object().with_text("text", text) };
    let calls = vec![call(""), call("fine"), call("later")];
    assert_eq!(offered_line(&calls), "fine");
    assert_eq!(offered_line(&vec![]), "");
    assert_eq!(failure_line(&vec![None, Some(s("")), Some(s("oops")), Some(s("no"))]), "oops");
    assert_eq!(choose_voice(&calls, &vec![None, None, None]), "fine");
    assert_eq!(choose_voice(&calls, &vec![None, Some(s("oops")), None]), "oops");
}

// ── JSON in replies ──────────────────────────────────────────────────────────

fn words(text: &str) -> Json {
    Json::object().with_text("action", "none").with_text("text", text)
}

#[test]
fn json_replies_are_read_through_their_fences() {
    let v = || json("{\"action\":\"none\",\"text\":\"oui\"}");
    assert_eq!(parse_json("{\"action\":\"none\",\"text\":\"oui\"}"), v());
    assert_eq!(parse_json("```json\n{\"action\":\"none\",\"text\":\"oui\"}\n```"), v());
    assert_eq!(parse_json("```JSON {\"action\":\"none\",\"text\":\"oui\"}```"), v());
    assert_eq!(parse_json("Voilà : {\"action\":\"none\",\"text\":\"oui\"} !"), v());
    assert_eq!(parse_json("{\"text\":\"a\nb\"}"), json("{\"text\":\"a\\nb\"}"));
    assert_eq!(parse_json("ok {\"text\":\"a\nb\"} ok"), json("{\"text\":\"a\\nb\"}"));
    assert_eq!(parse_json("[1,2]"), json("[1,2]"));
}

#[test]
fn json_replies_come_back_as_they_were() {
    let nested = format!("{}7{}", "[".repeat(127), "]".repeat(127));
    for text in [
        "{}",
        "[]",
        "{\"a\":[1,-2,true,null,\"é\\n\\\"```\"],\"b\":{\"c\":18446744073709551615}}",
        nested.as_str(),
    ] {
        let v: serde_json::Value = serde_json::from_str(text).unwrap();
        let written = v.to_string();
        assert_eq!(written, text);
        assert_eq!(parse_json(&written), json(text));
        assert_eq!(parse_json(&format!("```json\n{written}\n```")), json(text));
        assert_eq!(parse_json(&format!("```JſoN {written}```")), json(text));
        assert_eq!(parse_json(&format!("```\u{a0}\n{written} \t```")), json(text));
    }
    assert_eq!(read_json(&format!("[{nested}]")), None);
}

#[test]
fn prose_replies_ask_for_no_action() {
    for text in ["Oui.", " deux\nlignes \n", "a\\b\nc", "fin]}", "", "1 2"] {
        assert_eq!(parse_json(text), words(text.trim()));
    }
    assert_eq!(parse_json("\u{a0}5"), Json::Int(5));
}

#[test]
fn broken_json_is_not_read_aloud() {
    assert_eq!(parse_json("{\"text\": \"a\\nb \\\"c\\\"\", \"x\""), words("a b \\\"c\\\""));
    assert_eq!(parse_json("{\"action\":\"launch_agent\",\"tas"), words(""));
    assert_eq!(parse_json("Je lance {agent"), words(""));
    assert_eq!(parse_json("[oui"), words(""));
    assert_eq!(parse_json(" Oui, bien sûr. "), words("Oui, bien sûr."));
}

#[test]
fn what_was_read_decides_the_meaning() {
    let one = || Some(Json::Int(1));
    assert_eq!(meaning_of("x", one(), None, None, None, None), Json::Int(1));
    assert_eq!(meaning_of("x", None, one(), Some(Json::Null), None, None), Json::Int(1));
    assert_eq!(meaning_of("x", None, None, one(), Some(Json::Null), None), Json::Int(1));
    assert_eq!(meaning_of("x", None, None, None, one(), Some(s("t"))), Json::Int(1));
    assert_eq!(meaning_of("x", None, None, None, None, Some(s("a\\nb"))), words("a b"));
    assert_eq!(meaning_of("x", None, None, None, None, None), words("x"));
    assert_eq!(meaning_of("x{", None, None, None, None, None), words(""));
    assert_eq!(meaning_of("[x", None, None, None, None, None), words(""));
}

#[test]
fn calls_in_json_replies() {
    let name = |c: &ToolCall| c.name.clone();
    let list = parsed_calls(json("[{\"action\":\"a\"},{\"text\":\"x\"},3]"));
    assert_eq!(list.iter().map(name).collect::<Vec<_>>(), ["a", "none", "none"]);
    assert_eq!(list[2].args, Json::Int(3));
    let one = reply_calls("{\"action\":\"switch_project\",\"name\":\"vox\"}");
    assert_eq!(one.len(), 1);
    assert_eq!(one[0].name, "switch_project");
    assert_eq!(one[0].args.text("name"), Some(s("vox")));
}

#[test]
fn text_that_looks_like_a_call() {
    assert!(looks_like_inline_tool("  {"));
    assert!(looks_like_inline_tool("```"));
    assert!(looks_like_inline_tool("["));
    assert!(looks_like_inline_tool("switch_project {"));
    assert!(looks_like_inline_tool("été2 {x"));
    assert!(looks_like_inline_tool("Je m'en occupe. {\"action\""));
    assert!(!looks_like_inline_tool("Je m'en occupe {x"));
    assert!(!looks_like_inline_tool("switch_project"));
    assert!(!looks_like_inline_tool(""));
    assert!(!looks_like_inline_tool("a `` b"));
}

#[test]
fn calls_written_out_in_the_text() {
    let c = text_calls("switch_project {\"name\":\"vox\",\n\"text\":\"ok\"} ");
    assert_eq!(c.len(), 1);
    assert_eq!((c[0].name.as_str(), c[0].args.text("name")), ("switch_project", Some(s("vox"))));
    let prose = text_calls("Bien sûr. {\"action\":\"launch_agent\",\"task\":\"t\"}");
    assert_eq!((prose[0].name.as_str(), prose[0].args.text("task")), ("launch_agent", Some(s("t"))));
    let broken = text_calls("switch_project {name: vox}");
    assert_eq!(broken[0].name, "none");
    assert_eq!(broken[0].args.text("text"), Some(s("")));
    assert_eq!(call_from(Some(s("a")), None), None);
    assert_eq!(call_from(None, Some(Json::Null)), None);
    assert_eq!(
        call_from(Some(s("a")), Some(Json::Null)),
        Some(ToolCall { name: s("a"), args: Json::Null })
    );
}

// ── Instructions ─────────────────────────────────────────────────────────────

fn worktree(status: &str, preview: Option<&str>, ask: Option<&str>) -> Workspace {
    Workspace {
        project: s("vox"),
        branch: s("main"),
        path: s("/w"),
        session: Some(SessionInfo {
            agent: s("coder"),
            status: s(status),
            unread_count: 0,
            preview: preview.map(s),
            original_ask: ask.map(s),
        }),
    }
}

#[test]
fn the_state_in_the_instructions() {
    let quiet = Workspace { session: None, ..worktree("", None, None) };
    assert_eq!(state_line_from(&quiet, true, None), "- vox : no agent");
    assert_eq!(state_line_from(&quiet, false, None), "- vox : aucun agent");
    let ws = vec![
        worktree("working", Some("**Presque** fini, encore un test. Suite"), Some("Fix it")),
        worktree("paused", None, None),
    ];
    assert_eq!(
        describe_state(&ws, true),
        "\n\nCurrent Conductor worktree state (use ONLY this data to answer project questions):\n\
         - vox (coder, agent working) — original ask: \"Fix it\" — last message : \"Presque fini, encore un test.\"\n\
         - vox (coder, status paused) — last message : \"(nothing new)\""
    );
    assert_eq!(
        describe_state(&vec![worktree("error", None, Some(&"x".repeat(130)))], false),
        format!(
            "\n\nÉtat de tes worktrees Conductor (utilise UNIQUEMENT ces données pour répondre aux questions sur un projet) :\n\
             - vox (coder, agent EN ERREUR) — demande initiale : \"{}\" — dernier message : \"(rien de neuf)\"",
            "x".repeat(120)
        )
    );
    assert_eq!(describe_state(&vec![], true), "");
    let status = |st: &str, en| state_line_from(&worktree(st, None, None), en, Some(s("p")));
    assert_eq!(status("idle", true), "- vox (coder, agent idle) — last message : \"p\"");
    assert_eq!(status("idle", false), "- vox (coder, agent au repos) — dernier message : \"p\"");
    assert_eq!(status("working", false), "- vox (coder, agent en cours) — dernier message : \"p\"");
    assert_eq!(status("error", true), "- vox (coder, agent ERRORED) — last message : \"p\"");
    assert_eq!(status("x", false), "- vox (coder, statut x) — dernier message : \"p\"");
}

#[test]
fn the_instructions() {
    let en = build_system("en", "/code/vox", &vec![]);
    assert!(en.starts_with(
        "You are Vox, a voice AI assistant for a developer running many Conductor worktrees in parallel.\nABSOLUTE RULES:\n- Reply in ENGLISH ONLY"
    ));
    assert!(en.ends_with(
        "- Never invent a project name, PR, or bug not in the data\n\nActive project: vox\n\nREMINDER: Answer in English, one short sentence."
    ));
    let fr = build_system("fr", "/", &vec![worktree("idle", None, None)]);
    assert!(fr.starts_with("Tu es Vox, assistant vocal d'un développeur"));
    assert!(fr.contains("\n\nProjet actif : /\n\nÉtat de tes worktrees Conductor"));
    assert!(fr.ends_with("\n\nRAPPEL : Réponds en français, une phrase courte."));
    let json_en = json_system("BASE", true);
    assert!(json_en.starts_with(
        "BASE\n\nALWAYS reply with a single valid JSON object on one line, with no surrounding text.\nThe \"text\" field must be in ENGLISH.\nExamples:\n{\"action\":\"none\",\"text\":\"Yes, I hear you.\"}\n"
    ));
    assert!(json_en.ends_with(
        "{\"action\":\"switch_project\",\"name\":\"my-app\",\"text\":\"Switching to my-app.\"}"
    ));
    let json_fr = json_system("BASE", false);
    assert!(json_fr.starts_with("BASE\n\nRéponds TOUJOURS avec un objet JSON valide"));
    for line in json_en.lines().chain(json_fr.lines()).filter(|l| l.starts_with('{')) {
        assert!(read_json(line).is_some());
    }
}
