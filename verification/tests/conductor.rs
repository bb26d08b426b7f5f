use vox::conductor::{
    ask_from, assistant_query, assistant_text_from, clean_snippet, extract_last_assistant_text,
    find_workspace_path, first_user_message, last_assistant_message, query_rows, read_state,
    rows_from, row_text, session_query, snippet_from, sqlite_args, user_query, user_text_from,
    workspace_path_query, workspaces_query, SessionInfo, Workspace, WorkspaceRows,
};
use vox::json::{read_json, Json};

fn some(s: &str) -> Option<String> {
    Some(s.to_string())
}

fn row(json: &str) -> Json {
    read_json(json).unwrap()
}

#[test]
fn the_database_is_opened_read_only() {
    assert_eq!(sqlite_args("/db", "SELECT 1;"), ["-readonly", "-json", "/db", "SELECT 1;"]);
}

#[test]
fn rows_of_a_query() {
    assert_eq!(query_rows(true, b"[{\"a\":1},{\"a\":2}]").len(), 2);
    assert!(query_rows(false, b"[{\"a\":1}]").is_empty());
    assert!(query_rows(true, b"").is_empty());
    assert!(query_rows(true, b"{\"a\":1}").is_empty());
    assert!(query_rows(true, b"\xff").is_empty());
    assert!(rows_from(None).is_empty());
    assert!(rows_from(Some(Json::Null)).is_empty());
    assert_eq!(row_text(&row("{\"a\":\"x\",\"b\":1}"), "a"), "x");
    assert_eq!(row_text(&row("{\"a\":\"x\",\"b\":1}"), "b"), "");
}

#[test]
fn queries() {
    assert_eq!(
        workspaces_query(10),
        "SELECT w.id, w.branch, w.workspace_name, w.workspace_path, r.name AS project_name, \
         (SELECT s.id FROM sessions s \
         WHERE s.workspace_id = w.id AND s.is_hidden = 0 \
         ORDER BY s.updated_at DESC LIMIT 1) AS session_id \
         FROM workspaces w \
         LEFT JOIN repos r ON w.repository_id = r.id \
         WHERE w.state = 'ready' AND w.derived_status = 'in-progress' \
         ORDER BY w.updated_at DESC LIMIT 10;"
    );
    assert_eq!(
        session_query("s1"),
        "SELECT id, status, agent_type, unread_count FROM sessions WHERE id='s1';"
    );
    assert_eq!(
        assistant_query("s1"),
        "SELECT content, sent_at FROM session_messages WHERE session_id='s1' AND role='assistant' \
         ORDER BY sent_at DESC LIMIT 40;"
    );
    assert_eq!(
        user_query("s1"),
        "SELECT content FROM session_messages WHERE session_id='s1' AND role='user' \
         ORDER BY sent_at ASC LIMIT 3;"
    );
}

#[test]
fn the_query_for_a_worktree() {
    assert_eq!(
        workspace_path_query("  L'App "),
        some(
            "SELECT w.workspace_path, (lower(r.name) = 'l''app' \
             OR lower(w.directory_name) = 'l''app' \
             OR lower(w.workspace_name) = 'l''app') AS exact_match \
             FROM workspaces w \
             LEFT JOIN repos r ON w.repository_id = r.id \
             WHERE w.state = 'ready' AND w.workspace_path IS NOT NULL AND ( \
             lower(r.name) = 'l''app' \
             OR lower(w.directory_name) = 'l''app' \
             OR lower(w.workspace_name) = 'l''app' \
             OR lower(w.branch) LIKE '%l''app%') \
             ORDER BY exact_match DESC, w.updated_at DESC LIMIT 1;"
        )
    );
    assert_eq!(workspace_path_query(" "), None);
    assert_eq!(workspace_path_query(&"a".repeat(81)), None);
    assert!(workspace_path_query(&"a".repeat(80)).is_some());
    assert_eq!(workspace_path_query(&"'".repeat(41)), None);
    assert!(workspace_path_query("ÉTÉ").unwrap().contains("'été'"));
    assert!(workspace_path_query(&"É".repeat(80)).is_some());
    assert_eq!(workspace_path_query(&"É".repeat(81)), None);
    assert_eq!(workspace_path_query(&"İ".repeat(41)), None);
}

#[test]
fn the_path_of_a_worktree() {
    let rows = vec![row("{\"workspace_path\":\"/w/vox\"}"), row("{\"workspace_path\":\"/w/b\"}")];
    assert_eq!(find_workspace_path(&rows), some("/w/vox"));
    assert_eq!(find_workspace_path(&vec![row("{\"workspace_path\":\"\"}")]), None);
    assert_eq!(find_workspace_path(&vec![]), None);
}

#[test]
fn texts_of_assistant_messages() {
    let text = |raw: &str| extract_last_assistant_text(raw);
    assert_eq!(text("{\"type\":\"system\",\"content\":\"x\"}"), None);
    assert_eq!(text("{\"type\":\"error\",\"content\":\"boom\"}"), some("[erreur] boom"));
    assert_eq!(text("{\"type\":\"error\",\"content\":{\"a\": 1}}"), some("[erreur] {\"a\":1}"));
    assert_eq!(text("{\"type\":\"error\"}"), some("[erreur] "));
    assert_eq!(
        text(
            "{\"message\":{\"content\":[{\"type\":\"text\",\"text\":\" a \"},{\"type\":\"tool\",\
             \"text\":\"no\"},{\"type\":\"text\",\"text\":\"  \"},{\"type\":\"text\",\"text\":\"b\"}]}}"
        ),
        some("a b")
    );
    assert_eq!(text("{\"message\":{\"content\":[]},\"content\":\"x\"}"), None);
    assert_eq!(text("{\"content\":\" flat \"}"), some("flat"));
    assert_eq!(text("{\"content\":\"  \"}"), None);
    assert_eq!(text("12345"), None);
    assert_eq!(text("  plain words "), some("plain words"));
    assert_eq!(text("abcd"), None);
    assert_eq!(text("abcde"), some("abcde"));
    assert_eq!(text("éé"), None);
    assert_eq!(text("ééé"), some("ééé"));
    assert_eq!(text(&"x".repeat(400)), some(&"x".repeat(300)));
    let long = format!("{{\"type\":\"error\",\"content\":\"{}\"}}", "x".repeat(300));
    assert_eq!(text(&long), some(&format!("[erreur] {}", "x".repeat(200))));
}

#[test]
fn what_was_read_decides_the_text() {
    assert_eq!(assistant_text_from(None, None, " some words "), some("some words"));
    let flat = Json::object().with_text("content", "flat");
    assert_eq!(assistant_text_from(Some(&flat), None, "?"), some("flat"));
    let error = Json::object().with_text("type", "error");
    assert_eq!(assistant_text_from(Some(&error), some("\"boom\""), "?"), some("[erreur] boom"));
}

#[test]
fn messages_of_a_session() {
    let rows = vec![
        row("{\"content\":\"{\\\"type\\\":\\\"system\\\"}\"}"),
        row("{\"content\":\"Done with it\"}"),
        row("{\"content\":\"older message\"}"),
    ];
    assert_eq!(last_assistant_message(&rows), some("Done with it"));
    assert_eq!(last_assistant_message(&vec![]), None);
    let asks = vec![
        row("{\"content\":\"ok\"}"),
        row("{\"content\":\"{\\\"content\\\":\\\"Fix the **login** page\\\"}\"}"),
    ];
    assert_eq!(first_user_message(&asks), some("Fix the login page"));
    assert_eq!(first_user_message(&vec![]), None);
}

#[test]
fn texts_of_user_messages() {
    let both = Json::object().with_text("text", "t").with_text("content", "c");
    assert_eq!(user_text_from(Some(&both), "raw"), "c");
    assert_eq!(user_text_from(Some(&Json::object().with_text("text", "t")), "raw"), "t");
    assert_eq!(user_text_from(Some(&Json::Text("s".to_string())), "raw"), "s");
    assert_eq!(user_text_from(Some(&Json::Int(1)), "raw"), "raw");
    assert_eq!(user_text_from(None, "raw"), "raw");
    assert_eq!(ask_from("abc"), None);
    assert_eq!(ask_from("abcd"), some("abcd"));
    assert_eq!(ask_from(&"x".repeat(200)), some(&"x".repeat(150)));
}

#[test]
fn the_state_of_the_worktrees() {
    let rows = vec![
        WorkspaceRows {
            workspace: row(
                "{\"project_name\":\"vox\",\"branch\":\"main\",\"workspace_path\":\"/w\",\
                 \"session_id\":\"s1\"}",
            ),
            sessions: vec![row(
                "{\"agent_type\":\"coder\",\"status\":\"idle\",\"unread_count\":2}",
            )],
            assistant_messages: vec![row("{\"content\":\"Done with it\"}")],
            user_messages: vec![row("{\"content\":\"Fix the login\"}")],
        },
        WorkspaceRows {
            workspace: row("{\"project_name\":\"app\",\"session_id\":null}"),
            sessions: vec![row("{\"status\":\"idle\"}")],
            assistant_messages: vec![],
            user_messages: vec![],
        },
        WorkspaceRows {
            workspace: row("{\"project_name\":\"lib\",\"session_id\":\"s3\"}"),
            sessions: vec![],
            assistant_messages: vec![],
            user_messages: vec![],
        },
        WorkspaceRows {
            workspace: row("{\"project_name\":\"web\",\"session_id\":\"s4\"}"),
            sessions: vec![row("{\"status\":\"error\",\"unread_count\":\"3\"}")],
            assistant_messages: vec![],
            user_messages: vec![],
        },
    ];
    let without = |project: &str| Workspace {
        project: project.to_string(),
        branch: String::new(),
        path: String::new(),
        session: None,
    };
    assert_eq!(
        read_state(&rows),
        vec![
            Workspace {
                project: "vox".to_string(),
                branch: "main".to_string(),
                path: "/w".to_string(),
                session: Some(SessionInfo {
                    agent: "coder".to_string(),
                    status: "idle".to_string(),
                    unread_count: 2,
                    preview: some("Done with it"),
                    original_ask: some("Fix the login"),
                }),
            },
            without("app"),
            without("lib"),
            Workspace {
                session: Some(SessionInfo {
                    agent: String::new(),
                    status: "error".to_string(),
                    unread_count: 0,
                    preview: None,
                    original_ask: None,
                }),
                ..without("web")
            },
        ]
    );
}

#[test]
fn snippets_lose_their_markup() {
    assert_eq!(
        clean_snippet("# Titre\n**Fini** le `code` de _base_. Et plus."),
        "Titre Fini le de base."
    );
    assert_eq!(clean_snippet("Avant ```rust\nlet x;\n``` après | fin"), "Avant après fin");
    assert_eq!(clean_snippet("Oui. Non."), "Oui. Non.");
    assert_eq!(clean_snippet(&"a".repeat(100)), "a".repeat(80));
    assert_eq!(clean_snippet("***gras*** et __souligné__ #1"), "gras et souligné 1");
    assert_eq!(snippet_from("whole text", some(" part. ")), "part.");
    assert_eq!(snippet_from(&format!("{} b", "a".repeat(79)), None), "a".repeat(79));
}

#[test]
fn snippets_are_tidy_and_short() {
    assert_eq!(clean_snippet("a ||\u{a0}\t b\r\n\n##\u{2003}c"), "a b c");
    assert_eq!(clean_snippet(&format!("{}. Suite.", "a".repeat(120))), format!("{}.", "a".repeat(120)));
    assert_eq!(clean_snippet(&format!("{}. Suite.", "a".repeat(121))), "a".repeat(80));
    assert_eq!(clean_snippet("123456789. Puis la fin ! Et plus."), "123456789. Puis la fin !");
    assert_eq!(clean_snippet("1234567890. Puis la fin !"), "1234567890.");
    assert_eq!(clean_snippet("Sans\nfin"), "Sans fin");
}
