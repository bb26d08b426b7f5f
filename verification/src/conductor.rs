//! Workspace state of Conductor: the queries on its database, and what their
//! rows say. The database is only ever read.
use vstd::prelude::*;

use crate::json::{
    compact, compact_member, int_of, items_of, json_of_bytes, json_of_text, lemma_trees, member,
    member2, plain, read_json, said, text_at, text_of, trees, value_of_bytes, value_of_text, Json,
    JsonTree,
};
use crate::pattern::{
    all_replaced, capture, law_the_first_sentence_ends_at_its_mark, replace_all, sentence_after, BARS, FENCED_BLOCK, FIRST_SENTENCE,
    HEADING, INLINE_CODE, SPACES, STARRED, UNDERSCORED,
};
use crate::text::{
    begins, cat2, cat3, cat5, collapsed, count, decimal, head, in_turn, is_blank, is_space, join, joined, keep_head,
    law_only_blank_texts_trim_to_nothing, lemma_collapsed,
    lemma_in_turn_itself, lemma_in_turn_more, lemma_in_turn_next, lemma_replaced_chars, lemma_replaced_not_shorter, lemma_trimmed_range, lower,
    replace, replaced, same, strip, substituted, to_decimal, to_lowercase, trim, trim_class,
    trimmed, Class,
};

verus! {

/// The latest session of a workspace.
#[derive(Debug, PartialEq)]
pub struct SessionInfo {
    pub agent: String,
    pub status: String,
    pub unread_count: i64,
    pub preview: Option<String>,
    /// The user's first message in the session: what this worktree was
    /// originally asked to do.
    pub original_ask: Option<String>,
}

/// A worktree in progress.
#[derive(Debug, PartialEq)]
pub struct Workspace {
    pub project: String,
    pub branch: String,
    pub path: String,
    pub session: Option<SessionInfo>,
}

#[verifier::ext_equal]
pub struct SessionView {
    pub agent: Seq<char>,
    pub status: Seq<char>,
    pub unread_count: int,
    pub preview: Option<Seq<char>>,
    pub original_ask: Option<Seq<char>>,
}

#[verifier::ext_equal]
pub struct WorkspaceView {
    pub project: Seq<char>,
    pub branch: Seq<char>,
    pub path: Seq<char>,
    pub session: Option<SessionView>,
}

impl View for SessionInfo {
    type V = SessionView;

    open spec fn view(&self) -> SessionView {
        SessionView {
            agent: self.agent@,
            status: self.status@,
            unread_count: self.unread_count as int,
            preview: self.preview.deep_view(),
            original_ask: self.original_ask.deep_view(),
        }
    }
}

impl View for Workspace {
    type V = WorkspaceView;

    open spec fn view(&self) -> WorkspaceView {
        WorkspaceView {
            project: self.project@,
            branch: self.branch@,
            path: self.path@,
            session: match self.session {
                Some(s) => Some(s@),
                None => None,
            },
        }
    }
}

/// What the workspaces of a list say.
pub open spec fn views(ws: Seq<Workspace>) -> Seq<WorkspaceView> {
    ws.map_values(|w: Workspace| w@)
}

// ── Queries ──────────────────────────────────────────────────────────────────

/// The arguments of the `sqlite3` command for a query. The database is opened
/// read-only.
pub fn sqlite_args(db: &str, query: &str) -> (r: Vec<String>)
    ensures
        r.deep_view() == seq!["-readonly"@, "-json"@, db@, query@],
{
    let mut args: Vec<String> = Vec::new();
    args.push("-readonly".to_owned());
    args.push("-json".to_owned());
    args.push(db.to_owned());
    args.push(query.to_owned());
    assert(args.deep_view() =~= seq!["-readonly"@, "-json"@, db@, query@]);
    args
}

/// The rows that a document holds: its items, or none where it is no list.
pub open spec fn rows_of(document: Option<JsonTree>) -> Seq<JsonTree> {
    match items_of(document) {
        Some(items) => items,
        None => Seq::empty(),
    }
}

/// The rows that a document holds.
pub fn rows_from(document: Option<Json>) -> (r: Vec<Json>)
    ensures
        trees(r@) == rows_of(document.deep_view()),
{
    match document {
        Some(Json::List(items)) => items,
        _ => Vec::new(),
    }
}

/// The rows in the output of a query; none where the query failed.
pub fn query_rows(success: bool, stdout: &[u8]) -> (r: Vec<Json>)
    ensures
        trees(r@) == (if success {
            rows_of(json_of_bytes(stdout@))
        } else {
            Seq::empty()
        }),
{
    if !success {
        return Vec::new();
    }
    match value_of_bytes(stdout) {
        Some(v) => rows_from(Some(plain(v))),
        None => Vec::new(),
    }
}

pub const WORKSPACES_QUERY: &'static str = "SELECT w.id, w.branch, w.workspace_name, w.workspace_path, r.name AS project_name, \
    (SELECT s.id FROM sessions s \
    WHERE s.workspace_id = w.id AND s.is_hidden = 0 \
    ORDER BY s.updated_at DESC LIMIT 1) AS session_id \
    FROM workspaces w \
    LEFT JOIN repos r ON w.repository_id = r.id \
    WHERE w.state = 'ready' AND w.derived_status = 'in-progress' \
    ORDER BY w.updated_at DESC LIMIT ";

/// The query for the worktrees in progress, the latest first.
pub fn workspaces_query(max_items: usize) -> (r: String)
    ensures
        r@ == WORKSPACES_QUERY@ + decimal(max_items as nat) + ";"@,
{
    cat3(WORKSPACES_QUERY, to_decimal(max_items as u128).as_str(), ";")
}

pub const SESSION_QUERY: &'static str = "SELECT id, status, agent_type, unread_count FROM sessions WHERE id='";

/// The query for a session.
pub fn session_query(session_id: &str) -> (r: String)
    ensures
        r@ == SESSION_QUERY@ + session_id@ + "';"@,
{
    cat3(SESSION_QUERY, session_id, "';")
}

pub const ASSISTANT_QUERY: &'static str = "SELECT content, sent_at FROM session_messages WHERE session_id='";

pub const ASSISTANT_QUERY_END: &'static str = "' AND role='assistant' ORDER BY sent_at DESC LIMIT 40;";

/// The query for the latest messages of the agent.
pub fn assistant_query(session_id: &str) -> (r: String)
    ensures
        r@ == ASSISTANT_QUERY@ + session_id@ + ASSISTANT_QUERY_END@,
{
    cat3(ASSISTANT_QUERY, session_id, ASSISTANT_QUERY_END)
}

pub const USER_QUERY: &'static str = "SELECT content FROM session_messages WHERE session_id='";

pub const USER_QUERY_END: &'static str = "' AND role='user' ORDER BY sent_at ASC LIMIT 3;";

/// The query for the first messages of the user.
pub fn user_query(session_id: &str) -> (r: String)
    ensures
        r@ == USER_QUERY@ + session_id@ + USER_QUERY_END@,
{
    cat3(USER_QUERY, session_id, USER_QUERY_END)
}

/// A spoken name as it stands inside a quoted literal of a query: trimmed, in
/// lower case, each quote doubled.
pub open spec fn needle(name: Seq<char>) -> Seq<char> {
    replaced(lower(trimmed(name)), Class::Only('\''), "''"@)
}

// An exact name outranks a branch that merely holds the name, so that a prompt
// never goes to the wrong worktree.
pub const PATH_QUERY_1: &'static str = "SELECT w.workspace_path, (lower(r.name) = '";

pub const PATH_QUERY_2: &'static str = "' OR lower(w.directory_name) = '";

pub const PATH_QUERY_3: &'static str = "' OR lower(w.workspace_name) = '";

pub const PATH_QUERY_4: &'static str = "') AS exact_match \
    FROM workspaces w \
    LEFT JOIN repos r ON w.repository_id = r.id \
    WHERE w.state = 'ready' AND w.workspace_path IS NOT NULL AND ( \
    lower(r.name) = '";

pub const PATH_QUERY_5: &'static str = "' OR lower(w.branch) LIKE '%";

pub const PATH_QUERY_6: &'static str = "%') ORDER BY exact_match DESC, w.updated_at DESC LIMIT 1;";

/// The query for the path of a worktree, with the needle in its seven places.
pub open spec fn path_query(n: Seq<char>) -> Seq<char> {
    PATH_QUERY_1@ + n + PATH_QUERY_2@ + n + PATH_QUERY_3@ + n + PATH_QUERY_4@ + n + PATH_QUERY_2@
        + n + PATH_QUERY_3@ + n + PATH_QUERY_5@ + n + PATH_QUERY_6@
}

/// The query for the worktree of a spoken name, which may be the name of the
/// repository, the directory or the workspace, or part of a branch. There is none
/// for a blank name, nor for one of more than 80 characters.
pub fn workspace_path_query(name: &str) -> (r: Option<String>)
    ensures
        match r {
            Some(q) => 0 < needle(name@).len() <= 80 && q@ == path_query(needle(name@)),
            None => needle(name@).len() == 0 || needle(name@).len() > 80,
        },
        trimmed(name@).len() == 0 || trimmed(name@).len() > 80 ==> r is None,
{
    let low = to_lowercase(trim(name).as_str());
    proof {
        reveal_strlit("''");
        lemma_replaced_not_shorter(low@, Class::Only('\''), "''"@);
    }
    let needle_text = replace(low.as_str(), &Class::Only('\''), "''");
    let n = needle_text.as_str();
    if n.is_empty() || count(n) > 80 {
        return None;
    }
    let a = cat5(PATH_QUERY_1, n, PATH_QUERY_2, n, PATH_QUERY_3);
    let b = cat5(a.as_str(), n, PATH_QUERY_4, n, PATH_QUERY_2);
    let c = cat5(b.as_str(), n, PATH_QUERY_3, n, PATH_QUERY_5);
    Some(cat3(c.as_str(), n, PATH_QUERY_6))
}

/// Whether quotes come in pairs only, so that a text stays inside a quoted
/// literal.
pub open spec fn quotes_paired(s: Seq<char>) -> bool
    decreases s.len(),
{
    if s.len() == 0 {
        true
    } else if s[0] == '\'' {
        s.len() >= 2 && s[1] == '\'' && quotes_paired(s.skip(2))
    } else {
        quotes_paired(s.skip(1))
    }
}

proof fn lemma_paired_concat(a: Seq<char>, b: Seq<char>)
    requires
        quotes_paired(a),
        quotes_paired(b),
    ensures
        quotes_paired(a + b),
        substituted(a + b, "''"@, "'"@) == substituted(a, "''"@, "'"@) + substituted(
            b,
            "''"@,
            "'"@,
        ),
    decreases a.len(),
{
    let two = "''"@;
    let one = "'"@;
    reveal_strlit("''");
    reveal_strlit("'");
    if a.len() == 0 {
        assert(a + b =~= b);
        assert(substituted(a, two, one) + substituted(b, two, one) =~= substituted(b, two, one));
    } else if a[0] == '\'' {
        lemma_paired_concat(a.skip(2), b);
        assert((a + b).skip(2) =~= a.skip(2) + b);
        assert(a.take(2) =~= two);
        assert((a + b).take(2) =~= two);
        assert(substituted(a + b, two, one) =~= substituted(a, two, one) + substituted(
            b,
            two,
            one,
        ));
    } else {
        lemma_paired_concat(a.skip(1), b);
        assert((a + b).skip(1) =~= a.skip(1) + b);
        assert(!begins(a, two)) by {
            if begins(a, two) {
                assert(a.take(2)[0] == a[0]);
            }
        }
        assert(!begins(a + b, two)) by {
            if begins(a + b, two) {
                assert((a + b).take(2)[0] == a[0]);
            }
        }
        assert(substituted(a + b, two, one) =~= substituted(a, two, one) + substituted(
            b,
            two,
            one,
        ));
    }
}

proof fn lemma_doubled(s: Seq<char>)
    ensures
        quotes_paired(replaced(s, Class::Only('\''), "''"@)),
        substituted(replaced(s, Class::Only('\''), "''"@), "''"@, "'"@) == s,
    decreases s.len(),
{
    let two = "''"@;
    let one = "'"@;
    reveal_strlit("''");
    reveal_strlit("'");
    reveal_with_fuel(quotes_paired, 3);
    reveal_with_fuel(substituted, 3);
    if s.len() > 0 {
        let t = s.drop_last();
        lemma_doubled(t);
        let before = replaced(t, Class::Only('\''), two);
        if s.last() == '\'' {
            assert(two.take(2) =~= two);
            assert(two.skip(2) =~= Seq::empty());
            assert(quotes_paired(two));
            assert(substituted(two, two, one) =~= one);
            lemma_paired_concat(before, two);
        } else {
            let c = seq![s.last()];
            assert(c.skip(1) =~= Seq::empty());
            assert(quotes_paired(c));
            assert(substituted(c, two, one) =~= c);
            lemma_paired_concat(before, c);
            assert(before.push(s.last()) =~= before + c);
        }
        assert(t.push(s.last()) =~= s);
        assert(t + seq![s.last()] =~= s);
        assert(s.last() == '\'' ==> one =~= seq![s.last()]);
    }
}

/// A spoken name never leaves the quoted literals of its query: its quotes come
/// in pairs, and undoubled they are the name that was looked for.
pub proof fn law_needle_stays_quoted(name: Seq<char>)
    ensures
        quotes_paired(needle(name)),
        substituted(needle(name), "''"@, "'"@) == lower(trimmed(name)),
{
    lemma_doubled(lower(trimmed(name)));
}

/// The text under a key, and the empty text where there is none.
pub open spec fn field(row: JsonTree, key: Seq<char>) -> Seq<char> {
    match text_at(row, key) {
        Some(s) => s,
        None => Seq::empty(),
    }
}

/// The text under a key of a row.
pub fn row_text(row: &Json, key: &str) -> (r: String)
    ensures
        r@ == field(row@, key@),
{
    match row.text(key) {
        Some(s) => s,
        None => String::new(),
    }
}

/// The path in the first row, where it is not empty.
pub open spec fn found_path(rows: Seq<JsonTree>) -> Option<Seq<char>> {
    if rows.len() > 0 && field(rows[0], "workspace_path"@).len() > 0 {
        Some(field(rows[0], "workspace_path"@))
    } else {
        None
    }
}

/// The path that the query for a worktree found.
pub fn find_workspace_path(rows: &Vec<Json>) -> (r: Option<String>)
    ensures
        r.deep_view() == found_path(trees(rows@)),
{
    proof {
        lemma_trees(rows@);
    }
    if rows.len() == 0 {
        return None;
    }
    let path = row_text(&rows[0], "workspace_path");
    if path.as_str().is_empty() {
        None
    } else {
        Some(path)
    }
}

// ── Messages ─────────────────────────────────────────────────────────────────

/// The trimmed texts of the text blocks, without the blank ones.
pub open spec fn text_blocks(items: Seq<JsonTree>) -> Seq<Seq<char>>
    decreases items.len(),
{
    if items.len() == 0 {
        Seq::empty()
    } else {
        let before = text_blocks(items.drop_last());
        let item = items.last();
        match text_at(item, "text"@) {
            Some(t) if text_at(item, "type"@) == Some("text"@) && trimmed(t).len() > 0 => {
                before.push(trimmed(t))
            },
            _ => before,
        }
    }
}

/// The first `n` characters of a text, where it is not blank.
pub open spec fn trimmed_head(s: Seq<char>, n: nat) -> Option<Seq<char>> {
    if trimmed(s).len() > 0 {
        Some(head(trimmed(s), n))
    } else {
        None
    }
}

/// The text in a message of an agent. Agents wrap their messages in different
/// ways: nothing of a system message; the content of an error, tagged; the text
/// blocks of a message with blocks; the content of a flat message; and a message
/// that is no JSON as it stands, if it is longer than four bytes.
pub open spec fn assistant_text(
    parsed: Option<JsonTree>,
    content: Option<Seq<char>>,
    raw: Seq<char>,
) -> Option<Seq<char>> {
    match parsed {
        Some(message) => {
            let kind = field(message, "type"@);
            if kind == "system"@ {
                None
            } else if kind == "error"@ {
                let shown = match content {
                    Some(c) => c,
                    None => Seq::empty(),
                };
                Some("[erreur] "@ + head(strip(shown, Class::Only('"')), 200))
            } else {
                match items_of(member2(message, "message"@, "content"@)) {
                    Some(items) => if text_blocks(items).len() > 0 {
                        Some(head(joined(text_blocks(items), " "@), 300))
                    } else {
                        None
                    },
                    None => match text_at(message, "content"@) {
                        Some(c) => trimmed_head(c, 300),
                        None => None,
                    },
                }
            }
        },
        None => if vstd::utf8::encode_utf8(trimmed(raw)).len() > 4 {
            Some(head(trimmed(raw), 300))
        } else {
            None
        },
    }
}

fn collect_text_blocks(items: &Vec<Json>) -> (r: Vec<String>)
    ensures
        r.deep_view() == text_blocks(trees(items@)),
{
    proof {
        lemma_trees(items@);
    }
    let mut out: Vec<String> = Vec::new();
    assert(out.deep_view() =~= Seq::empty());
    for i in 0..items.len()
        invariant
            trees(items@).len() == items@.len(),
            forall|j: int| 0 <= j < items@.len() ==> #[trigger] trees(items@)[j] == items@[j]@,
            out.deep_view() == text_blocks(trees(items@).take(i as int)),
    {
        let ghost was = out.deep_view();
        proof {
            let some = trees(items@).take(i + 1);
            assert(some.drop_last() =~= trees(items@).take(i as int));
            assert(some.last() == trees(items@)[i as int]);
        }
        let is_text = match items[i].text("type") {
            Some(kind) => same(kind.as_str(), "text"),
            None => false,
        };
        if is_text {
            if let Some(t) = items[i].text("text") {
                let t = trim(t.as_str());
                if !t.as_str().is_empty() {
                    let ghost words = t@;
                    out.push(t);
                    assert(out.deep_view() =~= was.push(words));
                }
            }
        }
    }
    assert(trees(items@).take(items@.len() as int) =~= trees(items@));
    out
}

fn cut_trimmed(s: &str, n: usize) -> (r: Option<String>)
    ensures
        r.deep_view() == trimmed_head(s@, n as nat),
{
    let t = trim(s);
    if t.as_str().is_empty() {
        None
    } else {
        Some(keep_head(t.as_str(), n))
    }
}

/// The text in a message that was read as `parsed`, with the text of its content
/// member.
pub fn assistant_text_from(parsed: Option<&Json>, content: Option<String>, raw: &str) -> (r: Option<
    String,
>)
    ensures
        r.deep_view() == assistant_text(said(parsed), content.deep_view(), raw@),
{
    match parsed {
        Some(message) => {
            let kind = row_text(message, "type");
            if same(kind.as_str(), "system") {
                return None;
            }
            if same(kind.as_str(), "error") {
                let shown = match content {
                    Some(c) => c,
                    None => String::new(),
                };
                let bare = trim_class(shown.as_str(), &Class::Only('"'));
                return Some(cat2("[erreur] ", keep_head(bare.as_str(), 200).as_str()));
            }
            if let Some(inner) = message.get2("message", "content") {
                if let Some(items) = inner.as_list() {
                    let texts = collect_text_blocks(items);
                    if texts.len() > 0 {
                        return Some(keep_head(join(&texts, " ").as_str(), 300));
                    }
                    return None;
                }
            }
            match message.text("content") {
                Some(c) => cut_trimmed(c.as_str(), 300),
                None => None,
            }
        },
        None => {
            let t = trim(raw);
            if t.as_str().as_bytes().len() > 4 {
                Some(keep_head(t.as_str(), 300))
            } else {
                None
            }
        },
    }
}

/// The compact text of the content member of a message.
pub open spec fn content_text(parsed: Option<JsonTree>) -> Option<Seq<char>> {
    match parsed {
        Some(message) => match member(message, "content"@) {
            Some(c) => Some(compact(c)),
            None => None,
        },
        None => None,
    }
}

/// The text in a raw message of an agent.
pub open spec fn message_text(raw: Seq<char>) -> Option<Seq<char>> {
    assistant_text(json_of_text(raw), content_text(json_of_text(raw)), raw)
}

/// Extracts the text from a message of an agent.
pub fn extract_last_assistant_text(raw: &str) -> (r: Option<String>)
    ensures
        r.deep_view() == message_text(raw@),
{
    match value_of_text(raw) {
        Some(v) => {
            let content = compact_member(&v, "content");
            let message = plain(v);
            assistant_text_from(Some(&message), content, raw)
        },
        None => assistant_text_from(None, None, raw),
    }
}

/// The text in the first of the rows that has any.
pub open spec fn first_assistant_text(rows: Seq<JsonTree>) -> Option<Seq<char>>
    decreases rows.len(),
{
    if rows.len() == 0 {
        None
    } else {
        match message_text(field(rows[0], "content"@)) {
            Some(t) => Some(t),
            None => first_assistant_text(rows.skip(1)),
        }
    }
}

/// The latest text among the messages of an agent, the latest message first.
pub fn last_assistant_message(rows: &Vec<Json>) -> (r: Option<String>)
    ensures
        r.deep_view() == first_assistant_text(trees(rows@)),
{
    proof {
        lemma_trees(rows@);
        assert(trees(rows@).skip(0) =~= trees(rows@));
    }
    for i in 0..rows.len()
        invariant
            trees(rows@).len() == rows@.len(),
            forall|j: int| 0 <= j < rows@.len() ==> #[trigger] trees(rows@)[j] == rows@[j]@,
            first_assistant_text(trees(rows@)) == first_assistant_text(trees(rows@).skip(i as int)),
    {
        proof {
            let rest = trees(rows@).skip(i as int);
            assert(rest[0] == trees(rows@)[i as int]);
            assert(rest.skip(1) =~= trees(rows@).skip(i + 1));
        }
        let found = extract_last_assistant_text(row_text(&rows[i], "content").as_str());
        if found.is_some() {
            return found;
        }
    }
    None
}

/// The text of a user message: its content, else its text member, else the
/// text that it is, else the raw message.
pub open spec fn user_text(parsed: Option<JsonTree>, raw: Seq<char>) -> Seq<char> {
    match parsed {
        Some(v) => match (text_at(v, "content"@), text_at(v, "text"@), text_of(Some(v))) {
            (Some(t), _, _) => t,
            (None, Some(t), _) => t,
            (None, None, Some(t)) => t,
            _ => raw,
        },
        None => raw,
    }
}

/// The text of a user message that was read as `parsed`.
pub fn user_text_from(parsed: Option<&Json>, raw: &str) -> (r: String)
    ensures
        r@ == user_text(said(parsed), raw@),
{
    if let Some(v) = parsed {
        if let Some(t) = v.text("content") {
            return t;
        }
        if let Some(t) = v.text("text") {
            return t;
        }
        if let Some(t) = v.as_text() {
            return t;
        }
    }
    raw.to_owned()
}

/// What a cleaned user message asks for: its first 150 characters, where it has
/// more than three.
pub open spec fn ask_of(snippet: Seq<char>) -> Option<Seq<char>> {
    if snippet.len() > 3 {
        Some(head(snippet, 150))
    } else {
        None
    }
}

/// What a cleaned user message asks for.
pub fn ask_from(snippet: &str) -> (r: Option<String>)
    ensures
        r.deep_view() == ask_of(snippet@),
{
    if count(snippet) > 3 {
        Some(keep_head(snippet, 150))
    } else {
        None
    }
}

/// What the first meaningful of the user messages asks for.
pub open spec fn first_ask(rows: Seq<JsonTree>) -> Option<Seq<char>>
    decreases rows.len(),
{
    if rows.len() == 0 {
        None
    } else {
        let raw = field(rows[0], "content"@);
        match ask_of(snippet(user_text(json_of_text(raw), raw))) {
            Some(t) => Some(t),
            None => first_ask(rows.skip(1)),
        }
    }
}

/// The original ask of a session: its first meaningful user message.
pub fn first_user_message(rows: &Vec<Json>) -> (r: Option<String>)
    ensures
        r.deep_view() == first_ask(trees(rows@)),
{
    proof {
        lemma_trees(rows@);
        assert(trees(rows@).skip(0) =~= trees(rows@));
    }
    for i in 0..rows.len()
        invariant
            trees(rows@).len() == rows@.len(),
            forall|j: int| 0 <= j < rows@.len() ==> #[trigger] trees(rows@)[j] == rows@[j]@,
            first_ask(trees(rows@)) == first_ask(trees(rows@).skip(i as int)),
    {
        proof {
            let rest = trees(rows@).skip(i as int);
            assert(rest[0] == trees(rows@)[i as int]);
            assert(rest.skip(1) =~= trees(rows@).skip(i + 1));
        }
        let raw = row_text(&rows[i], "content");
        let parsed = read_json(raw.as_str());
        let text = user_text_from(parsed.as_ref(), raw.as_str());
        let found = ask_from(clean_snippet(text.as_str()).as_str());
        if found.is_some() {
            return found;
        }
    }
    None
}

// ── Workspaces ───────────────────────────────────────────────────────────────

/// What the database says of one workspace: its row, and the rows of its latest
/// session.
pub struct WorkspaceRows {
    pub workspace: Json,
    pub sessions: Vec<Json>,
    pub assistant_messages: Vec<Json>,
    pub user_messages: Vec<Json>,
}

/// The workspace that the rows describe. It has a session where its row names one
/// and that session is found.
pub open spec fn workspace_of(rows: WorkspaceRows) -> WorkspaceView {
    let sessions = trees(rows.sessions@);
    WorkspaceView {
        project: field(rows.workspace@, "project_name"@),
        branch: field(rows.workspace@, "branch"@),
        path: field(rows.workspace@, "workspace_path"@),
        session: if field(rows.workspace@, "session_id"@).len() == 0 || sessions.len() == 0 {
            None
        } else {
            Some(
                SessionView {
                    agent: field(sessions[0], "agent_type"@),
                    status: field(sessions[0], "status"@),
                    unread_count: match int_of(
                        member(sessions[0], "unread_count"@),
                        i64::MIN as int,
                        i64::MAX as int,
                    ) {
                        Some(n) => n,
                        None => 0,
                    },
                    preview: first_assistant_text(trees(rows.assistant_messages@)),
                    original_ask: first_ask(trees(rows.user_messages@)),
                },
            )
        },
    }
}

fn read_workspace(rows: &WorkspaceRows) -> (r: Workspace)
    ensures
        r@ == workspace_of(*rows),
{
    proof {
        lemma_trees(rows.sessions@);
    }
    let session_id = row_text(&rows.workspace, "session_id");
    let session = if session_id.as_str().is_empty() || rows.sessions.len() == 0 {
        None
    } else {
        let row = &rows.sessions[0];
        let unread_count: i64 = match row.get("unread_count") {
            Some(n) => match n.as_i64() {
                Some(n) => n,
                None => 0,
            },
            None => 0,
        };
        Some(
            SessionInfo {
                agent: row_text(row, "agent_type"),
                status: row_text(row, "status"),
                unread_count,
                preview: last_assistant_message(&rows.assistant_messages),
                original_ask: first_user_message(&rows.user_messages),
            },
        )
    };
    Workspace {
        project: row_text(&rows.workspace, "project_name"),
        branch: row_text(&rows.workspace, "branch"),
        path: row_text(&rows.workspace, "workspace_path"),
        session,
    }
}

/// The workspaces that the rows describe, in their order.
pub fn read_state(rows: &Vec<WorkspaceRows>) -> (r: Vec<Workspace>)
    ensures
        views(r@) == rows@.map_values(|w: WorkspaceRows| workspace_of(w)),
{
    let mut out: Vec<Workspace> = Vec::new();
    for i in 0..rows.len()
        invariant
            out@.len() == i,
            forall|j: int| 0 <= j < i ==> #[trigger] out@[j]@ == workspace_of(rows@[j]),
    {
        out.push(read_workspace(&rows[i]));
    }
    assert(views(out@) =~= rows@.map_values(|w: WorkspaceRows| workspace_of(w)));
    out
}

// ── Snippets ─────────────────────────────────────────────────────────────────

/// A text without its markup, on one line: code blocks, inline code, emphasis
/// marks, heading marks and bars go, in this order, and white space shrinks to
/// single spaces.
pub open spec fn without_markup(raw: Seq<char>) -> Seq<char> {
    let a = all_replaced(FENCED_BLOCK@, raw, ""@);
    let b = all_replaced(INLINE_CODE@, a, ""@);
    let c = all_replaced(STARRED@, b, "$1"@);
    let d = all_replaced(UNDERSCORED@, c, "$1"@);
    let e = all_replaced(HEADING@, d, ""@);
    trimmed(collapsed(replaced(e, Class::Bars, ""@)))
}

/// What is kept of a text: its first sentence, where one was found, and else its
/// first 80 characters.
pub open spec fn kept(text: Seq<char>, sentence: Option<Seq<char>>) -> Seq<char> {
    match sentence {
        Some(m) => trimmed(m),
        None => trimmed(head(text, 80)),
    }
}

/// What is kept of a text whose first sentence is `sentence`.
pub fn snippet_from(text: &str, sentence: Option<String>) -> (r: String)
    ensures
        r@ == kept(text@, sentence.deep_view()),
{
    match sentence {
        Some(m) => trim(m.as_str()),
        None => trim(keep_head(text, 80).as_str()),
    }
}

/// The snippet of a message that can be read aloud or shown on a card.
pub open spec fn snippet(raw: Seq<char>) -> Seq<char> {
    kept(without_markup(raw), sentence_after(without_markup(raw), 10))
}

/// Whether a text is on one line, with single spaces for all its white space, and
/// without a bar or a hash.
pub open spec fn tidy(s: Seq<char>) -> bool {
    &&& forall|i: int|
        0 <= i < s.len() ==> #[trigger] s[i] != '|' && s[i] != '#' && (is_space(s[i]) ==> s[i] == ' ')
    &&& forall|i: int| 0 < i < s.len() ==> #[trigger] s[i] != ' ' || s[i - 1] != ' '
}

proof fn lemma_tidy_trimmed(s: Seq<char>)
    requires
        tidy(s),
    ensures
        tidy(trimmed(s)),
        trimmed(s).len() <= s.len(),
{
    let (x, y) = lemma_trimmed_range(s);
    let t = trimmed(s);
    assert(forall|i: int| 0 <= i < t.len() ==> #[trigger] t[i] == s[i + x]);
    assert forall|i: int| 0 < i < t.len() implies #[trigger] t[i] != ' ' || t[i - 1] != ' ' by {
        assert(t[i - 1] == s[i - 1 + x]);
        assert(t[i] == s[i + x]);
    }
}

proof fn lemma_tidy_without_markup(raw: Seq<char>)
    ensures
        tidy(without_markup(raw)),
{
    reveal_strlit("");
    let a = all_replaced(FENCED_BLOCK@, raw, ""@);
    let b = all_replaced(INLINE_CODE@, a, ""@);
    let c = all_replaced(STARRED@, b, "$1"@);
    let d = all_replaced(UNDERSCORED@, c, "$1"@);
    let e = all_replaced(HEADING@, d, ""@);
    let f = replaced(e, Class::Bars, ""@);
    let g = collapsed(f);
    lemma_replaced_chars(e, Class::Bars, ""@);
    lemma_collapsed(f);
    assert forall|i: int| 0 <= i < g.len() implies #[trigger] g[i] != '|' && g[i] != '#' && (
    is_space(g[i]) ==> g[i] == ' ') by {
        assert(g.contains(g[i]));
        if g[i] != ' ' {
            assert(f.contains(g[i]));
        }
    }
    lemma_tidy_trimmed(g);
}

proof fn lemma_sentence_after(s: Seq<char>, n: nat)
    ensures
        sentence_after(s, n) matches Some(m) ==> m.len() <= 121 && m.len() <= s.len() && m
            == s.take(m.len() as int),
    decreases 121 - n,
{
    if n <= 120 {
        lemma_sentence_after(s, n + 1);
    }
}

/// A snippet is tidy and short, whatever the message: one line with single spaces, no
/// table bar and no hash, and at most 121 characters.
pub proof fn law_snippets_are_tidy(raw: Seq<char>)
    ensures
        tidy(snippet(raw)),
        snippet(raw).len() <= 121,
{
    let t = without_markup(raw);
    lemma_tidy_without_markup(raw);
    lemma_sentence_after(t, 10);
    match sentence_after(t, 10) {
        Some(m) => lemma_tidy_trimmed(m),
        None => lemma_tidy_trimmed(head(t, 80)),
    }
}

/// Cleans a message down to a snippet.
pub fn clean_snippet(raw: &str) -> (r: String)
    ensures
        r@ == snippet(raw@),
        tidy(r@),
        r@.len() <= 121,
{
    proof {
        reveal_strlit("");
        law_snippets_are_tidy(raw@);
    }
    let a = replace_all(FENCED_BLOCK, raw, "");
    let b = replace_all(INLINE_CODE, a.as_str(), "");
    let c = replace_all(STARRED, b.as_str(), "$1");
    let d = replace_all(UNDERSCORED, c.as_str(), "$1");
    let e = replace_all(HEADING, d.as_str(), "");
    let f = replace_all(BARS, e.as_str(), "");
    let g = replace_all(SPACES, f.as_str(), " ");
    let t = trim(g.as_str());
    let sentence = capture(FIRST_SENTENCE, t.as_str(), 1);
    snippet_from(t.as_str(), sentence)
}

// ── Laws ─────────────────────────────────────────────────────────────────────

/// A field of a row is the text under its key, and empty where there is no text.
pub proof fn law_a_field_is_the_text_under_its_key(row: JsonTree, key: Seq<char>, text: Seq<char>)
    ensures
        member(row, key) == Some(JsonTree::Text(text)) ==> field(row, key) == text,
        !(member(row, key) matches Some(JsonTree::Text(_))) ==> field(row, key).len() == 0,
{
}

/// The latest text of an agent is that of the first message with any, however many messages
/// without a text come before it; there is none only where no message has one.
pub proof fn law_the_latest_text_is_found(rows: Seq<JsonTree>, k: int)
    ensures
        0 <= k < rows.len() && message_text(field(rows[k], "content"@)) is Some && (forall|j: int|
            0 <= j < k ==> message_text(field(#[trigger] rows[j], "content"@)) is None)
            ==> first_assistant_text(rows) == message_text(field(rows[k], "content"@)),
        first_assistant_text(rows) is None <==> forall|j: int|
            0 <= j < rows.len() ==> message_text(field(#[trigger] rows[j], "content"@)) is None,
    decreases rows.len(),
{
    if rows.len() > 0 {
        let rest = rows.skip(1);
        law_the_latest_text_is_found(rest, k - 1);
        if 0 < k < rows.len() {
            assert(rest[k - 1] == rows[k]);
        }
        if forall|j: int|
            0 <= j < k ==> message_text(field(#[trigger] rows[j], "content"@)) is None {
            assert forall|j: int| 0 <= j < k - 1 && j < rest.len() implies message_text(
                field(#[trigger] rest[j], "content"@),
            ) is None by {
                assert(rest[j] == rows[j + 1]);
            }
            if 0 < k < rows.len() {
                assert(message_text(field(rows[0], "content"@)) is None);
            }
        }
        if forall|j: int|
            0 <= j < rows.len() ==> message_text(field(#[trigger] rows[j], "content"@)) is None {
            assert(message_text(field(rows[0], "content"@)) is None);
            assert forall|j: int| 0 <= j < rest.len() implies message_text(
                field(#[trigger] rest[j], "content"@),
            ) is None by {
                assert(rest[j] == rows[j + 1]);
            }
        }
        if first_assistant_text(rows) is None {
            assert forall|j: int| 0 <= j < rows.len() implies message_text(
                field(#[trigger] rows[j], "content"@),
            ) is None by {
                if j > 0 {
                    assert(rest[j - 1] == rows[j]);
                }
            }
        }
    }
}

/// What the user asks for in a row.
pub open spec fn ask_in(row: JsonTree) -> Option<Seq<char>> {
    let raw = field(row, "content"@);
    ask_of(snippet(user_text(json_of_text(raw), raw)))
}

/// The original ask is that of the first meaningful message of the user, however many others
/// come before it; there is none only where no message is meaningful.
pub proof fn law_the_original_ask_is_found(rows: Seq<JsonTree>, k: int)
    ensures
        0 <= k < rows.len() && ask_in(rows[k]) is Some && (forall|j: int|
            0 <= j < k ==> ask_in(#[trigger] rows[j]) is None) ==> first_ask(rows) == ask_in(
            rows[k],
        ),
        first_ask(rows) is None <==> forall|j: int|
            0 <= j < rows.len() ==> ask_in(#[trigger] rows[j]) is None,
    decreases rows.len(),
{
    if rows.len() > 0 {
        let rest = rows.skip(1);
        law_the_original_ask_is_found(rest, k - 1);
        if 0 < k < rows.len() {
            assert(rest[k - 1] == rows[k]);
        }
        if forall|j: int| 0 <= j < k ==> ask_in(#[trigger] rows[j]) is None {
            assert forall|j: int| 0 <= j < k - 1 && j < rest.len() implies ask_in(
                #[trigger] rest[j],
            ) is None by {
                assert(rest[j] == rows[j + 1]);
            }
            if 0 < k < rows.len() {
                assert(ask_in(rows[0]) is None);
            }
        }
        if forall|j: int| 0 <= j < rows.len() ==> ask_in(#[trigger] rows[j]) is None {
            assert(ask_in(rows[0]) is None);
            assert forall|j: int| 0 <= j < rest.len() implies ask_in(#[trigger] rest[j]) is None by {
                assert(rest[j] == rows[j + 1]);
            }
        }
        if first_ask(rows) is None {
            assert forall|j: int| 0 <= j < rows.len() implies ask_in(#[trigger] rows[j]) is None by {
                if j > 0 {
                    assert(rest[j - 1] == rows[j]);
                }
            }
        }
    }
}

/// A message of the user that is not JSON asks for what it says; one that is asks for the
/// text of its content, else for that of its text member, else for the text that it is. An
/// ask has more than three characters, and at most 150 of them are kept, from the front.
pub proof fn law_what_the_user_asks_for(raw: Seq<char>, v: JsonTree, text: Seq<char>)
    ensures
        user_text(None, raw) == raw,
        member(v, "content"@) == Some(JsonTree::Text(text)) ==> user_text(Some(v), raw) == text,
        !(member(v, "content"@) matches Some(JsonTree::Text(_))) && member(v, "text"@) == Some(
            JsonTree::Text(text),
        ) ==> user_text(Some(v), raw) == text,
        user_text(Some(JsonTree::Text(text)), raw) == text,
        !(member(v, "content"@) matches Some(JsonTree::Text(_))) && !(member(v, "text"@) matches
            Some(JsonTree::Text(_))) && !(v is Text) ==> user_text(Some(v), raw) == raw,
        ask_of(text) is Some <==> text.len() > 3,
        ask_of(text) matches Some(a) ==> begins(text, a) && (a == text || a.len() == 150),
        3 < text.len() <= 150 ==> ask_of(text) == Some(text),
{
    assert(text.take(text.len() as int) =~= text);
}

/// The text blocks of a message are gathered stretch by stretch: of a single item what is
/// left of its text without the white space around it, where its type is "text" and the
/// text is not blank, and else nothing.
pub proof fn law_text_blocks_are_gathered(
    a: Seq<JsonTree>,
    b: Seq<JsonTree>,
    item: JsonTree,
    text: Seq<char>,
)
    ensures
        text_blocks(a + b) == text_blocks(a) + text_blocks(b),
        member(item, "type"@) == Some(JsonTree::Text("text"@)) && member(item, "text"@) == Some(
            JsonTree::Text(text),
        ) && !is_blank(text) ==> text_blocks(seq![item]) == seq![trimmed(text)],
        member(item, "type"@) != Some(JsonTree::Text("text"@)) ==> text_blocks(seq![item]).len()
            == 0,
        !(member(item, "text"@) matches Some(JsonTree::Text(t)) && !is_blank(t)) ==> text_blocks(
            seq![item],
        ).len() == 0,
    decreases b.len(),
{
    reveal_with_fuel(text_blocks, 2);
    assert(seq![item].drop_last() =~= Seq::empty());
    law_only_blank_texts_trim_to_nothing(text);
    if let Some(JsonTree::Text(t)) = member(item, "text"@) {
        law_only_blank_texts_trim_to_nothing(t);
    }
    assert(text_blocks(Seq::<JsonTree>::empty()).push(trimmed(text)) =~= seq![trimmed(text)]);
    if b.len() == 0 {
        assert(a + b =~= a);
        assert(text_blocks(a) + text_blocks(b) =~= text_blocks(a));
    } else {
        law_text_blocks_are_gathered(a, b.drop_last(), item, text);
        assert((a + b).drop_last() =~= a + b.drop_last());
        assert(text_blocks(a + b) =~= text_blocks(a) + text_blocks(b));
    }
}

/// What a message of an agent says goes by its kind. A system message says nothing. An error
/// says at most 200 characters of its content, behind a tag. A message with blocks says their
/// texts, with spaces between them and at most 300 characters of them; one with a flat
/// content says that; and one that is no JSON says itself, where it is longer than four bytes.
/// What is said has no white space around it before it is cut.
pub proof fn law_messages_speak_by_their_kind(
    raw: Seq<char>,
    m: JsonTree,
    items: Seq<JsonTree>,
    content: JsonTree,
    text: Seq<char>,
)
    ensures
        json_of_text(raw) == Some(m) && member(m, "type"@) == Some(JsonTree::Text("system"@))
            ==> message_text(raw) is None,
        json_of_text(raw) == Some(m) && member(m, "type"@) == Some(JsonTree::Text("error"@))
            && member(m, "content"@) == Some(content) ==> (message_text(raw) matches Some(t)
            && begins(t, "[erreur] "@) && t.len() <= "[erreur] "@.len() + 200 && t.skip(
            "[erreur] "@.len() as int,
        ) == head(strip(compact(content), Class::Only('"')), 200)),
        json_of_text(raw) == Some(m) && member(m, "type"@) != Some(JsonTree::Text("system"@))
            && member(m, "type"@) != Some(JsonTree::Text("error"@)) && member2(
            m,
            "message"@,
            "content"@,
        ) == Some(JsonTree::List(items)) ==> {
            &&& message_text(raw) is None <==> text_blocks(items).len() == 0
            &&& message_text(raw) matches Some(t) ==> t == head(
                joined(text_blocks(items), " "@),
                300,
            )
        },
        json_of_text(raw) == Some(m) && member(m, "type"@) != Some(JsonTree::Text("system"@))
            && member(m, "type"@) != Some(JsonTree::Text("error"@)) && !(member2(
            m,
            "message"@,
            "content"@,
        ) matches Some(JsonTree::List(_))) && member(m, "content"@) == Some(JsonTree::Text(text))
            ==> {
            &&& is_blank(text) ==> message_text(raw) is None
            &&& !is_blank(text) ==> message_text(raw) == Some(head(trimmed(text), 300))
        },
        json_of_text(raw) is None ==> {
            &&& vstd::utf8::encode_utf8(trimmed(raw)).len() <= 4 ==> message_text(raw) is None
            &&& vstd::utf8::encode_utf8(trimmed(raw)).len() > 4 ==> message_text(raw) == Some(
                head(trimmed(raw), 300),
            )
        },
{
    reveal_strlit("system");
    reveal_strlit("error");
    assert("system"@.len() == 6);
    assert("error"@.len() == 5);
    law_only_blank_texts_trim_to_nothing(text);
    let tag = "[erreur] "@;
    let rest = head(strip(compact(content), Class::Only('"')), 200);
    assert((tag + rest).take(tag.len() as int) =~= tag);
    assert((tag + rest).skip(tag.len() as int) =~= rest);
}

/// A worktree is read from its own rows: its name, branch and path from the row of the
/// workspace; agent, status and unread count from the first row of its session; and the
/// latest text and the original ask from the messages of that session.
pub proof fn law_a_worktree_is_read_from_its_rows(rows: WorkspaceRows, n: int)
    ensures
        workspace_of(rows).project == field(rows.workspace@, "project_name"@),
        workspace_of(rows).branch == field(rows.workspace@, "branch"@),
        workspace_of(rows).path == field(rows.workspace@, "workspace_path"@),
        workspace_of(rows).session is Some <==> field(rows.workspace@, "session_id"@).len() > 0
            && rows.sessions@.len() > 0,
        workspace_of(rows).session matches Some(s) ==> {
            &&& s.agent == field(rows.sessions@[0]@, "agent_type"@)
            &&& s.status == field(rows.sessions@[0]@, "status"@)
            &&& s.preview == first_assistant_text(trees(rows.assistant_messages@))
            &&& s.original_ask == first_ask(trees(rows.user_messages@))
            &&& member(rows.sessions@[0]@, "unread_count"@) == Some(JsonTree::Int(n)) && i64::MIN
                <= n <= i64::MAX ==> s.unread_count == n
            &&& !(member(rows.sessions@[0]@, "unread_count"@) matches Some(JsonTree::Int(_)))
                ==> s.unread_count == 0
        },
{
    lemma_trees(rows.sessions@);
}

/// A prompt goes to the worktree of the first row, where that has a path.
pub proof fn law_the_first_row_has_the_path(rows: Seq<JsonTree>, path: Seq<char>)
    ensures
        rows.len() > 0 && path.len() > 0 && member(rows[0], "workspace_path"@) == Some(
            JsonTree::Text(path),
        ) ==> found_path(rows) == Some(path),
        rows.len() == 0 ==> found_path(rows) is None,
        rows.len() > 0 && !(member(rows[0], "workspace_path"@) matches Some(JsonTree::Text(p))
            && p.len() > 0) ==> found_path(rows) is None,
{
}

/// The rows of a query are the items of the list that it printed, all of them in order; what
/// is no list has none.
pub proof fn law_rows_are_the_items_of_the_list(items: Seq<JsonTree>, document: Option<JsonTree>)
    ensures
        rows_of(Some(JsonTree::List(items))) == items,
        !(document matches Some(JsonTree::List(_))) ==> rows_of(document).len() == 0,
{
}

/// The latest text that is handed out is that of the first row with any, however many rows
/// without a text come before it.
pub proof fn law_the_latest_text_is_handed_out(rows: &Vec<Json>, r: Option<String>, k: int)
    requires
        call_ensures(last_assistant_message, (rows,), r),
    ensures
        0 <= k < rows@.len() && message_text(field(rows@[k]@, "content"@)) is Some && (forall|j: int|
            0 <= j < k ==> message_text(field((#[trigger] rows@[j])@, "content"@)) is None) ==> (
        r matches Some(t) && Some(t@) == message_text(field(rows@[k]@, "content"@))),
        r is None <==> forall|j: int|
            0 <= j < rows@.len() ==> message_text(field((#[trigger] rows@[j])@, "content"@)) is None,
{
    let all = trees(rows@);
    lemma_trees(rows@);
    law_the_latest_text_is_found(all, k);
    if forall|j: int|
        0 <= j < k ==> message_text(field((#[trigger] rows@[j])@, "content"@)) is None {
        assert forall|j: int| 0 <= j < k && k < all.len() implies message_text(
            field(#[trigger] all[j], "content"@),
        ) is None by {
            assert(all[j] == rows@[j]@);
        }
    }
    if forall|j: int|
        0 <= j < rows@.len() ==> message_text(field((#[trigger] rows@[j])@, "content"@)) is None {
        assert forall|j: int| 0 <= j < all.len() implies message_text(
            field(#[trigger] all[j], "content"@),
        ) is None by {
            assert(all[j] == rows@[j]@);
        }
    }
    if r is None {
        assert forall|j: int| 0 <= j < rows@.len() implies message_text(
            field((#[trigger] rows@[j])@, "content"@),
        ) is None by {
            assert(all[j] == rows@[j]@);
        }
    }
}

/// The worktrees that are handed out are those of the rows, all of them in order, each with its
/// own fields, latest text and original ask.
pub proof fn law_every_worktree_is_handed_out(rows: &Vec<WorkspaceRows>, r: Vec<Workspace>, i: int)
    requires
        call_ensures(read_state, (rows,), r),
        0 <= i < rows@.len(),
    ensures
        r@.len() == rows@.len(),
        r@[i].project@ == field(rows@[i].workspace@, "project_name"@),
        r@[i].branch@ == field(rows@[i].workspace@, "branch"@),
        r@[i].path@ == field(rows@[i].workspace@, "workspace_path"@),
        r@[i].session is Some <==> field(rows@[i].workspace@, "session_id"@).len() > 0
            && rows@[i].sessions@.len() > 0,
        r@[i].session matches Some(s) ==> {
            &&& s.agent@ == field(rows@[i].sessions@[0]@, "agent_type"@)
            &&& s.status@ == field(rows@[i].sessions@[0]@, "status"@)
            &&& s.preview.deep_view() == first_assistant_text(trees(rows@[i].assistant_messages@))
            &&& s.original_ask.deep_view() == first_ask(trees(rows@[i].user_messages@))
        },
{
    assert(views(r@).len() == r@.len());
    assert(views(r@)[i] == r@[i]@);
    law_a_worktree_is_read_from_its_rows(rows@[i], 0);
}

/// A worktree is looked up for a name of at most 80 characters in lower case, and a blank name
/// is not looked up.
pub proof fn law_ordinary_names_are_looked_up(name: &str, r: Option<String>)
    requires
        call_ensures(workspace_path_query, (name,), r),
    ensures
        r is Some <==> 0 < needle(name@).len() <= 80,
        is_blank(name@) ==> r is None,
        r matches Some(q) ==> q@ == path_query(needle(name@)),
{
    law_only_blank_texts_trim_to_nothing(name@);
}

/// A snippet that is handed out is on one line, and at most 121 characters long.
pub proof fn law_handed_out_snippets_are_tidy(raw: &str, r: String)
    requires
        call_ensures(clean_snippet, (raw,), r),
    ensures
        r@ == snippet(raw@),
        tidy(r@),
        r@.len() <= 121,
{
    law_snippets_are_tidy(raw@);
}

/// A snippet is the first sentence of the cleaned message, where its end mark comes behind at
/// least ten and at most 120 characters, and else the first 80 characters of it; either way
/// without white space around it.
pub proof fn law_a_snippet_is_the_first_sentence(raw: Seq<char>, k: int)
    requires
        10 <= k,
        forall|j: int|
            10 <= j < k && j < without_markup(raw).len() ==> #[trigger] without_markup(raw)[j]
                != '.' && without_markup(raw)[j] != '!' && without_markup(raw)[j] != '?',
    ensures
        k <= 120 && k < without_markup(raw).len() && (without_markup(raw)[k] == '.'
            || without_markup(raw)[k] == '!' || without_markup(raw)[k] == '?') ==> snippet(raw)
            == trimmed(without_markup(raw).take(k + 1)),
        k >= without_markup(raw).len() || k > 120 ==> snippet(raw) == trimmed(
            head(without_markup(raw), 80),
        ),
{
    let t = without_markup(raw);
    lemma_tidy_without_markup(raw);
    assert forall|j: int| 0 <= j < k && j < t.len() implies #[trigger] t[j] != '\n' by {
        assert(is_space(t[j]) ==> t[j] == ' ');
    }
    law_the_first_sentence_ends_at_its_mark(t, 10, k);
}

/// A query runs read-only on the database that is given, and is handed over as it is; what it
/// printed is read row by row, and a query that failed has no rows.
pub proof fn law_queries_only_read(
    db: &str,
    query: &str,
    args: Vec<String>,
    stdout: &[u8],
    rows: Vec<Json>,
    failed: Vec<Json>,
    items: Seq<JsonTree>,
)
    requires
        call_ensures(sqlite_args, (db, query), args),
        call_ensures(query_rows, (true, stdout), rows),
        call_ensures(query_rows, (false, stdout), failed),
    ensures
        args@.len() == 4,
        args@[0]@ == "-readonly"@,
        args@[2]@ == db@,
        args@[3]@ == query@,
        json_of_bytes(stdout@) == Some(JsonTree::List(items)) ==> trees(rows@) == items,
        failed@.len() == 0,
{
    let v = args.deep_view();
    assert(v.len() == args@.len());
    assert(v[0] == args@[0]@);
    assert(v[2] == args@[2]@);
    assert(v[3] == args@[3]@);
    lemma_trees(failed@);
}

/// The queries ask for what they are given: so many worktrees, and the messages of that session,
/// the latest of the agent first and the first of the user first.
pub proof fn law_queries_ask_for_what_they_are_given(
    n: usize,
    id: &str,
    worktrees: String,
    session: String,
    agent: String,
    user: String,
)
    requires
        call_ensures(workspaces_query, (n,), worktrees),
        call_ensures(session_query, (id,), session),
        call_ensures(assistant_query, (id,), agent),
        call_ensures(user_query, (id,), user),
    ensures
        in_turn(worktrees@, seq![WORKSPACES_QUERY@, decimal(n as nat)]),
        in_turn(session@, seq![SESSION_QUERY@, id@]),
        in_turn(agent@, seq![ASSISTANT_QUERY@, id@, ASSISTANT_QUERY_END@]),
        in_turn(user@, seq![USER_QUERY@, id@, USER_QUERY_END@]),
{
    lemma_three_in_turn(WORKSPACES_QUERY@, decimal(n as nat), ";"@);
    lemma_three_in_turn(SESSION_QUERY@, id@, "';"@);
    lemma_three_in_turn(ASSISTANT_QUERY@, id@, ASSISTANT_QUERY_END@);
    lemma_three_in_turn(USER_QUERY@, id@, USER_QUERY_END@);
}

proof fn lemma_three_in_turn(a: Seq<char>, b: Seq<char>, c: Seq<char>)
    ensures
        in_turn(a + b + c, seq![a, b]),
        in_turn(a + b + c, seq![a, b, c]),
{
    let e = Seq::<char>::empty();
    lemma_in_turn_itself(a);
    lemma_in_turn_next(a, seq![a], e, b);
    assert(a + e =~= a);
    assert(seq![a].push(b) =~= seq![a, b]);
    lemma_in_turn_next(a + b, seq![a, b], e, c);
    assert(a + b + e =~= a + b);
    assert(seq![a, b].push(c) =~= seq![a, b, c]);
    lemma_in_turn_more(a + b, c, seq![a, b]);
}

/// A prompt goes to the path in the first row, and the ask of a session is that of its first
/// meaningful message.
pub proof fn law_the_found_path_is_handed_out(
    rows: &Vec<Json>,
    r: Option<String>,
    asked: Option<String>,
    raw: &str,
    text: Option<String>,
    path: Seq<char>,
)
    requires
        call_ensures(find_workspace_path, (rows,), r),
        call_ensures(first_user_message, (rows,), asked),
        call_ensures(extract_last_assistant_text, (raw,), text),
    ensures
        rows@.len() > 0 && path.len() > 0 && member(rows@[0]@, "workspace_path"@) == Some(
            JsonTree::Text(path),
        ) ==> (r matches Some(p) && p@ == path),
        rows@.len() == 0 ==> r is None,
        asked.deep_view() == first_ask(trees(rows@)),
        text.deep_view() == message_text(raw@),
{
    lemma_trees(rows@);
    law_the_first_row_has_the_path(trees(rows@), path);
}

/// What is said of a worktree is what it holds.
pub proof fn law_a_worktree_says_what_it_holds(w: Workspace, ws: Seq<Workspace>, i: int)
    ensures
        w@.project == w.project@,
        w@.branch == w.branch@,
        w@.path == w.path@,
        w@.session is Some <==> w.session is Some,
        w.session matches Some(s) ==> {
            &&& w@.session->0.agent == s.agent@
            &&& w@.session->0.status == s.status@
            &&& w@.session->0.unread_count == s.unread_count
            &&& w@.session->0.preview == s.preview.deep_view()
            &&& w@.session->0.original_ask == s.original_ask.deep_view()
        },
        views(ws).len() == ws.len(),
        0 <= i < ws.len() ==> views(ws)[i] == ws[i]@,
{
}

/// Markup makes no difference: two messages that are the same once code blocks, inline code,
/// emphasis and heading marks are gone, in this order, have the same snippet.
pub proof fn law_markup_makes_no_difference(x: Seq<char>, y: Seq<char>)
    requires
        all_replaced(
            HEADING@,
            all_replaced(
                UNDERSCORED@,
                all_replaced(
                    STARRED@,
                    all_replaced(INLINE_CODE@, all_replaced(FENCED_BLOCK@, x, ""@), ""@),
                    "$1"@,
                ),
                "$1"@,
            ),
            ""@,
        ) == all_replaced(
            HEADING@,
            all_replaced(
                UNDERSCORED@,
                all_replaced(
                    STARRED@,
                    all_replaced(INLINE_CODE@, all_replaced(FENCED_BLOCK@, y, ""@), ""@),
                    "$1"@,
                ),
                "$1"@,
            ),
            ""@,
        ),
    ensures
        snippet(x) == snippet(y),
{
}

} // verus!
