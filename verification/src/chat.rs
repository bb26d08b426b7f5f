//! The requests to the model, and how its replies are read, at once or as they
//! stream in.
use vstd::prelude::*;

use crate::json::{
    add_item, items_of, json_of_text, law_an_added_member_is_found, lemma_keys_stay,
    lemma_trees, member, member2,
    no_members, read_json, said, text_at, text_list, trees, with_member, Json, JsonTree,
};
use crate::sentences::{
    last_words, law_deltas_do_not_matter, remainder, sentences, split_sentences, spoken,
    SentenceBuffer,
};
use crate::text::{
    after_prefix, begins, cat3, in_language, is_blank, is_space, law_only_blank_texts_trim_to_nothing,
    law_trimming_takes_padding_away, same, say_in, strip, strip_prefix, trim, trim_class, trimmed,
    Class,
};

verus! {

pub const OLLAMA_URL: &'static str = "http://localhost:11434/v1/chat/completions";

// ── Messages and requests ────────────────────────────────────────────────────

/// Who a message is from.
#[derive(Debug, PartialEq)]
pub enum Role {
    System,
    User,
    Assistant,
}

/// A message of a conversation.
#[derive(Debug, PartialEq)]
pub struct Message {
    pub role: Role,
    pub content: String,
}

pub open spec fn role_name(role: Role) -> Seq<char> {
    match role {
        Role::System => "system"@,
        Role::User => "user"@,
        Role::Assistant => "assistant"@,
    }
}

/// A message in a request.
pub open spec fn message_tree(m: (Role, Seq<char>)) -> JsonTree {
    with_member(
        with_member(no_members(), "role"@, JsonTree::Text(role_name(m.0))),
        "content"@,
        JsonTree::Text(m.1),
    )
}

/// What messages say.
pub open spec fn messages_view(ms: Seq<Message>) -> Seq<(Role, Seq<char>)> {
    ms.map_values(|m: Message| (m.role, m.content@))
}

fn write_message(m: &Message) -> (r: Json)
    ensures
        r@ == message_tree((m.role, m.content@)),
{
    let role = match &m.role {
        Role::System => "system",
        Role::User => "user",
        Role::Assistant => "assistant",
    };
    Json::object().with_text("role", role).with_text("content", m.content.as_str())
}

/// The messages of a request: the instructions, then the conversation.
pub open spec fn conversation(system: Seq<char>, history: Seq<(Role, Seq<char>)>) -> JsonTree {
    JsonTree::List(
        (seq![(Role::System, system)] + history).map_values(
            |m: (Role, Seq<char>)| message_tree(m),
        ),
    )
}

/// A request: the model, the messages, the tools where there are any, how long the
/// reply may be, and whether it is streamed.
pub open spec fn request(
    model: Seq<char>,
    messages: JsonTree,
    tools: Option<JsonTree>,
    max_tokens: int,
    stream: bool,
) -> JsonTree {
    let a = with_member(
        with_member(no_members(), "model"@, JsonTree::Text(model)),
        "messages"@,
        messages,
    );
    let b = match tools {
        Some(t) => with_member(a, "tools"@, t),
        None => a,
    };
    with_member(
        with_member(b, "max_tokens"@, JsonTree::Int(max_tokens)),
        "stream"@,
        JsonTree::Bool(stream),
    )
}

/// Writes a request on a conversation.
pub fn chat_request(
    model: &str,
    system: &str,
    history: &Vec<Message>,
    tools: Option<Json>,
    max_tokens: u32,
    stream: bool,
) -> (r: Json)
    ensures
        r@ == request(
            model@,
            conversation(system@, messages_view(history@)),
            tools.deep_view(),
            max_tokens as int,
            stream,
        ),
{
    let ghost wanted = (seq![(Role::System, system@)] + messages_view(history@)).map_values(
        |m: (Role, Seq<char>)| message_tree(m),
    );
    let mut items: Vec<Json> = Vec::new();
    add_item(
        &mut items,
        write_message(&Message { role: Role::System, content: system.to_owned() }),
    );
    assert(trees(items@) =~= wanted.take(1));
    for i in 0..history.len()
        invariant
            wanted.len() == history@.len() + 1,
            forall|j: int|
                0 <= j < history@.len() ==> wanted[j + 1] == message_tree(
                    ((#[trigger] history@[j]).role, history@[j].content@),
                ),
            trees(items@) == wanted.take(i + 1),
    {
        let ghost was = trees(items@);
        add_item(&mut items, write_message(&history[i]));
        assert(wanted.take(i + 2) =~= was.push(wanted[i + 1]));
    }
    assert(wanted.take(wanted.len() as int) =~= wanted);
    let body = Json::object().with_text("model", model).with("messages", Json::List(items));
    let body = match tools {
        Some(t) => body.with("tools", t),
        None => body,
    };
    body.with("max_tokens", Json::Int(max_tokens as i128)).with("stream", Json::Bool(stream))
}

/// Writes a request on one question, with no history and no tools.
pub fn once_request(model: &str, system: &str, user: &str, max_tokens: u32, stream: bool) -> (r:
    Json)
    ensures
        r@ == request(
            model@,
            conversation(system@, seq![(Role::User, user@)]),
            None,
            max_tokens as int,
            stream,
        ),
{
    let mut history: Vec<Message> = Vec::new();
    history.push(Message { role: Role::User, content: user.to_owned() });
    assert(messages_view(history@) =~= seq![(Role::User, user@)]);
    chat_request(model, system, &history, None, max_tokens, stream)
}

// ── Tools ────────────────────────────────────────────────────────────────────

/// A parameter that is a text.
pub open spec fn text_parameter(description: Seq<char>) -> JsonTree {
    with_member(
        with_member(no_members(), "type"@, JsonTree::Text("string"@)),
        "description"@,
        JsonTree::Text(description),
    )
}

/// A tool: its name, what it is for, its parameters and those that are required.
pub open spec fn tool(
    name: Seq<char>,
    description: Seq<char>,
    parameters: JsonTree,
    required: Seq<Seq<char>>,
) -> JsonTree {
    let schema = with_member(
        with_member(
            with_member(no_members(), "type"@, JsonTree::Text("object"@)),
            "properties"@,
            parameters,
        ),
        "required"@,
        text_list(required),
    );
    let function = with_member(
        with_member(
            with_member(no_members(), "name"@, JsonTree::Text(name)),
            "description"@,
            JsonTree::Text(description),
        ),
        "parameters"@,
        schema,
    );
    with_member(
        with_member(no_members(), "type"@, JsonTree::Text("function"@)),
        "function"@,
        function,
    )
}

fn text_param(description: &str) -> (r: Json)
    ensures
        r@ == text_parameter(description@),
{
    Json::object().with_text("type", "string").with_text("description", description)
}

fn list_texts(texts: &Vec<String>) -> (r: Json)
    ensures
        r@ == text_list(texts.deep_view()),
{
    let ghost wanted = texts.deep_view().map_values(|t: Seq<char>| JsonTree::Text(t));
    let mut items: Vec<Json> = Vec::new();
    assert(trees(items@) =~= wanted.take(0));
    for i in 0..texts.len()
        invariant
            wanted == texts.deep_view().map_values(|t: Seq<char>| JsonTree::Text(t)),
            trees(items@) == wanted.take(i as int),
    {
        let ghost was = trees(items@);
        add_item(&mut items, Json::Text(texts[i].clone()));
        assert(wanted.take(i + 1) =~= was.push(wanted[i as int]));
    }
    assert(wanted.take(texts@.len() as int) =~= wanted);
    Json::List(items)
}

fn make_tool(name: &str, description: &str, parameters: Json, required: &Vec<String>) -> (r: Json)
    ensures
        r@ == tool(name@, description@, parameters@, required.deep_view()),
{
    let schema = Json::object().with_text("type", "object").with("properties", parameters).with(
        "required",
        list_texts(required),
    );
    let function = Json::object().with_text("name", name).with_text(
        "description",
        description,
    ).with("parameters", schema);
    Json::object().with_text("type", "function").with("function", function)
}

/// What the tool that launches an agent is for.
pub open spec fn launch_purpose(en: bool, agent: Seq<char>) -> Seq<char> {
    if en {
        "Launch a "@ + agent
            + " agent on the ACTIVE project for a background development task"@
    } else {
        "Lance un agent "@ + agent
            + " sur le projet ACTIF pour une tâche de développement en arrière-plan"@
    }
}

fn describe_launch(en: bool, agent: &str) -> (r: String)
    ensures
        r@ == launch_purpose(en, agent@),
{
    if en {
        cat3(
            "Launch a ",
            agent,
            " agent on the ACTIVE project for a background development task",
        )
    } else {
        cat3(
            "Lance un agent ",
            agent,
            " sur le projet ACTIF pour une tâche de développement en arrière-plan",
        )
    }
}

pub const PROMPT_EN: &'static str =
    "Send a prompt to the coding agent of a named Conductor worktree. YOU write the full prompt: context, precise task, constraints, done criteria.";

pub const PROMPT_FR: &'static str =
    "Envoie un prompt à l'agent d'un worktree Conductor nommé. C'est TOI qui rédiges le prompt complet : contexte, tâche précise, contraintes, critères de fin.";

pub const SWITCH_EN: &'static str =
    "Change the active project by its name in the ~/.vox/projects.json registry";

pub const SWITCH_FR: &'static str =
    "Change le projet actif par son nom dans le registre ~/.vox/projects.json";

/// The tool that launches an agent in the active project.
pub open spec fn launch_tool(en: bool, agent: Seq<char>) -> JsonTree {
    tool(
        "launch_agent"@,
        launch_purpose(en, agent),
        with_member(
            with_member(
                no_members(),
                "task"@,
                text_parameter(
                    in_language(
                        en,
                        "Detailed description of the task"@,
                        "Description détaillée de la tâche"@,
                    ),
                ),
            ),
            "text"@,
            text_parameter(
                in_language(
                    en,
                    "Short spoken reply in English (1-2 sentences)"@,
                    "Réponse vocale courte à prononcer (1-2 phrases)"@,
                ),
            ),
        ),
        seq!["task"@, "text"@],
    )
}

/// The tool that sends a prompt to the agent of a worktree.
pub open spec fn prompt_tool(en: bool) -> JsonTree {
    tool(
        "prompt_worktree"@,
        in_language(en, PROMPT_EN@, PROMPT_FR@),
        with_member(
            with_member(
                with_member(
                    no_members(),
                    "project"@,
                    text_parameter(
                        in_language(
                            en,
                            "Worktree/project name exactly as listed in the worktree state data"@,
                            "Nom du worktree/projet tel que listé dans l'état des worktrees"@,
                        ),
                    ),
                ),
                "prompt"@,
                text_parameter(
                    in_language(
                        en,
                        "The complete detailed prompt to send to the agent (several sentences)"@,
                        "Le prompt détaillé complet à envoyer à l'agent (plusieurs phrases)"@,
                    ),
                ),
            ),
            "text"@,
            text_parameter(
                in_language(
                    en,
                    "Short spoken confirmation in English"@,
                    "Confirmation vocale courte"@,
                ),
            ),
        ),
        seq!["project"@, "prompt"@, "text"@],
    )
}

/// The tool that switches the active project.
pub open spec fn switch_tool(en: bool) -> JsonTree {
    tool(
        "switch_project"@,
        in_language(en, SWITCH_EN@, SWITCH_FR@),
        with_member(
            with_member(
                no_members(),
                "name"@,
                text_parameter(
                    in_language(
                        en,
                        "Project name in the registry"@,
                        "Nom du projet dans le registre"@,
                    ),
                ),
            ),
            "text"@,
            text_parameter(
                in_language(en, "Short spoken reply in English"@, "Réponse vocale courte"@),
            ),
        ),
        seq!["name"@, "text"@],
    )
}

/// The tools, described in the language of the interface. `agent` is the name of the
/// coding agent.
pub open spec fn tools(en: bool, agent: Seq<char>) -> JsonTree {
    JsonTree::List(seq![launch_tool(en, agent), prompt_tool(en), switch_tool(en)])
}

fn make_launch_tool(en: bool, agent: &str) -> (r: Json)
    ensures
        r@ == launch_tool(en, agent@),
{
    let mut required: Vec<String> = Vec::new();
    required.push("task".to_owned());
    required.push("text".to_owned());
    assert(required.deep_view() =~= seq!["task"@, "text"@]);
    let task = say_in(en, "Detailed description of the task", "Description détaillée de la tâche");
    let text = say_in(
        en,
        "Short spoken reply in English (1-2 sentences)",
        "Réponse vocale courte à prononcer (1-2 phrases)",
    );
    let parameters = Json::object().with("task", text_param(task.as_str())).with(
        "text",
        text_param(text.as_str()),
    );
    let description = describe_launch(en, agent);
    make_tool("launch_agent", description.as_str(), parameters, &required)
}

fn make_prompt_tool(en: bool) -> (r: Json)
    ensures
        r@ == prompt_tool(en),
{
    let mut required: Vec<String> = Vec::new();
    required.push("project".to_owned());
    required.push("prompt".to_owned());
    required.push("text".to_owned());
    assert(required.deep_view() =~= seq!["project"@, "prompt"@, "text"@]);
    let project = say_in(
        en,
        "Worktree/project name exactly as listed in the worktree state data",
        "Nom du worktree/projet tel que listé dans l'état des worktrees",
    );
    let prompt = say_in(
        en,
        "The complete detailed prompt to send to the agent (several sentences)",
        "Le prompt détaillé complet à envoyer à l'agent (plusieurs phrases)",
    );
    let text = say_in(en, "Short spoken confirmation in English", "Confirmation vocale courte");
    let parameters = Json::object().with("project", text_param(project.as_str())).with(
        "prompt",
        text_param(prompt.as_str()),
    ).with("text", text_param(text.as_str()));
    let description = say_in(en, PROMPT_EN, PROMPT_FR);
    make_tool("prompt_worktree", description.as_str(), parameters, &required)
}

fn make_switch_tool(en: bool) -> (r: Json)
    ensures
        r@ == switch_tool(en),
{
    let mut required: Vec<String> = Vec::new();
    required.push("name".to_owned());
    required.push("text".to_owned());
    assert(required.deep_view() =~= seq!["name"@, "text"@]);
    let name = say_in(en, "Project name in the registry", "Nom du projet dans le registre");
    let text = say_in(en, "Short spoken reply in English", "Réponse vocale courte");
    let parameters = Json::object().with("name", text_param(name.as_str())).with(
        "text",
        text_param(text.as_str()),
    );
    let description = say_in(en, SWITCH_EN, SWITCH_FR);
    make_tool("switch_project", description.as_str(), parameters, &required)
}

/// Writes the tools down. Their descriptions follow the language of the interface,
/// so that the model is not nudged toward the other one.
pub fn vox_tools(en: bool, agent: &str) -> (r: Json)
    ensures
        r@ == tools(en, agent@),
{
    let mut items: Vec<Json> = Vec::new();
    add_item(&mut items, make_launch_tool(en, agent));
    add_item(&mut items, make_prompt_tool(en));
    add_item(&mut items, make_switch_tool(en));
    assert(trees(items@) =~= seq![
        launch_tool(en, agent@),
        prompt_tool(en),
        switch_tool(en),
    ]);
    Json::List(items)
}

// ── Replies ──────────────────────────────────────────────────────────────────

/// A member of the first choice in a reply.
pub open spec fn first_choice(reply: JsonTree, key: Seq<char>) -> Option<JsonTree> {
    match items_of(member(reply, "choices"@)) {
        Some(items) if items.len() > 0 => member(items[0], key),
        _ => None,
    }
}

fn find_first_choice<'a>(reply: &'a Json, key: &str) -> (r: Option<&'a Json>)
    ensures
        said(r) == first_choice(reply@, key@),
{
    match reply.get("choices") {
        Some(choices) => match choices.as_list() {
            Some(items) => {
                proof {
                    lemma_trees(items@);
                }
                if items.len() > 0 {
                    items[0].get(key)
                } else {
                    None
                }
            },
            None => None,
        },
        None => None,
    }
}

/// The text of the message in a reply.
pub open spec fn reply_text(reply: JsonTree) -> Option<Seq<char>> {
    match first_choice(reply, "message"@) {
        Some(m) => text_at(m, "content"@),
        None => None,
    }
}

/// Takes the text of the message out of a reply.
pub fn message_text(reply: &Json) -> (r: Option<String>)
    ensures
        r.deep_view() == reply_text(reply@),
{
    match find_first_choice(reply, "message") {
        Some(m) => m.text("content"),
        None => None,
    }
}

/// The answer to one question: the trimmed text of the reply, without the quotes
/// around it. There is none without a reply or a text in it.
pub open spec fn answer(reply: Option<JsonTree>) -> Option<Seq<char>> {
    match reply {
        Some(t) => match reply_text(t) {
            Some(text) => Some(strip(trimmed(text), Class::Quotes)),
            None => None,
        },
        None => None,
    }
}

/// Takes the answer to one question out of the reply, where one came.
pub fn chat_once(reply: Option<&Json>) -> (r: Option<String>)
    ensures
        r.deep_view() == answer(said(reply)),
{
    match reply {
        Some(j) => match message_text(j) {
            Some(text) => Some(trim_class(trim(text.as_str()).as_str(), &Class::Quotes)),
            None => None,
        },
        None => None,
    }
}

// ── Streams ──────────────────────────────────────────────────────────────────

/// What a line of a stream carries.
#[derive(Debug, PartialEq)]
pub enum LineKind {
    /// Nothing of interest.
    Other,
    /// The end.
    End,
    Data(String),
}

/// The data on a line of a stream.
pub open spec fn line_data(line: Seq<char>) -> Option<Seq<char>> {
    match after_prefix(trimmed(line), "data:"@) {
        Some(d) => Some(trimmed(d)),
        None => None,
    }
}

/// Tells what a line of a stream carries.
pub fn line_kind(line: &str) -> (r: LineKind)
    ensures
        match line_data(line@) {
            Some(d) => if d == "[DONE]"@ {
                r is End
            } else {
                r matches LineKind::Data(data) && data@ == d
            },
            None => r is Other,
        },
{
    match strip_prefix(trim(line).as_str(), "data:") {
        Some(rest) => {
            let data = trim(rest.as_str());
            if same(data.as_str(), "[DONE]") {
                LineKind::End
            } else {
                LineKind::Data(data)
            }
        },
        None => LineKind::Other,
    }
}

/// What is done after a line of a stream.
#[derive(Debug, PartialEq)]
pub enum StreamStep {
    /// Read on.
    Next,
    /// Take this delta in, and read on.
    Delta(Json),
    /// Read no further.
    Stop,
    /// The stream failed, for this reason.
    Fail(String),
}

pub enum StreamStepView {
    Next,
    Delta(JsonTree),
    Stop,
    Fail(Seq<char>),
}

impl View for StreamStep {
    type V = StreamStepView;

    open spec fn view(&self) -> StreamStepView {
        match self {
            StreamStep::Next => StreamStepView::Next,
            StreamStep::Delta(d) => StreamStepView::Delta(d@),
            StreamStep::Stop => StreamStepView::Stop,
            StreamStep::Fail(e) => StreamStepView::Fail(e@),
        }
    }
}

/// The delta in a chunk of a stream; null where there is none.
pub open spec fn delta_of(chunk: JsonTree) -> JsonTree {
    match first_choice(chunk, "delta"@) {
        Some(d) => d,
        None => JsonTree::Null,
    }
}

/// What is done with a chunk that was read; a chunk that is not JSON is passed over.
pub open spec fn chunk_step(chunk: Option<JsonTree>) -> StreamStepView {
    match chunk {
        Some(t) => StreamStepView::Delta(delta_of(t)),
        None => StreamStepView::Next,
    }
}

/// What is done after a line of a stream, or after its reading failed: `seen` tells
/// whether any data came before.
pub open spec fn stream_step(
    seen: bool,
    cancelled: bool,
    line: Result<Seq<char>, Seq<char>>,
) -> StreamStepView {
    if cancelled {
        StreamStepView::Stop
    } else {
        match line {
            Err(e) => if seen {
                StreamStepView::Stop
            } else {
                StreamStepView::Fail(e)
            },
            Ok(l) => match line_data(l) {
                Some(d) => if d == "[DONE]"@ {
                    StreamStepView::Stop
                } else {
                    chunk_step(json_of_text(d))
                },
                None => StreamStepView::Next,
            },
        }
    }
}

/// What a line says, or why it could not be read.
pub open spec fn line_view(line: Result<String, String>) -> Result<Seq<char>, Seq<char>> {
    match line {
        Ok(l) => Ok(l@),
        Err(e) => Err(e@),
    }
}

/// A reply that streams in.
pub struct ChatStream {
    seen: bool,
}

impl ChatStream {
    /// Whether any data came.
    pub closed spec fn seen(self) -> bool {
        self.seen
    }

    pub fn new() -> (r: Self)
        ensures
            !r.seen(),
    {
        ChatStream { seen: false }
    }

    /// Takes a chunk in, as it was read.
    pub fn on_chunk(&mut self, chunk: Option<Json>) -> (r: StreamStep)
        ensures
            r@ == chunk_step(chunk.deep_view()),
            final(self).seen() == (old(self).seen() || chunk is Some),
    {
        match chunk {
            Some(j) => {
                self.seen = true;
                match find_first_choice(&j, "delta") {
                    Some(d) => StreamStep::Delta(d.copy()),
                    None => StreamStep::Delta(Json::Null),
                }
            },
            None => StreamStep::Next,
        }
    }

    /// Takes a line in, or the failure to read one. A stream that was cancelled goes
    /// no further. One that breaks after data came has delivered what it could, since
    /// spoken sentences cannot be unsaid; only before that it fails.
    pub fn on_line(&mut self, cancelled: bool, line: Result<String, String>) -> (r: StreamStep)
        ensures
            r@ == stream_step(old(self).seen(), cancelled, line_view(line)),
            final(self).seen() == (old(self).seen() || r is Delta),
    {
        if cancelled {
            return StreamStep::Stop;
        }
        match line {
            Err(e) => if self.seen {
                StreamStep::Stop
            } else {
                StreamStep::Fail(e)
            },
            Ok(l) => match line_kind(l.as_str()) {
                LineKind::Other => StreamStep::Next,
                LineKind::End => StreamStep::Stop,
                LineKind::Data(d) => self.on_chunk(read_json(d.as_str())),
            },
        }
    }

    /// Ends the stream. Without any data it has failed.
    pub fn finish(&self) -> (r: Result<(), String>)
        ensures
            match r {
                Ok(()) => self.seen(),
                Err(e) => !self.seen() && e@ == "no stream data"@,
            },
    {
        if self.seen {
            Ok(())
        } else {
            Err("no stream data".to_owned())
        }
    }
}

/// The deltas that a stream delivers, line after line, and whether it failed. Each
/// line comes with whether the stream was cancelled before it.
pub open spec fn streamed(
    seen: bool,
    lines: Seq<(bool, Result<Seq<char>, Seq<char>>)>,
) -> (Seq<JsonTree>, bool)
    decreases lines.len(),
{
    if lines.len() == 0 {
        (Seq::empty(), !seen)
    } else {
        match stream_step(seen, lines[0].0, lines[0].1) {
            StreamStepView::Next => streamed(seen, lines.skip(1)),
            StreamStepView::Delta(d) => {
                let (rest, failed) = streamed(true, lines.skip(1));
                (seq![d] + rest, failed)
            },
            StreamStepView::Stop => (Seq::empty(), !seen),
            StreamStepView::Fail(_) => (Seq::empty(), true),
        }
    }
}

/// A stream fails only where it delivered nothing at all: whatever breaks it after
/// the first data, it has succeeded.
pub proof fn law_stream_fails_only_without_data(
    seen: bool,
    lines: Seq<(bool, Result<Seq<char>, Seq<char>>)>,
)
    ensures
        streamed(seen, lines).1 <==> !seen && streamed(seen, lines).0.len() == 0,
    decreases lines.len(),
{
    if lines.len() > 0 {
        match stream_step(seen, lines[0].0, lines[0].1) {
            StreamStepView::Next => law_stream_fails_only_without_data(seen, lines.skip(1)),
            StreamStepView::Delta(_) => law_stream_fails_only_without_data(true, lines.skip(1)),
            _ => {},
        }
    }
}

// ── One question, streamed ───────────────────────────────────────────────────

/// The answer to one question as it streams in.
pub struct OnceStream {
    buf: SentenceBuffer,
    full: String,
    emitted: bool,
}

impl View for OnceStream {
    type V = Seq<char>;

    closed spec fn view(&self) -> Seq<char> {
        self.full@
    }
}

/// The text in a delta.
pub open spec fn delta_text(delta: JsonTree) -> Option<Seq<char>> {
    text_at(delta, "content"@)
}

/// The text that a delta adds.
pub open spec fn added(delta: JsonTree) -> Seq<char> {
    match delta_text(delta) {
        Some(c) => c,
        None => Seq::empty(),
    }
}

/// What is done once the stream is over.
#[derive(Debug, PartialEq)]
pub enum OnceEnd {
    /// Say the last words, where there are any left; this is the answer.
    Done { last: Option<String>, answer: Option<String> },
    /// Ask the question again, without a stream.
    AskAgain,
}

/// A text, where anything is left of it without white space.
pub open spec fn if_any(text: Seq<char>) -> Option<Seq<char>> {
    if trimmed(text).len() == 0 {
        None
    } else {
        Some(text)
    }
}

/// The answer in all that was streamed.
pub open spec fn full_answer(full: Seq<char>) -> Option<Seq<char>> {
    let a = strip(trimmed(full), Class::Quotes);
    if a.len() == 0 {
        None
    } else {
        Some(a)
    }
}

impl OnceStream {
    /// The buffer holds what the sentences so far left over.
    pub closed spec fn wf(self) -> bool {
        &&& self.buf@ == remainder(self.full@)
        &&& self.emitted == (sentences(self.full@).len() > 0)
    }

    pub fn new() -> (r: Self)
        ensures
            r.wf(),
            r@ == Seq::<char>::empty(),
    {
        OnceStream { buf: SentenceBuffer::new(), full: String::new(), emitted: false }
    }

    /// Takes a delta in, and hands out the sentences that it completes.
    pub fn on_delta(&mut self, delta: &Json) -> (r: Vec<String>)
        requires
            old(self).wf(),
        ensures
            final(self).wf(),
            final(self)@ == old(self)@ + added(delta@),
            sentences(final(self)@) == sentences(old(self)@) + r.deep_view(),
    {
        let ghost before = self.full@;
        match delta.text("content") {
            Some(c) => {
                proof {
                    law_deltas_do_not_matter(before, c@);
                }
                self.full.append(c.as_str());
                let out = self.buf.push(c.as_str());
                if out.len() > 0 {
                    self.emitted = true;
                }
                assert(out.deep_view().len() == out@.len());
                out
            },
            None => {
                assert(before + Seq::<char>::empty() =~= before);
                let out: Vec<String> = Vec::new();
                assert(sentences(before) + out.deep_view() =~= sentences(before));
                out
            },
        }
    }

    /// Ends the stream. Only where it failed before a sentence was handed out, and was
    /// not cancelled, the question is asked again: what was spoken in part is never
    /// replayed from the top.
    pub fn finish(self, failed: bool, cancelled: bool) -> (r: OnceEnd)
        requires
            self.wf(),
        ensures
            r is AskAgain <==> failed && !cancelled && sentences(self@).len() == 0,
            r matches OnceEnd::Done { last, answer } ==> {
                &&& last.deep_view() == (if failed || cancelled {
                    None
                } else {
                    last_words(remainder(self@))
                })
                &&& answer.deep_view() == (if failed {
                    if_any(self@)
                } else {
                    full_answer(self@)
                })
            },
    {
        let mut buf = self.buf;
        if failed {
            if !cancelled && !self.emitted {
                return OnceEnd::AskAgain;
            }
            let any = !trim(self.full.as_str()).as_str().is_empty();
            return OnceEnd::Done {
                last: None,
                answer: if any {
                    Some(self.full)
                } else {
                    None
                },
            };
        }
        let last = if cancelled {
            None
        } else {
            buf.flush()
        };
        let a = trim_class(trim(self.full.as_str()).as_str(), &Class::Quotes);
        let answer = if a.as_str().is_empty() {
            None
        } else {
            Some(a)
        };
        OnceEnd::Done { last, answer }
    }
}

/// The sentences of an answer that came at once, after the stream had failed.
pub fn answer_at_once(answer: Option<String>) -> (r: (Vec<String>, Option<String>))
    ensures
        r.1.deep_view() == answer.deep_view(),
        r.0.deep_view() == (match answer {
            Some(text) => spoken(text@),
            None => Seq::empty(),
        }),
{
    match answer {
        Some(text) => (split_sentences(text.as_str()), Some(text)),
        None => {
            let none: Vec<String> = Vec::new();
            assert(none.deep_view() =~= Seq::empty());
            (none, None)
        },
    }
}

/// The text of all deltas.
pub open spec fn delta_texts(deltas: Seq<JsonTree>) -> Seq<char>
    decreases deltas.len(),
{
    if deltas.len() == 0 {
        Seq::empty()
    } else {
        delta_texts(deltas.drop_last()) + added(deltas.last())
    }
}

/// What taking in all deltas hands out, delta after delta.
pub open spec fn handed_out(deltas: Seq<JsonTree>) -> Seq<Seq<char>>
    decreases deltas.len(),
{
    if deltas.len() == 0 {
        Seq::empty()
    } else {
        handed_out(deltas.drop_last()) + sentences(
            remainder(delta_texts(deltas.drop_last())) + added(deltas.last()),
        )
    }
}

/// However an answer is cut into deltas, the sentences handed out are those of the
/// whole answer; and with the last words, all of it is spoken.
pub proof fn law_the_whole_answer_is_spoken(deltas: Seq<JsonTree>)
    ensures
        handed_out(deltas) == sentences(delta_texts(deltas)),
        spoken(delta_texts(deltas)) == (match last_words(remainder(delta_texts(deltas))) {
            Some(rest) => handed_out(deltas).push(rest),
            None => handed_out(deltas),
        }),
    decreases deltas.len(),
{
    if deltas.len() > 0 {
        law_the_whole_answer_is_spoken(deltas.drop_last());
        law_deltas_do_not_matter(delta_texts(deltas.drop_last()), added(deltas.last()));
    }
}

// ── Laws ─────────────────────────────────────────────────────────────────────

/// Whether a message in a request is from this role and says this.
pub open spec fn says(message: JsonTree, role: Seq<char>, content: Seq<char>) -> bool {
    &&& member(message, "role"@) == Some(JsonTree::Text(role))
    &&& member(message, "content"@) == Some(JsonTree::Text(content))
}

proof fn lemma_message(m: (Role, Seq<char>))
    ensures
        says(message_tree(m), role_name(m.0), m.1),
{
    reveal_strlit("role");
    reveal_strlit("content");
    assert("role"@.len() == 4 && "content"@.len() == 7);
    let a = no_members();
    let b = with_member(a, "role"@, JsonTree::Text(role_name(m.0)));
    law_an_added_member_is_found(a, "role"@, JsonTree::Text(role_name(m.0)), "content"@);
    law_an_added_member_is_found(b, "content"@, JsonTree::Text(m.1), "role"@);
}

/// A conversation goes to the model in full: the instructions first, from the system, and
/// then every message of the history, in its order, from whom it came and as it was said.
pub proof fn law_the_whole_conversation_is_sent(
    system: Seq<char>,
    history: Seq<(Role, Seq<char>)>,
    i: int,
)
    ensures
        conversation(system, history) matches JsonTree::List(items) && {
            &&& items.len() == history.len() + 1
            &&& says(items[0], "system"@, system)
            &&& 0 <= i < history.len() && history[i].0 is User ==> says(
                items[i + 1],
                "user"@,
                history[i].1,
            )
            &&& 0 <= i < history.len() && history[i].0 is Assistant ==> says(
                items[i + 1],
                "assistant"@,
                history[i].1,
            )
            &&& 0 <= i < history.len() && history[i].0 is System ==> says(
                items[i + 1],
                "system"@,
                history[i].1,
            )
        },
{
    let all = seq![(Role::System, system)] + history;
    lemma_message(all[0]);
    if 0 <= i < history.len() {
        assert(all[i + 1] == history[i]);
        lemma_message(history[i]);
    }
}

/// A request names its model, holds the messages, tells how long the reply may be and whether
/// it is streamed, and offers the tools where there are any.
pub proof fn law_a_request_says_what_is_asked(
    model: Seq<char>,
    messages: JsonTree,
    tools: Option<JsonTree>,
    max_tokens: int,
    stream: bool,
)
    ensures
        ({
            let r = request(model, messages, tools, max_tokens, stream);
            &&& member(r, "model"@) == Some(JsonTree::Text(model))
            &&& member(r, "messages"@) == Some(messages)
            &&& member(r, "tools"@) == tools
            &&& member(r, "max_tokens"@) == Some(JsonTree::Int(max_tokens))
            &&& member(r, "stream"@) == Some(JsonTree::Bool(stream))
        }),
{
    reveal_strlit("model");
    reveal_strlit("messages");
    reveal_strlit("tools");
    reveal_strlit("max_tokens");
    reveal_strlit("stream");
    assert("model"@.len() == 5 && "messages"@.len() == 8 && "tools"@.len() == 5
        && "max_tokens"@.len() == 10 && "stream"@.len() == 6);
    assert("model"@[0] != "tools"@[0]);
    let n = no_members();
    let a = with_member(n, "model"@, JsonTree::Text(model));
    let b = with_member(a, "messages"@, messages);
    let c = match tools {
        Some(t) => with_member(b, "tools"@, t),
        None => b,
    };
    let d = with_member(c, "max_tokens"@, JsonTree::Int(max_tokens));
    lemma_keys_stay(n, "model"@, JsonTree::Text(model));
    lemma_keys_stay(a, "messages"@, messages);
    if let Some(t) = tools {
        lemma_keys_stay(b, "tools"@, t);
    }
    lemma_keys_stay(c, "max_tokens"@, JsonTree::Int(max_tokens));
    lemma_keys_stay(d, "stream"@, JsonTree::Bool(stream));
}

/// The names and descriptions of the parameters of a tool, and those that are required.
pub open spec fn schema_of(tool: JsonTree, key: Seq<char>) -> Option<JsonTree> {
    match member2(tool, "function"@, "parameters"@) {
        Some(schema) => member(schema, key),
        None => None,
    }
}

/// A tool is offered under its name, and asks for its parameters and requires those that are
/// named.
pub proof fn law_a_tool_is_offered_whole(
    name: Seq<char>,
    description: Seq<char>,
    parameters: JsonTree,
    required: Seq<Seq<char>>,
    i: int,
)
    ensures
        ({
            let t = tool(name, description, parameters, required);
            &&& member(t, "type"@) == Some(JsonTree::Text("function"@))
            &&& member2(t, "function"@, "name"@) == Some(JsonTree::Text(name))
            &&& member2(t, "function"@, "description"@) == Some(JsonTree::Text(description))
            &&& schema_of(t, "properties"@) == Some(parameters)
            &&& schema_of(t, "required"@) matches Some(JsonTree::List(items)) && items.len()
                == required.len() && (0 <= i < required.len() ==> items[i] == JsonTree::Text(
                required[i],
            ))
        }),
{
    reveal_strlit("type");
    reveal_strlit("function");
    reveal_strlit("name");
    reveal_strlit("description");
    reveal_strlit("parameters");
    reveal_strlit("properties");
    reveal_strlit("required");
    assert("type"@.len() == 4 && "function"@.len() == 8 && "name"@.len() == 4
        && "description"@.len() == 11 && "parameters"@.len() == 10 && "properties"@.len() == 10
        && "required"@.len() == 8);
    let n = no_members();
    let s1 = with_member(n, "type"@, JsonTree::Text("object"@));
    let s2 = with_member(s1, "properties"@, parameters);
    let s3 = with_member(s2, "required"@, text_list(required));
    lemma_keys_stay(n, "type"@, JsonTree::Text("object"@));
    lemma_keys_stay(s1, "properties"@, parameters);
    lemma_keys_stay(s2, "required"@, text_list(required));
    let f1 = with_member(n, "name"@, JsonTree::Text(name));
    let f2 = with_member(f1, "description"@, JsonTree::Text(description));
    lemma_keys_stay(n, "name"@, JsonTree::Text(name));
    lemma_keys_stay(f1, "description"@, JsonTree::Text(description));
    lemma_keys_stay(f2, "parameters"@, s3);
    let f3 = with_member(f2, "parameters"@, s3);
    let t1 = with_member(n, "type"@, JsonTree::Text("function"@));
    lemma_keys_stay(n, "type"@, JsonTree::Text("function"@));
    lemma_keys_stay(t1, "function"@, f3);
}

/// The three tools are offered in either language, under the names by which their calls are
/// carried out, and with the parameters that these need.
pub proof fn law_the_three_tools_are_offered(en: bool, agent: Seq<char>)
    ensures
        tools(en, agent) matches JsonTree::List(items) && {
            &&& items.len() == 3
            &&& member2(items[0], "function"@, "name"@) == Some(JsonTree::Text("launch_agent"@))
            &&& member2(items[1], "function"@, "name"@) == Some(JsonTree::Text("prompt_worktree"@))
            &&& member2(items[2], "function"@, "name"@) == Some(JsonTree::Text("switch_project"@))
            &&& schema_of(items[0], "required"@) matches Some(JsonTree::List(r)) && r.len() == 2
                && r[0] == JsonTree::Text("task"@) && r[1] == JsonTree::Text("text"@)
            &&& schema_of(items[1], "required"@) matches Some(JsonTree::List(r)) && r.len() == 3
                && r[0] == JsonTree::Text("project"@) && r[1] == JsonTree::Text("prompt"@) && r[2]
                == JsonTree::Text("text"@)
            &&& schema_of(items[2], "required"@) matches Some(JsonTree::List(r)) && r.len() == 2
                && r[0] == JsonTree::Text("name"@) && r[1] == JsonTree::Text("text"@)
        },
{
    lemma_names_and_needs(
        "launch_agent"@,
        launch_purpose(en, agent),
        launch_tool(en, agent),
        seq!["task"@, "text"@],
    );
    lemma_names_and_needs(
        "prompt_worktree"@,
        in_language(en, PROMPT_EN@, PROMPT_FR@),
        prompt_tool(en),
        seq!["project"@, "prompt"@, "text"@],
    );
    lemma_names_and_needs(
        "switch_project"@,
        in_language(en, SWITCH_EN@, SWITCH_FR@),
        switch_tool(en),
        seq!["name"@, "text"@],
    );
}

proof fn lemma_names_and_needs(
    name: Seq<char>,
    description: Seq<char>,
    t: JsonTree,
    required: Seq<Seq<char>>,
)
    requires
        exists|p: JsonTree| t == #[trigger] tool(name, description, p, required),
    ensures
        member2(t, "function"@, "name"@) == Some(JsonTree::Text(name)),
        schema_of(t, "required"@) matches Some(JsonTree::List(items)) && items.len()
            == required.len() && forall|i: int|
            0 <= i < required.len() ==> #[trigger] items[i] == JsonTree::Text(required[i]),
{
    let p = choose|p: JsonTree| t == #[trigger] tool(name, description, p, required);
    law_a_tool_is_offered_whole(name, description, p, required, 0);
    let items = schema_of(t, "required"@)->0->List_0;
    assert forall|i: int| 0 <= i < required.len() implies #[trigger] items[i] == JsonTree::Text(
        required[i],
    ) by {
        law_a_tool_is_offered_whole(name, description, p, required, i);
    }
}

/// The reply of the model is the content of the message in its first choice, and the delta of
/// a chunk is that in its first choice.
pub proof fn law_the_first_choice_counts(
    reply: JsonTree,
    choices: Seq<JsonTree>,
    inner: JsonTree,
    text: Seq<char>,
)
    requires
        member(reply, "choices"@) == Some(JsonTree::List(choices)),
    ensures
        choices.len() > 0 && member(choices[0], "message"@) == Some(inner) && member(
            inner,
            "content"@,
        ) == Some(JsonTree::Text(text)) ==> reply_text(reply) == Some(text),
        choices.len() > 0 && member(choices[0], "delta"@) == Some(inner) ==> delta_of(reply)
            == inner,
        choices.len() == 0 ==> reply_text(reply) is None && delta_of(reply) is Null,
        choices.len() > 0 && member(choices[0], "delta"@) is None ==> delta_of(reply) is Null,
        choices.len() > 0 && member(choices[0], "message"@) is None ==> reply_text(reply) is None,
{
}

/// A reply without choices says nothing.
pub proof fn law_no_choices_no_reply(reply: JsonTree)
    requires
        !(member(reply, "choices"@) matches Some(JsonTree::List(_))),
    ensures
        reply_text(reply) is None,
        delta_of(reply) is Null,
        answer(Some(reply)) is None,
        answer(None) is None,
{
}

/// The answer to a question is the text of the reply, without white space and without quotes
/// around it: of a text in quotes, what stands between them.
pub proof fn law_an_answer_is_the_text_of_the_reply(reply: JsonTree, text: Seq<char>)
    requires
        reply_text(reply) == Some(text),
    ensures
        answer(Some(reply)) == Some(strip(trimmed(text), Class::Quotes)),
        full_answer(text) is None <==> strip(trimmed(text), Class::Quotes).len() == 0,
        full_answer(text) matches Some(a) ==> answer(Some(reply)) == Some(a),
{
}

/// A line of a stream carries what follows "data:", without white space around it; a line
/// that does not begin so carries nothing.
pub proof fn law_a_line_carries_its_data(
    front: Seq<char>,
    gap: Seq<char>,
    data: Seq<char>,
    back: Seq<char>,
    line: Seq<char>,
)
    requires
        is_blank(front),
        is_blank(gap),
        is_blank(back),
        data.len() > 0,
        !is_space(data[0]),
        !is_space(data.last()),
    ensures
        line_data(front + ("data:"@ + gap + data) + back) == Some(data),
        !begins(trimmed(line), "data:"@) ==> line_data(line) is None,
{
    reveal_strlit("data:");
    let inner = "data:"@ + gap + data;
    law_trimming_takes_padding_away(front, inner, back);
    assert(inner.take(5) =~= "data:"@);
    let rest = inner.skip(5);
    let e = Seq::<char>::empty();
    assert(rest =~= gap + data + e);
    law_trimming_takes_padding_away(gap, data, e);
}

/// What is done after a line goes by what it carries: a chunk that is JSON hands out its
/// delta, one that is not is passed over, and "[DONE]" stops the stream, as does a cancel,
/// whatever came. A failure to read fails the stream only where nothing came before.
pub proof fn law_a_line_is_taken_for_what_it_carries(
    seen: bool,
    line: Seq<char>,
    data: Seq<char>,
    chunk: JsonTree,
    e: Seq<char>,
    any: Result<Seq<char>, Seq<char>>,
)
    ensures
        stream_step(seen, true, any) is Stop,
        line_data(line) == Some(data) && data != "[DONE]"@ && json_of_text(data) == Some(chunk)
            ==> stream_step(seen, false, Ok(line)) == StreamStepView::Delta(delta_of(chunk)),
        line_data(line) == Some(data) && data != "[DONE]"@ && json_of_text(data) is None
            ==> stream_step(seen, false, Ok(line)) is Next,
        line_data(line) == Some("[DONE]"@) ==> stream_step(seen, false, Ok(line)) is Stop,
        line_data(line) is None ==> stream_step(seen, false, Ok(line)) is Next,
        stream_step(true, false, Err(e)) is Stop,
        stream_step(false, false, Err(e)) == StreamStepView::Fail(e),
{
}

/// Every chunk of a stream is delivered, in its order: of a stream that is not cancelled, all
/// the deltas of the lines that carry JSON before the first end mark.
pub proof fn law_every_chunk_is_delivered(
    seen: bool,
    lines: Seq<(bool, Result<Seq<char>, Seq<char>>)>,
    chunks: Seq<JsonTree>,
)
    requires
        lines.len() == chunks.len(),
        forall|i: int|
            0 <= i < lines.len() ==> !(#[trigger] lines[i]).0 && (lines[i].1 matches Ok(l) && (
            line_data(l) matches Some(d) && d != "[DONE]"@ && json_of_text(d) == Some(chunks[i]))),
    ensures
        streamed(seen, lines).0.len() == chunks.len(),
        forall|i: int|
            0 <= i < chunks.len() ==> #[trigger] streamed(seen, lines).0[i] == delta_of(chunks[i]),
    decreases lines.len(),
{
    if lines.len() > 0 {
        let rest = lines.skip(1);
        let later = chunks.skip(1);
        assert(!lines[0].0);
        assert forall|i: int| 0 <= i < rest.len() implies !(#[trigger] rest[i]).0 && (
        rest[i].1 matches Ok(l) && (line_data(l) matches Some(d) && d != "[DONE]"@ && json_of_text(
            d,
        ) == Some(later[i]))) by {
            assert(rest[i] == lines[i + 1]);
            assert(later[i] == chunks[i + 1]);
        }
        law_every_chunk_is_delivered(true, rest, later);
        assert forall|i: int| 0 <= i < chunks.len() implies #[trigger] streamed(seen, lines).0[i]
            == delta_of(chunks[i]) by {
            if i > 0 {
                assert(streamed(seen, lines).0[i] == streamed(true, rest).0[i - 1]);
                assert(later[i - 1] == chunks[i]);
            }
        }
    }
}

/// A delta adds the text of its content, and nothing where it has none; what is left of a
/// failed stream is an answer where it is not blank.
pub proof fn law_deltas_add_their_content(delta: JsonTree, text: Seq<char>)
    ensures
        member(delta, "content"@) == Some(JsonTree::Text(text)) ==> added(delta) == text,
        !(member(delta, "content"@) matches Some(JsonTree::Text(_))) ==> added(delta).len() == 0,
        if_any(text) is None <==> is_blank(text),
        if_any(text) matches Some(t) ==> t == text,
{
    law_only_blank_texts_trim_to_nothing(text);
}

/// Whether a tool has a parameter under a key.
pub open spec fn offers(tool: JsonTree, key: Seq<char>) -> bool {
    schema_of(tool, "properties"@) matches Some(p) && (member(p, key) matches Some(d) && member(
        d,
        "type"@,
    ) == Some(JsonTree::Text("string"@)))
}

proof fn lemma_text_parameter(description: Seq<char>)
    ensures
        member(text_parameter(description), "type"@) == Some(JsonTree::Text("string"@)),
{
    reveal_strlit("type");
    reveal_strlit("description");
    assert("type"@.len() == 4 && "description"@.len() == 11);
    lemma_keys_stay(no_members(), "type"@, JsonTree::Text("string"@));
    lemma_keys_stay(
        with_member(no_members(), "type"@, JsonTree::Text("string"@)),
        "description"@,
        JsonTree::Text(description),
    );
}

proof fn lemma_two_parameters(a: Seq<char>, x: Seq<char>, b: Seq<char>, y: Seq<char>)
    requires
        a != b,
    ensures
        ({
            let p = with_member(
                with_member(no_members(), a, text_parameter(x)),
                b,
                text_parameter(y),
            );
            &&& p is Object
            &&& member(p, a) == Some(text_parameter(x))
            &&& member(p, b) == Some(text_parameter(y))
        }),
{
    lemma_keys_stay(no_members(), a, text_parameter(x));
    lemma_keys_stay(with_member(no_members(), a, text_parameter(x)), b, text_parameter(y));
}

/// Each of the three tools has a text parameter for everything that it requires.
pub proof fn law_tools_offer_what_they_require(en: bool, agent: Seq<char>)
    ensures
        offers(launch_tool(en, agent), "task"@),
        offers(launch_tool(en, agent), "text"@),
        offers(prompt_tool(en), "project"@),
        offers(prompt_tool(en), "prompt"@),
        offers(prompt_tool(en), "text"@),
        offers(switch_tool(en), "name"@),
        offers(switch_tool(en), "text"@),
{
    reveal_strlit("task");
    reveal_strlit("text");
    reveal_strlit("project");
    reveal_strlit("prompt");
    reveal_strlit("name");
    assert("task"@[1] != "text"@[1]);
    assert("name"@[1] != "text"@[1]);
    assert("project"@.len() == 7 && "prompt"@.len() == 6 && "text"@.len() == 4);
    let t1 = in_language(
        en,
        "Detailed description of the task"@,
        "Description détaillée de la tâche"@,
    );
    let t2 = in_language(
        en,
        "Short spoken reply in English (1-2 sentences)"@,
        "Réponse vocale courte à prononcer (1-2 phrases)"@,
    );
    let p1 = in_language(
        en,
        "Worktree/project name exactly as listed in the worktree state data"@,
        "Nom du worktree/projet tel que listé dans l'état des worktrees"@,
    );
    let p2 = in_language(
        en,
        "The complete detailed prompt to send to the agent (several sentences)"@,
        "Le prompt détaillé complet à envoyer à l'agent (plusieurs phrases)"@,
    );
    let p3 = in_language(en, "Short spoken confirmation in English"@, "Confirmation vocale courte"@);
    let s1 = in_language(en, "Project name in the registry"@, "Nom du projet dans le registre"@);
    let s2 = in_language(en, "Short spoken reply in English"@, "Réponse vocale courte"@);
    lemma_text_parameter(t1);
    lemma_text_parameter(t2);
    lemma_text_parameter(p1);
    lemma_text_parameter(p2);
    lemma_text_parameter(p3);
    lemma_text_parameter(s1);
    lemma_text_parameter(s2);
    lemma_two_parameters("task"@, t1, "text"@, t2);
    lemma_two_parameters("project"@, p1, "prompt"@, p2);
    lemma_two_parameters("name"@, s1, "text"@, s2);
    let launch = with_member(
        with_member(no_members(), "task"@, text_parameter(t1)),
        "text"@,
        text_parameter(t2),
    );
    let two = with_member(
        with_member(no_members(), "project"@, text_parameter(p1)),
        "prompt"@,
        text_parameter(p2),
    );
    lemma_keys_stay(two, "text"@, text_parameter(p3));
    let three = with_member(two, "text"@, text_parameter(p3));
    let switch = with_member(
        with_member(no_members(), "name"@, text_parameter(s1)),
        "text"@,
        text_parameter(s2),
    );
    law_a_tool_is_offered_whole(
        "launch_agent"@,
        launch_purpose(en, agent),
        launch,
        seq!["task"@, "text"@],
        0,
    );
    law_a_tool_is_offered_whole(
        "prompt_worktree"@,
        in_language(en, PROMPT_EN@, PROMPT_FR@),
        three,
        seq!["project"@, "prompt"@, "text"@],
        0,
    );
    law_a_tool_is_offered_whole(
        "switch_project"@,
        in_language(en, SWITCH_EN@, SWITCH_FR@),
        switch,
        seq!["name"@, "text"@],
        0,
    );
}

/// A question on its own goes to the model with the instructions, without a history and without
/// tools.
pub proof fn law_one_question_is_asked_alone(
    model: &str,
    system: &str,
    user: &str,
    max_tokens: u32,
    stream: bool,
    r: Json,
)
    requires
        call_ensures(once_request, (model, system, user, max_tokens, stream), r),
    ensures
        member(r@, "model"@) == Some(JsonTree::Text(model@)),
        member(r@, "messages"@) matches Some(JsonTree::List(items)) && items.len() == 2 && says(
            items[0],
            "system"@,
            system@,
        ) && says(items[1], "user"@, user@),
        member(r@, "tools"@) is None,
        member(r@, "max_tokens"@) == Some(JsonTree::Int(max_tokens as int)),
        member(r@, "stream"@) == Some(JsonTree::Bool(stream)),
{
    let h = seq![(Role::User, user@)];
    law_a_request_says_what_is_asked(
        model@,
        conversation(system@, h),
        None,
        max_tokens as int,
        stream,
    );
    law_the_whole_conversation_is_sent(system@, h, 0);
}

/// The answer that is handed out is the text of the reply, without white space and quotes
/// around it.
pub proof fn law_the_answer_is_handed_out(reply: &Json, r: Option<String>, text: Seq<char>)
    requires
        call_ensures(chat_once, (Some(reply),), r),
        reply_text(reply@) == Some(text),
    ensures
        r matches Some(t) && t@ == strip(trimmed(text), Class::Quotes),
{
}

/// A stream hands out the delta of every chunk, whether any came before or not, and remembers
/// that data came; only a stream without any data has failed in the end.
pub proof fn law_a_stream_hands_its_deltas_out(
    stream: &mut ChatStream,
    line: String,
    r: StreamStep,
    data: Seq<char>,
    chunk: JsonTree,
    after: &ChatStream,
    end: Result<(), String>,
)
    requires
        call_ensures(ChatStream::on_line, (stream, false, Ok(line)), r),
        line_data(line@) == Some(data),
        data != "[DONE]"@,
        json_of_text(data) == Some(chunk),
        after.seen() == final(stream).seen(),
        call_ensures(ChatStream::finish, (after,), end),
    ensures
        r matches StreamStep::Delta(d) && d@ == delta_of(chunk),
        final(stream).seen(),
        end is Ok,
{
}

/// A failed stream is asked for again only where nothing of it was said and no cancel came;
/// else what came of it is the answer, and nothing is said twice.
pub proof fn law_an_answer_is_not_said_twice(
    stream: OnceStream,
    failed: bool,
    cancelled: bool,
    r: OnceEnd,
)
    requires
        call_ensures(OnceStream::finish, (stream, failed, cancelled), r),
    ensures
        r is AskAgain <==> failed && !cancelled && sentences(stream@).len() == 0,
        r matches OnceEnd::Done { last, answer } ==> {
            &&& last is Some ==> !failed && !cancelled
            &&& !failed && !cancelled ==> last.deep_view() == last_words(remainder(stream@))
            &&& !failed ==> answer.deep_view() == full_answer(stream@)
            &&& failed ==> (answer is Some <==> !is_blank(stream@))
        },
{
    law_only_blank_texts_trim_to_nothing(stream@);
}

/// A delta adds its content to the answer, and the sentences that it completes are handed out.
pub proof fn law_an_answer_grows_by_its_deltas(
    stream: &mut OnceStream,
    delta: &Json,
    r: Vec<String>,
    text: Seq<char>,
)
    requires
        call_ensures(OnceStream::on_delta, (stream, delta), r),
        member(delta@, "content"@) == Some(JsonTree::Text(text)),
    ensures
        final(stream)@ == old(stream)@ + text,
        sentences(final(stream)@) == sentences(old(stream)@) + r.deep_view(),
{
    law_deltas_add_their_content(delta@, text);
}

/// What is read of a line, a reply or an answer is what it carries: the data behind "data:", the
/// content of the first choice, and the sentences of the answer.
pub proof fn law_replies_are_read_as_they_are(
    line: &str,
    kind: LineKind,
    reply: &Json,
    text: Option<String>,
    whole: String,
    said: (Vec<String>, Option<String>),
    data: Seq<char>,
)
    requires
        call_ensures(line_kind, (line,), kind),
        call_ensures(message_text, (reply,), text),
        call_ensures(answer_at_once, (Some(whole),), said),
    ensures
        line_data(line@) == Some(data) && data != "[DONE]"@ ==> (kind matches LineKind::Data(d)
            && d@ == data),
        line_data(line@) == Some("[DONE]"@) ==> kind is End,
        line_data(line@) is None ==> kind is Other,
        text.deep_view() == reply_text(reply@),
        said.0.deep_view() == spoken(whole@),
        said.1.deep_view() == Some(whole@),
{
}

} // verus!
