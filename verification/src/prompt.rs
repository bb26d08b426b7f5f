//! The instructions to the model.
use vstd::prelude::*;

use crate::conductor::{clean_snippet, snippet, views, Workspace, WorkspaceView};
use crate::paths::{name_project, project_name};
use crate::text::{
    cat2, cat3, cat4, cat5, head, in_language, in_turn, join, joined, keep_head,
    law_joined_texts_stand_in_turn, lemma_in_turn_concat, lemma_in_turn_itself, lemma_in_turn_more,
    lemma_in_turn_next, same, say_in,
};

verus! {

// ── The worktrees ────────────────────────────────────────────────────────────

/// What an agent is doing.
pub open spec fn status_words(en: bool, status: Seq<char>) -> Seq<char> {
    if status == "working"@ {
        in_language(en, "agent working"@, "agent en cours"@)
    } else if status == "error"@ {
        in_language(en, "agent ERRORED"@, "agent EN ERREUR"@)
    } else if status == "idle"@ {
        in_language(en, "agent idle"@, "agent au repos"@)
    } else {
        in_language(en, "status "@, "statut "@) + status
    }
}

fn say_status(en: bool, status: &str) -> (r: String)
    ensures
        r@ == status_words(en, status@),
{
    if same(status, "working") {
        say_in(en, "agent working", "agent en cours")
    } else if same(status, "error") {
        say_in(en, "agent ERRORED", "agent EN ERREUR")
    } else if same(status, "idle") {
        say_in(en, "agent idle", "agent au repos")
    } else {
        say_in(en, "status ", "statut ").concat(status)
    }
}

/// What a worktree was asked to do, where that is known: at most 120 characters.
pub open spec fn ask_words(en: bool, ask: Option<Seq<char>>) -> Seq<char> {
    match ask {
        Some(a) => in_language(en, " — original ask: \""@, " — demande initiale : \""@) + head(
            a,
            120,
        ) + "\""@,
        None => Seq::empty(),
    }
}

fn say_ask(en: bool, ask: &Option<String>) -> (r: String)
    ensures
        r@ == ask_words(en, ask.deep_view()),
{
    match ask {
        Some(a) => cat3(
            say_in(en, " — original ask: \"", " — demande initiale : \"").as_str(),
            keep_head(a.as_str(), 120).as_str(),
            "\"",
        ),
        None => String::new(),
    }
}

/// The line on a worktree, with what its last message comes down to.
pub open spec fn state_line(w: WorkspaceView, en: bool, preview: Option<Seq<char>>) -> Seq<char> {
    match w.session {
        None => "- "@ + w.project + " : "@ + in_language(en, "no agent"@, "aucun agent"@),
        Some(s) => "- "@ + w.project + " ("@ + s.agent + ", "@ + status_words(en, s.status) + ")"@
            + ask_words(en, s.original_ask) + " — "@ + in_language(
            en,
            "last message"@,
            "dernier message"@,
        ) + " : \""@ + (match preview {
            Some(p) => p,
            None => in_language(en, "(nothing new)"@, "(rien de neuf)"@),
        }) + "\""@,
    }
}

/// Writes the line on a worktree, with what its last message comes down to.
pub fn state_line_from(w: &Workspace, en: bool, preview: Option<String>) -> (r: String)
    ensures
        r@ == state_line(w@, en, preview.deep_view()),
{
    match &w.session {
        None => cat4(
            "- ",
            w.project.as_str(),
            " : ",
            say_in(en, "no agent", "aucun agent").as_str(),
        ),
        Some(s) => {
            let front = cat5("- ", w.project.as_str(), " (", s.agent.as_str(), ", ");
            let st = say_status(en, s.status.as_str());
            let ask = say_ask(en, &s.original_ask);
            let label = say_in(en, "last message", "dernier message");
            let last = match preview {
                Some(p) => p,
                None => say_in(en, "(nothing new)", "(rien de neuf)"),
            };
            let middle = cat5(front.as_str(), st.as_str(), ")", ask.as_str(), " — ");
            cat5(middle.as_str(), label.as_str(), " : \"", last.as_str(), "\"")
        },
    }
}

/// What the last message in a worktree comes down to.
pub open spec fn last_message(w: WorkspaceView) -> Option<Seq<char>> {
    match w.session {
        Some(s) => match s.preview {
            Some(p) => Some(snippet(p)),
            None => None,
        },
        None => None,
    }
}

fn find_last_message(w: &Workspace) -> (r: Option<String>)
    ensures
        r.deep_view() == last_message(w@),
{
    match &w.session {
        Some(s) => match &s.preview {
            Some(p) => Some(clean_snippet(p.as_str())),
            None => None,
        },
        None => None,
    }
}

/// The lines on the worktrees.
pub open spec fn state_lines(ws: Seq<WorkspaceView>, en: bool) -> Seq<Seq<char>> {
    ws.map_values(|w: WorkspaceView| state_line(w, en, last_message(w)))
}

pub const STATE_EN: &'static str =
    "\n\nCurrent Conductor worktree state (use ONLY this data to answer project questions):";

pub const STATE_FR: &'static str =
    "\n\nÉtat de tes worktrees Conductor (utilise UNIQUEMENT ces données pour répondre aux questions sur un projet) :";

/// The state of the worktrees; empty where there are none.
pub open spec fn state_context(ws: Seq<WorkspaceView>, en: bool) -> Seq<char> {
    if ws.len() == 0 {
        Seq::empty()
    } else {
        in_language(en, STATE_EN@, STATE_FR@) + "\n"@ + joined(state_lines(ws, en), "\n"@)
    }
}

/// Writes the state of the worktrees.
pub fn describe_state(ws: &Vec<Workspace>, en: bool) -> (r: String)
    ensures
        r@ == state_context(views(ws@), en),
{
    if ws.len() == 0 {
        return String::new();
    }
    let ghost wanted = state_lines(views(ws@), en);
    let mut lines: Vec<String> = Vec::new();
    assert(lines.deep_view() =~= wanted.take(0));
    for i in 0..ws.len()
        invariant
            wanted == state_lines(views(ws@), en),
            lines.deep_view() == wanted.take(i as int),
    {
        let ghost was = lines.deep_view();
        let line = state_line_from(&ws[i], en, find_last_message(&ws[i]));
        let ghost words = line@;
        lines.push(line);
        assert(lines.deep_view() =~= was.push(words));
        assert(wanted.take(i + 1) =~= was.push(wanted[i as int]));
    }
    assert(wanted.take(ws@.len() as int) =~= wanted);
    let heading = say_in(en, STATE_EN, STATE_FR);
    cat3(heading.as_str(), "\n", join(&lines, "\n").as_str())
}

// ── The instructions ─────────────────────────────────────────────────────────

pub const SYSTEM_EN: &'static str = "You are Vox, a voice AI assistant for a developer running many Conductor worktrees in parallel.\n\
    ABSOLUTE RULES:\n\
    - Reply in ENGLISH ONLY, never in French — even if the context data below is in French\n\
    - Maximum 1 short sentence (15 words max), always\n\
    - No lists, no file paths in the reply\n\
    - When asked about a project, SUMMARIZE the agent's last update in English — the data below may be in French; translate it, never quote French verbatim\n\
    - To judge progress, compare the agent's last message to the original ask in the data\n\
    - To delegate work to a specific worktree, call prompt_worktree — YOU write the full prompt (context, precise task, done criteria) from the conversation; keep 'text' to one sentence\n\
    - Never invent a project name, PR, or bug not in the data\n\n\
    Active project: ";

pub const SYSTEM_FR: &'static str = "Tu es Vox, assistant vocal d'un développeur qui gère plusieurs worktrees Conductor en parallèle.\n\
    RÈGLES ABSOLUES :\n\
    - Toujours en français, jamais en anglais\n\
    - Maximum 1 phrase courte (15 mots max)\n\
    - Pas de liste, pas de chemin de fichier dans la réponse\n\
    - Quand on te demande où en est un projet, cite ce que l'agent a dit en dernier dans les données ci-dessous\n\
    - Pour juger l'avancement, compare le dernier message de l'agent à la demande initiale dans les données\n\
    - Pour déléguer du travail à un worktree précis, appelle prompt_worktree — c'est TOI qui rédiges le prompt complet (contexte, tâche précise, critères de fin) à partir de la conversation ; 'text' reste une phrase\n\
    - N'invente jamais un projet, une PR, ou un bug qui n'est pas dans les données\n\n\
    Projet actif : ";

pub const REMINDER_EN: &'static str = "\n\nREMINDER: Answer in English, one short sentence.";

pub const REMINDER_FR: &'static str = "\n\nRAPPEL : Réponds en français, une phrase courte.";

/// The instructions: the rules, the active project, the state of the worktrees, and a
/// reminder of the language.
pub open spec fn instructions(
    language: Seq<char>,
    active: Seq<char>,
    ws: Seq<WorkspaceView>,
) -> Seq<char> {
    let en = language == "en"@;
    in_language(en, SYSTEM_EN@, SYSTEM_FR@) + project_name(active, active) + state_context(ws, en)
        + in_language(en, REMINDER_EN@, REMINDER_FR@)
}

/// Writes the instructions.
pub fn build_system(language: &str, active: &str, ws: &Vec<Workspace>) -> (r: String)
    ensures
        r@ == instructions(language@, active@, views(ws@)),
{
    let en = same(language, "en");
    let rules = say_in(en, SYSTEM_EN, SYSTEM_FR);
    let name = name_project(active, active);
    let state = describe_state(ws, en);
    let reminder = say_in(en, REMINDER_EN, REMINDER_FR);
    cat4(rules.as_str(), name.as_str(), state.as_str(), reminder.as_str())
}

pub const JSON_EN: &'static str = "\n\n\
    ALWAYS reply with a single valid JSON object on one line, with no surrounding text.\n\
    The \"text\" field must be in ENGLISH.\n\
    Examples:\n\
    {\"action\":\"none\",\"text\":\"Yes, I hear you.\"}\n\
    {\"action\":\"launch_agent\",\"task\":\"Fix the failing unit tests\",\"text\":\"I'm launching the agent on the tests.\"}\n\
    {\"action\":\"prompt_worktree\",\"project\":\"my-app\",\"prompt\":\"Fix the login redirect: after OAuth the user lands on /404. Reproduce, fix, add a test.\",\"text\":\"Sending the prompt to my-app.\"}\n\
    {\"action\":\"switch_project\",\"name\":\"my-app\",\"text\":\"Switching to my-app.\"}";

pub const JSON_FR: &'static str = "\n\n\
    Réponds TOUJOURS avec un objet JSON valide sur une seule ligne, sans aucun texte autour.\n\
    Exemples :\n\
    {\"action\":\"none\",\"text\":\"Oui, je t'entends bien.\"}\n\
    {\"action\":\"launch_agent\",\"task\":\"Corriger les tests unitaires qui échouent\",\"text\":\"Je lance l'agent sur les tests.\"}\n\
    {\"action\":\"prompt_worktree\",\"project\":\"mon-app\",\"prompt\":\"Corrige la redirection login : après OAuth on atterrit sur /404. Reproduis, corrige, ajoute un test.\",\"text\":\"J'envoie le prompt à mon-app.\"}\n\
    {\"action\":\"switch_project\",\"name\":\"mon-app\",\"text\":\"Je passe sur mon-app.\"}";

/// The instructions for a model without tools: reply in JSON, as in the examples.
pub fn json_system(base: &str, en: bool) -> (r: String)
    ensures
        r@ == base@ + in_language(en, JSON_EN@, JSON_FR@),
{
    cat2(base, say_in(en, JSON_EN, JSON_FR).as_str())
}

// ── Laws ─────────────────────────────────────────────────────────────────────

/// The words for the three statuses of an agent are their own, and any other status is told
/// as it is.
pub proof fn law_every_status_is_told(en: bool, status: Seq<char>)
    ensures
        status_words(en, "working"@) == (if en {
            "agent working"@
        } else {
            "agent en cours"@
        }),
        status_words(en, "error"@) == (if en {
            "agent ERRORED"@
        } else {
            "agent EN ERREUR"@
        }),
        status_words(en, "idle"@) == (if en {
            "agent idle"@
        } else {
            "agent au repos"@
        }),
        status != "working"@ && status != "error"@ && status != "idle"@ ==> in_turn(
            status_words(en, status),
            seq![status],
        ),
{
    reveal_strlit("working");
    reveal_strlit("error");
    reveal_strlit("idle");
    assert("working"@.len() == 7);
    assert("error"@.len() == 5);
    assert("idle"@.len() == 4);
    let none = Seq::<Seq<char>>::empty();
    let front = in_language(en, "status "@, "statut "@);
    lemma_in_turn_next(front, none, Seq::empty(), status);
    assert(none.push(status) =~= seq![status]);
    assert(front + Seq::<char>::empty() + status =~= front + status);
}

/// What the line on a worktree tells: its project behind a dash; where it has a session, its
/// agent and what that is doing, the first 120 characters of the original ask, where that is
/// known, and what its last message comes down to, or that there is none, each under its label;
/// and where it has none, that it has no agent.
pub open spec fn told(w: WorkspaceView, en: bool) -> Seq<Seq<char>> {
    match w.session {
        Some(s) => seq![
            "- "@ + w.project,
            " ("@ + s.agent,
            ", "@ + status_words(en, s.status) + ")"@,
            match s.original_ask {
                Some(a) => if en {
                    " — original ask: \""@ + head(a, 120) + "\""@
                } else {
                    " — demande initiale : \""@ + head(a, 120) + "\""@
                },
                None => Seq::empty(),
            },
            " — "@ + (if en {
                "last message"@
            } else {
                "dernier message"@
            }) + " : \""@ + (match s.preview {
                Some(p) => snippet(p),
                None => if en {
                    "(nothing new)"@
                } else {
                    "(rien de neuf)"@
                },
            }) + "\""@,
        ],
        None => seq![
            "- "@ + w.project,
            " : "@ + (if en {
                "no agent"@
            } else {
                "aucun agent"@
            }),
        ],
    }
}

/// There is one line for each worktree, in their order, and it tells all that is known of
/// the worktree, and nothing else: its project, agent and status, the original ask and the
/// last message.
pub proof fn law_a_line_tells_all_of_its_worktree(ws: Seq<WorkspaceView>, en: bool, i: int)
    requires
        0 <= i < ws.len(),
    ensures
        state_lines(ws, en).len() == ws.len(),
        in_turn(state_lines(ws, en)[i], told(ws[i], en)),
        state_lines(ws, en)[i] == joined(told(ws[i], en), Seq::empty()),
{
    lemma_line_is_told(ws[i], en);
    law_joined_texts_stand_in_turn(told(ws[i], en), Seq::empty());
}

proof fn lemma_line_is_told(w: WorkspaceView, en: bool)
    ensures
        state_line(w, en, last_message(w)) == joined(told(w, en), Seq::empty()),
{
    match w.session {
        None => {
            lemma_two_joined(
                "- "@ + w.project,
                " : "@,
                in_language(en, "no agent"@, "aucun agent"@),
            );
            assert(told(w, en) =~= seq![
                "- "@ + w.project,
                " : "@ + in_language(en, "no agent"@, "aucun agent"@),
            ]);
        },
        Some(s) => {
            let last = match s.preview {
                Some(p) => snippet(p),
                None => in_language(en, "(nothing new)"@, "(rien de neuf)"@),
            };
            lemma_session_line(
                "- "@ + w.project,
                s.agent,
                status_words(en, s.status),
                ask_words(en, s.original_ask),
                in_language(en, "last message"@, "dernier message"@),
                last,
            );
            assert(told(w, en) =~= seq![
                "- "@ + w.project,
                " ("@ + s.agent,
                ", "@ + status_words(en, s.status) + ")"@,
                ask_words(en, s.original_ask),
                " — "@ + in_language(en, "last message"@, "dernier message"@) + " : \""@ + last
                    + "\""@,
            ]);
        },
    }
}

proof fn lemma_two_joined(a: Seq<char>, b: Seq<char>, c: Seq<char>)
    ensures
        joined(seq![a, b + c], Seq::empty()) == a + b + c,
{
    let e = Seq::<char>::empty();
    let parts = seq![a, b + c];
    assert(joined(parts.drop_last(), e) =~= a);
    assert(joined(parts, e) =~= a + b + c);
}

proof fn lemma_session_line(
    a: Seq<char>,
    agent: Seq<char>,
    st: Seq<char>,
    ask: Seq<char>,
    label: Seq<char>,
    last: Seq<char>,
)
    ensures
        joined(
            seq![
                a,
                " ("@ + agent,
                ", "@ + st + ")"@,
                ask,
                " — "@ + label + " : \""@ + last + "\""@,
            ],
            Seq::empty(),
        ) == a + " ("@ + agent + ", "@ + st + ")"@ + ask + " — "@ + label + " : \""@ + last
            + "\""@,
{
    lemma_five_joined(
        seq![
            a,
            " ("@ + agent,
            ", "@ + st + ")"@,
            ask,
            " — "@ + label + " : \""@ + last + "\""@,
        ],
    );
    lemma_regrouped(a, " ("@, agent, ", "@, st, ")"@, ask);
    let front = a + " ("@ + agent + ", "@ + st + ")"@ + ask;
    lemma_regrouped(front, " — "@, label, " : \""@, last, "\""@, Seq::empty());
}

proof fn lemma_five_joined(parts: Seq<Seq<char>>)
    requires
        parts.len() == 5,
    ensures
        joined(parts, Seq::empty()) == parts[0] + parts[1] + parts[2] + parts[3] + parts[4],
{
    let e = Seq::<char>::empty();
    let p4 = parts.drop_last();
    let p3 = p4.drop_last();
    let p2 = p3.drop_last();
    let p1 = p2.drop_last();
    assert(joined(p1, e) =~= parts[0]);
    assert(joined(p2, e) =~= parts[0] + parts[1]);
    assert(joined(p3, e) =~= parts[0] + parts[1] + parts[2]);
    assert(joined(p4, e) =~= parts[0] + parts[1] + parts[2] + parts[3]);
    assert(joined(parts, e) =~= parts[0] + parts[1] + parts[2] + parts[3] + parts[4]);
}

proof fn lemma_regrouped(
    a: Seq<char>,
    b: Seq<char>,
    c: Seq<char>,
    d: Seq<char>,
    f: Seq<char>,
    g: Seq<char>,
    h: Seq<char>,
)
    ensures
        a + b + c + d + f + g + h == a + (b + c) + (d + f + g) + h,
        a + b + c + d + f + g == a + (b + c + d + f + g),
{
    assert(a + b + c + d + f + g + h =~= a + (b + c) + (d + f + g) + h);
    assert(a + b + c + d + f + g =~= a + (b + c + d + f + g));
}

proof fn lemma_laid_out_in_turn(
    rules: Seq<char>,
    name: Seq<char>,
    heading: Seq<char>,
    lines: Seq<Seq<char>>,
    reminder: Seq<char>,
)
    ensures
        in_turn(
            rules + name + (heading + "\n"@ + joined(lines, "\n"@)) + reminder,
            seq![rules, name, heading] + lines + seq![reminder],
        ),
{
    let e = Seq::<char>::empty();
    let below = joined(lines, "\n"@);
    lemma_in_turn_itself(rules);
    lemma_in_turn_next(rules, seq![rules], e, name);
    assert(rules + e =~= rules);
    let b = rules + name;
    lemma_in_turn_next(b, seq![rules].push(name), e, heading);
    assert(b + e =~= b);
    let top = b + heading;
    let parts = seq![rules].push(name).push(heading);
    lemma_in_turn_more(top, "\n"@, parts);
    law_joined_texts_stand_in_turn(lines, "\n"@);
    lemma_in_turn_concat(top + "\n"@, parts, below, lines);
    let body = top + "\n"@ + below;
    lemma_in_turn_next(body, parts + lines, e, reminder);
    assert(body + e =~= body);
    assert(body =~= b + (heading + "\n"@ + below));
    assert((parts + lines).push(reminder) =~= seq![rules, name, heading] + lines + seq![reminder]);
}

/// The instructions hold, in turn, the rules, the name of the active project, the heading of
/// the state with a line on every worktree below it, in their order, and the reminder; all of
/// it in the language that is spoken, and nothing else but the line breaks between the lines.
/// Without worktrees there is no heading.
pub proof fn law_the_instructions_hold_every_worktree(
    language: Seq<char>,
    active: Seq<char>,
    ws: Seq<WorkspaceView>,
)
    ensures
        language == "en"@ && ws.len() > 0 ==> in_turn(
            instructions(language, active, ws),
            seq![SYSTEM_EN@, project_name(active, active), STATE_EN@] + state_lines(ws, true)
                + seq![REMINDER_EN@],
        ),
        language != "en"@ && ws.len() > 0 ==> in_turn(
            instructions(language, active, ws),
            seq![SYSTEM_FR@, project_name(active, active), STATE_FR@] + state_lines(ws, false)
                + seq![REMINDER_FR@],
        ),
        language == "en"@ && ws.len() > 0 ==> instructions(language, active, ws).len()
            == SYSTEM_EN@.len() + project_name(active, active).len() + STATE_EN@.len() + 1 + joined(
            state_lines(ws, true),
            "\n"@,
        ).len() + REMINDER_EN@.len(),
        language != "en"@ && ws.len() > 0 ==> instructions(language, active, ws).len()
            == SYSTEM_FR@.len() + project_name(active, active).len() + STATE_FR@.len() + 1 + joined(
            state_lines(ws, false),
            "\n"@,
        ).len() + REMINDER_FR@.len(),
        language == "en"@ && ws.len() == 0 ==> instructions(language, active, ws) == SYSTEM_EN@
            + project_name(active, active) + REMINDER_EN@,
        language != "en"@ && ws.len() == 0 ==> instructions(language, active, ws) == SYSTEM_FR@
            + project_name(active, active) + REMINDER_FR@,
{
    let en = language == "en"@;
    let rules = in_language(en, SYSTEM_EN@, SYSTEM_FR@);
    let name = project_name(active, active);
    let heading = in_language(en, STATE_EN@, STATE_FR@);
    let reminder = in_language(en, REMINDER_EN@, REMINDER_FR@);
    if ws.len() == 0 {
        assert(rules + name + Seq::<char>::empty() + reminder =~= rules + name + reminder);
    } else {
        reveal_strlit("\n");
        lemma_laid_out_in_turn(rules, name, heading, state_lines(ws, en), reminder);
    }
}

/// The instructions that are handed out hold a line on every worktree, in their order, between
/// the heading and the reminder in the language that is spoken, and each line tells all that is
/// known of its worktree.
pub proof fn law_the_model_is_told_of_every_worktree(
    language: &str,
    active: &str,
    ws: &Vec<Workspace>,
    r: String,
    i: int,
)
    requires
        call_ensures(build_system, (language, active, ws), r),
        0 <= i < ws@.len(),
    ensures
        language@ == "en"@ ==> in_turn(
            r@,
            seq![SYSTEM_EN@, project_name(active@, active@), STATE_EN@] + state_lines(
                views(ws@),
                true,
            ) + seq![REMINDER_EN@],
        ) && in_turn(state_lines(views(ws@), true)[i], told(ws@[i]@, true)),
        language@ != "en"@ ==> in_turn(
            r@,
            seq![SYSTEM_FR@, project_name(active@, active@), STATE_FR@] + state_lines(
                views(ws@),
                false,
            ) + seq![REMINDER_FR@],
        ) && in_turn(state_lines(views(ws@), false)[i], told(ws@[i]@, false)),
        state_lines(views(ws@), language@ == "en"@).len() == ws@.len(),
{
    law_the_instructions_hold_every_worktree(language@, active@, views(ws@));
    law_a_line_tells_all_of_its_worktree(views(ws@), language@ == "en"@, i);
    assert(views(ws@)[i] == ws@[i]@);
}

/// A model without tools gets the same instructions, with the examples in the language that is
/// spoken behind them.
pub proof fn law_examples_follow_the_instructions(base: &str, en: bool, r: String)
    requires
        call_ensures(json_system, (base, en), r),
    ensures
        en ==> in_turn(r@, seq![base@, JSON_EN@]),
        !en ==> in_turn(r@, seq![base@, JSON_FR@]),
{
    let examples = in_language(en, JSON_EN@, JSON_FR@);
    lemma_in_turn_itself(base@);
    lemma_in_turn_next(base@, seq![base@], Seq::empty(), examples);
    assert(base@ + Seq::<char>::empty() =~= base@);
    assert(seq![base@].push(examples) =~= seq![base@, examples]);
}

} // verus!
