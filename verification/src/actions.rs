//! The actions that a reply of the model asks for, and what is said once they were
//! tried.
use vstd::prelude::*;

use crate::json::{lemma_trees, member, text_at, trees, Json, JsonTree};
use crate::text::{
    cat3, in_language, in_turn, is_blank, law_only_blank_texts_trim_to_nothing, lemma_in_turn_more,
    lemma_in_turn_next, same, say_in, trim, trimmed,
};

verus! {

/// An action by its name, with its arguments.
#[derive(Debug, PartialEq)]
pub struct ToolCall {
    pub name: String,
    pub args: Json,
}

/// What calls say: their names and arguments.
pub open spec fn calls_view(calls: Seq<ToolCall>) -> Seq<(Seq<char>, JsonTree)> {
    calls.map_values(|c: ToolCall| (c.name@, c.args@))
}

// ── One action ───────────────────────────────────────────────────────────────

/// What is to be done for an action.
#[derive(Debug, PartialEq)]
pub enum ActionStep {
    /// It is over. Where it failed, this line is said in place of the model's own.
    Done(Option<String>),
    /// Launch an agent in the active project.
    Launch { task: String },
    /// Look a worktree up, and launch an agent in it.
    Prompt { project: String, prompt: String },
}

pub enum ActionView {
    Done(Option<Seq<char>>),
    Launch { task: Seq<char> },
    Prompt { project: Seq<char>, prompt: Seq<char> },
}

impl View for ActionStep {
    type V = ActionView;

    open spec fn view(&self) -> ActionView {
        match self {
            ActionStep::Done(line) => ActionView::Done(line.deep_view()),
            ActionStep::Launch { task } => ActionView::Launch { task: task@ },
            ActionStep::Prompt { project, prompt } => ActionView::Prompt {
                project: project@,
                prompt: prompt@,
            },
        }
    }
}

/// The text under a key, or none at all.
pub open spec fn text_or_empty(t: JsonTree, key: Seq<char>) -> Seq<char> {
    match text_at(t, key) {
        Some(s) => s,
        None => Seq::empty(),
    }
}

fn read_text(j: &Json, key: &str) -> (r: String)
    ensures
        r@ == text_or_empty(j@, key@),
{
    match j.text(key) {
        Some(s) => s,
        None => String::new(),
    }
}

/// Where a project lies: as the registry says, or else as the action itself does.
pub open spec fn project_path(registry: JsonTree, args: JsonTree) -> Option<Seq<char>> {
    match text_at(registry, text_or_empty(args, "name"@)) {
        Some(path) => Some(path),
        None => text_at(args, "path"@),
    }
}

fn find_project(registry: &Json, args: &Json) -> (r: Option<String>)
    ensures
        r.deep_view() == project_path(registry@, args@),
{
    let name = read_text(args, "name");
    match registry.text(name.as_str()) {
        Some(path) => Some(path),
        None => args.text("path"),
    }
}

/// What is said of a project that nothing is known of.
pub open spec fn unknown_project(en: bool, name: Seq<char>) -> Seq<char> {
    if en {
        "I don't know the project \""@ + name + "\". Add it to ~/.vox/projects.json."@
    } else {
        "Je ne connais pas le projet \""@ + name + "\". Ajoute-le dans ~/.vox/projects.json."@
    }
}

/// What is to be done for an action.
pub open spec fn action_step(
    en: bool,
    registry: JsonTree,
    name: Seq<char>,
    args: JsonTree,
) -> ActionView {
    if name == "launch_agent"@ {
        match text_at(args, "task"@) {
            Some(task) => ActionView::Launch { task },
            None => ActionView::Done(None),
        }
    } else if name == "prompt_worktree"@ {
        let prompt = text_or_empty(args, "prompt"@);
        if trimmed(prompt).len() == 0 {
            ActionView::Done(
                Some(
                    in_language(
                        en,
                        "I need a prompt to send."@,
                        "Il me faut un prompt à envoyer."@,
                    ),
                ),
            )
        } else {
            ActionView::Prompt { project: text_or_empty(args, "project"@), prompt }
        }
    } else if name == "switch_project"@ && project_path(registry, args) is None {
        ActionView::Done(Some(unknown_project(en, text_or_empty(args, "name"@))))
    } else {
        ActionView::Done(None)
    }
}

/// The active project after an action.
pub open spec fn active_after(
    active: Seq<char>,
    registry: JsonTree,
    name: Seq<char>,
    args: JsonTree,
) -> Seq<char> {
    match project_path(registry, args) {
        Some(path) if name == "switch_project"@ => path,
        _ => active,
    }
}

proof fn lemma_names_differ()
    ensures
        "launch_agent"@ != "switch_project"@,
        "prompt_worktree"@ != "switch_project"@,
{
    reveal_strlit("launch_agent");
    reveal_strlit("prompt_worktree");
    reveal_strlit("switch_project");
    assert("launch_agent"@.len() == 12);
    assert("prompt_worktree"@.len() == 15);
    assert("switch_project"@.len() == 14);
}

/// Begins an action. A switch of projects is over at once.
pub fn apply_action(active: &mut String, en: bool, registry: &Json, name: &str, args: &Json) -> (r:
    ActionStep)
    ensures
        r@ == action_step(en, registry@, name@, args@),
        final(active)@ == active_after(old(active)@, registry@, name@, args@),
{
    proof {
        lemma_names_differ();
    }
    if same(name, "launch_agent") {
        match args.text("task") {
            Some(task) => ActionStep::Launch { task },
            None => ActionStep::Done(None),
        }
    } else if same(name, "prompt_worktree") {
        let project = read_text(args, "project");
        let prompt = read_text(args, "prompt");
        if trim(prompt.as_str()).as_str().is_empty() {
            ActionStep::Done(
                Some(
                    say_in(en, "I need a prompt to send.", "Il me faut un prompt à envoyer."),
                ),
            )
        } else {
            ActionStep::Prompt { project, prompt }
        }
    } else if same(name, "switch_project") {
        match find_project(registry, args) {
            Some(path) => {
                *active = path;
                ActionStep::Done(None)
            },
            None => {
                let wanted = read_text(args, "name");
                let line = if en {
                    cat3(
                        "I don't know the project \"",
                        wanted.as_str(),
                        "\". Add it to ~/.vox/projects.json.",
                    )
                } else {
                    cat3(
                        "Je ne connais pas le projet \"",
                        wanted.as_str(),
                        "\". Ajoute-le dans ~/.vox/projects.json.",
                    )
                };
                ActionStep::Done(Some(line))
            },
        }
    } else {
        ActionStep::Done(None)
    }
}

/// What is said once a launch in the active project was tried; nothing where the
/// agent started. `agent` is the name of the coding agent.
pub open spec fn launch_line(en: bool, agent: Seq<char>, started: bool) -> Option<Seq<char>> {
    if started {
        None
    } else if en {
        Some("I couldn't launch the agent — is the "@ + agent + " CLI installed?"@)
    } else {
        Some("Je n'ai pas pu lancer l'agent — le CLI "@ + agent + " est-il installé ?"@)
    }
}

/// Tells what to say once a launch in the active project was tried.
pub fn after_launch(en: bool, agent: &str, started: bool) -> (r: Option<String>)
    ensures
        r.deep_view() == launch_line(en, agent@, started),
{
    if started {
        None
    } else if en {
        Some(cat3("I couldn't launch the agent — is the ", agent, " CLI installed?"))
    } else {
        Some(cat3("Je n'ai pas pu lancer l'agent — le CLI ", agent, " est-il installé ?"))
    }
}

/// What came of a prompt for a worktree.
#[derive(Debug, PartialEq)]
pub enum PromptOutcome {
    /// There is no such worktree.
    NoWorktree,
    /// There is, but no agent could be started in it.
    NotStarted,
    /// An agent is at work on it.
    Started,
}

/// What is said once a prompt for a worktree was tried; nothing where an agent is at
/// work on it.
pub open spec fn prompt_line(en: bool, project: Seq<char>, outcome: PromptOutcome) -> Option<
    Seq<char>,
> {
    match outcome {
        PromptOutcome::Started => None,
        PromptOutcome::NotStarted => Some(
            in_language(
                en,
                "I found the worktree but couldn't launch the agent."@,
                "J'ai trouvé le worktree mais je n'ai pas pu lancer l'agent."@,
            ),
        ),
        PromptOutcome::NoWorktree => Some(
            if en {
                "I can't find the worktree \""@ + project + "\"."@
            } else {
                "Je ne trouve pas le worktree \""@ + project + "\"."@
            },
        ),
    }
}

/// Tells what to say once a prompt for a worktree was tried.
pub fn after_prompt(en: bool, project: &str, outcome: PromptOutcome) -> (r: Option<String>)
    ensures
        r.deep_view() == prompt_line(en, project@, outcome),
{
    match outcome {
        PromptOutcome::Started => None,
        PromptOutcome::NotStarted => Some(
            say_in(
                en,
                "I found the worktree but couldn't launch the agent.",
                "J'ai trouvé le worktree mais je n'ai pas pu lancer l'agent.",
            ),
        ),
        PromptOutcome::NoWorktree => Some(
            if en {
                cat3("I can't find the worktree \"", project, "\".")
            } else {
                cat3("Je ne trouve pas le worktree \"", project, "\".")
            },
        ),
    }
}

// ── The actions of a reply ───────────────────────────────────────────────────

/// The actions in a JSON reply: the items of a list, or else the reply itself.
pub open spec fn actions_in(parsed: JsonTree) -> Seq<JsonTree> {
    match parsed {
        JsonTree::List(items) => items,
        _ => seq![parsed],
    }
}

/// An item of a JSON reply as a call; without an action it asks for "none".
pub open spec fn call_of(item: JsonTree) -> (Seq<char>, JsonTree) {
    match text_at(item, "action"@) {
        Some(name) => (name, item),
        None => ("none"@, item),
    }
}

fn make_call(item: Json) -> (r: ToolCall)
    ensures
        (r.name@, r.args@) == call_of(item@),
{
    let name = match item.text("action") {
        Some(name) => name,
        None => "none".to_owned(),
    };
    ToolCall { name, args: item }
}

/// Takes the actions out of a JSON reply.
pub fn parsed_calls(parsed: Json) -> (r: Vec<ToolCall>)
    ensures
        calls_view(r@) == actions_in(parsed@).map_values(|item: JsonTree| call_of(item)),
{
    let mut out: Vec<ToolCall> = Vec::new();
    match parsed {
        Json::List(items) => {
            let ghost all = items@;
            proof {
                lemma_trees(all);
            }
            for item in it: items
                invariant
                    it.seq() == all,
                    out@.len() == it.index(),
                    forall|j: int|
                        0 <= j < it.index() ==> ((#[trigger] out@[j]).name@, out@[j].args@)
                            == call_of(all[j]@),
            {
                out.push(make_call(item));
            }
            assert(calls_view(out@) =~= trees(all).map_values(|item: JsonTree| call_of(item)));
            out
        },
        other => {
            let ghost t = other@;
            out.push(make_call(other));
            assert(calls_view(out@) =~= seq![t].map_values(|item: JsonTree| call_of(item)));
            out
        },
    }
}

/// The first of the parts that is not empty.
pub open spec fn first_filled(parts: Seq<Seq<char>>) -> Seq<char>
    decreases parts.len(),
{
    if parts.len() == 0 {
        Seq::empty()
    } else if first_filled(parts.drop_last()).len() > 0 {
        first_filled(parts.drop_last())
    } else {
        parts.last()
    }
}

/// What the model would say with each call.
pub open spec fn offered(calls: Seq<(Seq<char>, JsonTree)>) -> Seq<Seq<char>> {
    calls.map_values(|c: (Seq<char>, JsonTree)| text_or_empty(c.1, "text"@))
}

/// What the failures of calls say.
pub open spec fn failures(lines: Seq<Option<Seq<char>>>) -> Seq<Seq<char>> {
    lines.map_values(
        |l: Option<Seq<char>>|
            match l {
                Some(s) => s,
                None => Seq::empty(),
            },
    )
}

/// The line that is spoken once all calls were tried. A line on a failure outranks
/// the model's own, which would confirm what never happened.
pub open spec fn voice_line(
    calls: Seq<(Seq<char>, JsonTree)>,
    lines: Seq<Option<Seq<char>>>,
) -> Seq<char> {
    if first_filled(failures(lines)).len() > 0 {
        first_filled(failures(lines))
    } else {
        first_filled(offered(calls))
    }
}

/// The first line on a failure; empty where nothing failed.
pub fn failure_line(lines: &Vec<Option<String>>) -> (r: String)
    ensures
        r@ == first_filled(failures(lines.deep_view())),
{
    let mut r = String::new();
    let ghost all = failures(lines.deep_view());
    for i in 0..lines.len()
        invariant
            all == failures(lines.deep_view()),
            r@ == first_filled(all.take(i as int)),
    {
        proof {
            assert(all.take(i + 1).drop_last() =~= all.take(i as int));
            assert(all.take(i + 1).last() == all[i as int]);
        }
        if r.as_str().is_empty() {
            r = match &lines[i] {
                Some(s) => s.clone(),
                None => String::new(),
            };
        }
    }
    assert(all.take(lines@.len() as int) =~= all);
    r
}

/// The first line that the model offers; empty where it offers none.
pub fn offered_line(calls: &Vec<ToolCall>) -> (r: String)
    ensures
        r@ == first_filled(offered(calls_view(calls@))),
{
    let mut r = String::new();
    let ghost all = offered(calls_view(calls@));
    for i in 0..calls.len()
        invariant
            all == offered(calls_view(calls@)),
            r@ == first_filled(all.take(i as int)),
    {
        proof {
            assert(all.take(i + 1).drop_last() =~= all.take(i as int));
            assert(all.take(i + 1).last() == all[i as int]);
        }
        if r.as_str().is_empty() {
            r = read_text(&calls[i].args, "text");
        }
    }
    assert(all.take(calls@.len() as int) =~= all);
    r
}

/// Picks the line that is spoken once all calls were tried.
pub fn choose_voice(calls: &Vec<ToolCall>, lines: &Vec<Option<String>>) -> (r: String)
    ensures
        r@ == voice_line(calls_view(calls@), lines.deep_view()),
{
    let failed = failure_line(lines);
    if failed.as_str().is_empty() {
        offered_line(calls)
    } else {
        failed
    }
}

// ── Laws ─────────────────────────────────────────────────────────────────────

/// A delegation is confirmed only where an agent really started.
pub proof fn law_only_a_started_agent_is_confirmed(
    en: bool,
    agent: Seq<char>,
    started: bool,
    project: Seq<char>,
    outcome: PromptOutcome,
)
    ensures
        launch_line(en, agent, started) is None <==> started,
        prompt_line(en, project, outcome) is None <==> outcome is Started,
{
}

proof fn lemma_first_filled(parts: Seq<Seq<char>>, k: int)
    requires
        0 <= k < parts.len(),
        parts[k].len() > 0,
    ensures
        first_filled(parts).len() > 0,
    decreases parts.len(),
{
    if k < parts.len() - 1 {
        assert(parts.drop_last()[k] == parts[k]);
        lemma_first_filled(parts.drop_last(), k);
    }
}

proof fn lemma_filled_is_a_part(parts: Seq<Seq<char>>)
    requires
        first_filled(parts).len() > 0,
    ensures
        parts.contains(first_filled(parts)),
    decreases parts.len(),
{
    if first_filled(parts.drop_last()).len() > 0 {
        lemma_filled_is_a_part(parts.drop_last());
        let k = choose|k: int|
            0 <= k < parts.drop_last().len() && parts.drop_last()[k] == first_filled(parts);
        assert(parts[k] == first_filled(parts));
    } else {
        assert(parts[parts.len() - 1] == first_filled(parts));
    }
}

/// A line on a failure outranks what the model offers to say: where any call failed,
/// what is spoken is a line on a failure.
pub proof fn law_a_failure_is_told(
    calls: Seq<(Seq<char>, JsonTree)>,
    lines: Seq<Option<Seq<char>>>,
    k: int,
)
    requires
        0 <= k < lines.len(),
        lines[k] is Some,
        lines[k]->0.len() > 0,
    ensures
        lines.contains(Some(voice_line(calls, lines))),
{
    let all = failures(lines);
    assert(all[k] == lines[k]->0);
    lemma_first_filled(all, k);
    lemma_filled_is_a_part(all);
    let j = choose|j: int| 0 <= j < all.len() && all[j] == first_filled(all);
    assert(lines[j] == Some(first_filled(all)));
}

/// Every line on a failure says something.
pub proof fn law_failure_lines_are_not_empty(
    en: bool,
    agent: Seq<char>,
    project: Seq<char>,
    outcome: PromptOutcome,
    registry: JsonTree,
    name: Seq<char>,
    args: JsonTree,
)
    ensures
        launch_line(en, agent, false)->0.len() > 0,
        prompt_line(en, project, outcome) matches Some(line) ==> line.len() > 0,
        action_step(en, registry, name, args) matches ActionView::Done(Some(line)) ==> line.len()
            > 0,
{
    reveal_strlit(" CLI installed?");
    reveal_strlit(" est-il installé ?");
    reveal_strlit("I found the worktree but couldn't launch the agent.");
    reveal_strlit("J'ai trouvé le worktree mais je n'ai pas pu lancer l'agent.");
    reveal_strlit("\".");
    reveal_strlit("I need a prompt to send.");
    reveal_strlit("Il me faut un prompt à envoyer.");
    reveal_strlit("\". Add it to ~/.vox/projects.json.");
    reveal_strlit("\". Ajoute-le dans ~/.vox/projects.json.");
}

proof fn lemma_other_names_differ()
    ensures
        "launch_agent"@ != "prompt_worktree"@,
        "prompt_worktree"@ != "launch_agent"@,
        "switch_project"@ != "launch_agent"@,
        "switch_project"@ != "prompt_worktree"@,
{
    lemma_names_differ();
    reveal_strlit("launch_agent");
    reveal_strlit("prompt_worktree");
    assert("launch_agent"@.len() == 12);
    assert("prompt_worktree"@.len() == 15);
}

/// A prompt reaches the agent of the worktree as the model wrote it: every character of it,
/// for the project that the model named, and the active project stays.
pub proof fn law_a_prompt_is_passed_on_whole(
    en: bool,
    registry: JsonTree,
    active: Seq<char>,
    args: JsonTree,
    prompt: Seq<char>,
    project: Seq<char>,
)
    requires
        member(args, "prompt"@) == Some(JsonTree::Text(prompt)),
        !is_blank(prompt),
    ensures
        action_step(en, registry, "prompt_worktree"@, args) is Prompt,
        action_step(en, registry, "prompt_worktree"@, args)->prompt == prompt,
        member(args, "project"@) == Some(JsonTree::Text(project)) ==> action_step(
            en,
            registry,
            "prompt_worktree"@,
            args,
        )->project == project,
        !(member(args, "project"@) matches Some(JsonTree::Text(_))) ==> action_step(
            en,
            registry,
            "prompt_worktree"@,
            args,
        )->project.len() == 0,
        active_after(active, registry, "prompt_worktree"@, args) == active,
{
    lemma_other_names_differ();
    lemma_names_differ();
    law_only_blank_texts_trim_to_nothing(prompt);
}

/// Without a prompt, or with a blank one, no agent is started, and the user is told that a
/// prompt is needed.
pub proof fn law_no_agent_without_a_prompt(
    en: bool,
    registry: JsonTree,
    active: Seq<char>,
    args: JsonTree,
)
    requires
        member(args, "prompt"@) matches Some(JsonTree::Text(p)) ==> is_blank(p),
    ensures
        action_step(en, registry, "prompt_worktree"@, args) == ActionView::Done(
            Some(
                if en {
                    "I need a prompt to send."@
                } else {
                    "Il me faut un prompt à envoyer."@
                },
            ),
        ),
        active_after(active, registry, "prompt_worktree"@, args) == active,
{
    lemma_other_names_differ();
    lemma_names_differ();
    law_only_blank_texts_trim_to_nothing(text_or_empty(args, "prompt"@));
}

/// A task reaches the agent in the active project as the model wrote it; without a task
/// nothing is launched. The active project stays.
pub proof fn law_a_task_is_passed_on_whole(
    en: bool,
    registry: JsonTree,
    active: Seq<char>,
    args: JsonTree,
    task: Seq<char>,
)
    ensures
        member(args, "task"@) == Some(JsonTree::Text(task)) ==> action_step(
            en,
            registry,
            "launch_agent"@,
            args,
        ) == (ActionView::Launch { task }),
        !(member(args, "task"@) matches Some(JsonTree::Text(_))) ==> action_step(
            en,
            registry,
            "launch_agent"@,
            args,
        ) == ActionView::Done(None),
        active_after(active, registry, "launch_agent"@, args) == active,
{
    lemma_other_names_differ();
    lemma_names_differ();
}

/// A switch leads to the path that the registry has for the name; where it has none, to the
/// path that the model gives; and where there is neither, nowhere, which is told with the
/// name. Of a switch that succeeds nothing is said on its own.
pub proof fn law_a_switch_leads_where_the_registry_says(
    en: bool,
    registry: JsonTree,
    active: Seq<char>,
    args: JsonTree,
    name: Seq<char>,
    path: Seq<char>,
)
    requires
        member(args, "name"@) == Some(JsonTree::Text(name)),
    ensures
        member(registry, name) == Some(JsonTree::Text(path)) ==> active_after(
            active,
            registry,
            "switch_project"@,
            args,
        ) == path && action_step(en, registry, "switch_project"@, args) == ActionView::Done(None),
        !(member(registry, name) matches Some(JsonTree::Text(_))) && member(args, "path"@) == Some(
            JsonTree::Text(path),
        ) ==> active_after(active, registry, "switch_project"@, args) == path && action_step(
            en,
            registry,
            "switch_project"@,
            args,
        ) == ActionView::Done(None),
        !(member(registry, name) matches Some(JsonTree::Text(_))) && !(member(args, "path"@) matches
            Some(JsonTree::Text(_))) ==> active_after(active, registry, "switch_project"@, args)
            == active && (action_step(en, registry, "switch_project"@, args) matches
            ActionView::Done(Some(line)) && in_turn(line, seq![name])),
{
    lemma_other_names_differ();
    lemma_names_differ();
    law_failures_name_what_failed(en, name, name);
}

/// What is said of a failure names what failed: the project that is not known, the worktree
/// that was not found, or the agent that did not start.
pub proof fn law_failures_name_what_failed(en: bool, name: Seq<char>, agent: Seq<char>)
    ensures
        in_turn(unknown_project(en, name), seq![name]),
        in_turn(prompt_line(en, name, PromptOutcome::NoWorktree)->0, seq![name]),
        in_turn(launch_line(en, agent, false)->0, seq![agent]),
{
    let none = Seq::<Seq<char>>::empty();
    assert(none.push(name) =~= seq![name]);
    assert(none.push(agent) =~= seq![agent]);
    let e = Seq::<char>::empty();
    let a = if en {
        "I don't know the project \""@
    } else {
        "Je ne connais pas le projet \""@
    };
    let b = if en {
        "I can't find the worktree \""@
    } else {
        "Je ne trouve pas le worktree \""@
    };
    let c = if en {
        "I couldn't launch the agent — is the "@
    } else {
        "Je n'ai pas pu lancer l'agent — le CLI "@
    };
    lemma_in_turn_next(a, none, e, name);
    lemma_in_turn_next(b, none, e, name);
    lemma_in_turn_next(c, none, e, agent);
    assert(a + e + name =~= a + name);
    assert(b + e + name =~= b + name);
    assert(c + e + agent =~= c + agent);
    if en {
        lemma_in_turn_more(a + name, "\". Add it to ~/.vox/projects.json."@, seq![name]);
        lemma_in_turn_more(b + name, "\"."@, seq![name]);
        lemma_in_turn_more(c + agent, " CLI installed?"@, seq![agent]);
    } else {
        lemma_in_turn_more(a + name, "\". Ajoute-le dans ~/.vox/projects.json."@, seq![name]);
        lemma_in_turn_more(b + name, "\"."@, seq![name]);
        lemma_in_turn_more(c + agent, " est-il installé ?"@, seq![agent]);
    }
}

/// Only the three actions do anything: any other name launches nothing, says nothing and
/// leaves the active project as it is.
pub proof fn law_unknown_actions_do_nothing(
    en: bool,
    registry: JsonTree,
    active: Seq<char>,
    name: Seq<char>,
    args: JsonTree,
)
    requires
        name != "launch_agent"@,
        name != "prompt_worktree"@,
        name != "switch_project"@,
    ensures
        action_step(en, registry, name, args) == ActionView::Done(None),
        active_after(active, registry, name, args) == active,
{
}

/// Every item of a JSON reply is a call, in its order: under its action, or under "none"
/// where it has none. A reply that is no list is one item.
pub proof fn law_every_item_is_a_call(
    items: Seq<JsonTree>,
    item: JsonTree,
    action: Seq<char>,
)
    ensures
        actions_in(JsonTree::List(items)) == items,
        !(item is List) ==> actions_in(item) == seq![item],
        call_of(item).1 == item,
        member(item, "action"@) == Some(JsonTree::Text(action)) ==> call_of(item).0 == action,
        !(member(item, "action"@) matches Some(JsonTree::Text(_))) ==> call_of(item).0 == "none"@,
{
}

proof fn lemma_first_filled_is_first(parts: Seq<Seq<char>>, k: int)
    requires
        0 <= k < parts.len(),
        parts[k].len() > 0,
        forall|j: int| 0 <= j < k ==> (#[trigger] parts[j]).len() == 0,
    ensures
        first_filled(parts) == parts[k],
    decreases parts.len(),
{
    let t = parts.drop_last();
    if k < parts.len() - 1 {
        lemma_first_filled_is_first(t, k);
    } else if first_filled(t).len() > 0 {
        lemma_filled_is_a_part(t);
        let j = choose|j: int| 0 <= j < t.len() && t[j] == first_filled(t);
        assert(parts[j].len() == 0);
    }
}

/// The line that is spoken is the first line on a failure; where no call failed, the first
/// text that the model put into a call; and where there is none either, nothing is spoken.
pub proof fn law_the_first_line_is_spoken(
    calls: Seq<(Seq<char>, JsonTree)>,
    lines: Seq<Option<Seq<char>>>,
    k: int,
    line: Seq<char>,
)
    requires
        line.len() > 0,
    ensures
        0 <= k < lines.len() && lines[k] == Some(line) && (forall|j: int|
            0 <= j < k ==> (#[trigger] lines[j] is None || lines[j]->0.len() == 0)) ==> voice_line(
            calls,
            lines,
        ) == line,
        0 <= k < calls.len() && member(calls[k].1, "text"@) == Some(JsonTree::Text(line)) && (
        forall|j: int|
            0 <= j < k ==> !(member((#[trigger] calls[j]).1, "text"@) matches Some(
                JsonTree::Text(t),
            ) && t.len() > 0)) && (forall|j: int|
            0 <= j < lines.len() ==> (#[trigger] lines[j] is None || lines[j]->0.len() == 0))
            ==> voice_line(calls, lines) == line,
        (forall|j: int|
            0 <= j < lines.len() ==> (#[trigger] lines[j] is None || lines[j]->0.len() == 0)) && (
        forall|j: int|
            0 <= j < calls.len() ==> !(member((#[trigger] calls[j]).1, "text"@) matches Some(
                JsonTree::Text(t),
            ) && t.len() > 0)) ==> voice_line(calls, lines).len() == 0,
{
    let f = failures(lines);
    let o = offered(calls);
    if 0 <= k < lines.len() && lines[k] == Some(line) && (forall|j: int|
        0 <= j < k ==> (#[trigger] lines[j] is None || lines[j]->0.len() == 0)) {
        assert forall|j: int| 0 <= j < k implies (#[trigger] f[j]).len() == 0 by {
            assert(lines[j] is None || lines[j]->0.len() == 0);
        }
        lemma_first_filled_is_first(f, k);
    }
    if forall|j: int|
        0 <= j < lines.len() ==> (#[trigger] lines[j] is None || lines[j]->0.len() == 0) {
        if first_filled(f).len() > 0 {
            lemma_filled_is_a_part(f);
            let j = choose|j: int| 0 <= j < f.len() && f[j] == first_filled(f);
            assert(lines[j] is None || lines[j]->0.len() == 0);
        }
        if 0 <= k < calls.len() && member(calls[k].1, "text"@) == Some(JsonTree::Text(line)) && (
        forall|j: int|
            0 <= j < k ==> !(member((#[trigger] calls[j]).1, "text"@) matches Some(
                JsonTree::Text(t),
            ) && t.len() > 0)) {
            assert forall|j: int| 0 <= j < k implies (#[trigger] o[j]).len() == 0 by {
                assert(o[j] == text_or_empty(calls[j].1, "text"@));
            }
            assert(o[k] == line);
            lemma_first_filled_is_first(o, k);
        }
        if forall|j: int|
            0 <= j < calls.len() ==> !(member((#[trigger] calls[j]).1, "text"@) matches Some(
                JsonTree::Text(t),
            ) && t.len() > 0) {
            if first_filled(o).len() > 0 {
                lemma_filled_is_a_part(o);
                let j = choose|j: int| 0 <= j < o.len() && o[j] == first_filled(o);
                assert(o[j] == text_or_empty(calls[j].1, "text"@));
            }
        }
    }
}

/// What is handed out for an action is what the model asked for: the whole prompt for the
/// project that it named, or the whole task; and neither switches the active project.
pub proof fn law_an_action_is_what_the_model_asked_for(
    active: &mut String,
    en: bool,
    registry: &Json,
    name: &str,
    args: &Json,
    r: ActionStep,
    text: Seq<char>,
    project: Seq<char>,
)
    requires
        call_ensures(apply_action, (active, en, registry, name, args), r),
    ensures
        name@ == "prompt_worktree"@ && member(args@, "prompt"@) == Some(JsonTree::Text(text))
            && !is_blank(text) && member(args@, "project"@) == Some(JsonTree::Text(project)) ==> (
        r matches ActionStep::Prompt { project: p, prompt } && p@ == project && prompt@ == text)
            && final(active)@ == old(active)@,
        name@ == "launch_agent"@ && member(args@, "task"@) == Some(JsonTree::Text(text)) ==> (
        r matches ActionStep::Launch { task } && task@ == text) && final(active)@ == old(active)@,
        name@ == "switch_project"@ && member(args@, "name"@) == Some(JsonTree::Text(project))
            && member(registry@, project) == Some(JsonTree::Text(text)) ==> final(active)@ == text
            && r == ActionStep::Done(None),
{
    if name@ == "prompt_worktree"@ && member(args@, "prompt"@) == Some(JsonTree::Text(text))
        && !is_blank(text) {
        law_a_prompt_is_passed_on_whole(en, registry@, old(active)@, args@, text, project);
    }
    if name@ == "launch_agent"@ {
        law_a_task_is_passed_on_whole(en, registry@, old(active)@, args@, text);
    }
    if name@ == "switch_project"@ && member(args@, "name"@) == Some(JsonTree::Text(project)) {
        law_a_switch_leads_where_the_registry_says(
            en,
            registry@,
            old(active)@,
            args@,
            project,
            text,
        );
    }
}

/// What is spoken at the end is the first line on a failure, where any call failed.
pub proof fn law_the_chosen_line_tells_of_a_failure(
    calls: &Vec<ToolCall>,
    lines: &Vec<Option<String>>,
    r: String,
    k: int,
)
    requires
        call_ensures(choose_voice, (calls, lines), r),
        0 <= k < lines@.len(),
        lines@[k] is Some,
        lines@[k]->0@.len() > 0,
        forall|j: int|
            0 <= j < k ==> (#[trigger] lines@[j] is None || lines@[j]->0@.len() == 0),
    ensures
        r@ == lines@[k]->0@,
{
    let all = lines.deep_view();
    assert(all[k] == Some(lines@[k]->0@));
    assert forall|j: int| 0 <= j < k implies (#[trigger] all[j] is None || all[j]->0.len() == 0) by {
        assert(lines@[j] is None || lines@[j]->0@.len() == 0);
    }
    law_the_first_line_is_spoken(calls_view(calls@), all, k, lines@[k]->0@);
}

/// What is said after a launch or a prompt was tried is what came of it, and every item of a
/// JSON reply becomes a call.
pub proof fn law_only_failures_are_reported(
    en: bool,
    agent: &str,
    started: bool,
    launched: Option<String>,
    project: &str,
    outcome: PromptOutcome,
    prompted: Option<String>,
    parsed: Json,
    calls: Vec<ToolCall>,
    i: int,
)
    requires
        call_ensures(after_launch, (en, agent, started), launched),
        call_ensures(after_prompt, (en, project, outcome), prompted),
        call_ensures(parsed_calls, (parsed,), calls),
    ensures
        launched is None <==> started,
        launched matches Some(line) ==> in_turn(line@, seq![agent@]),
        prompted is None <==> outcome is Started,
        outcome is NoWorktree ==> (prompted matches Some(line) && in_turn(line@, seq![project@])),
        calls@.len() == actions_in(parsed@).len(),
        0 <= i < calls@.len() ==> calls@[i].args@ == actions_in(parsed@)[i] && calls@[i].name@
            == call_of(actions_in(parsed@)[i]).0,
{
    law_only_a_started_agent_is_confirmed(en, agent@, started, project@, outcome);
    law_failures_name_what_failed(en, project@, agent@);
    let v = calls_view(calls@);
    assert(v.len() == calls@.len());
    if 0 <= i < v.len() {
        assert(v[i] == (calls@[i].name@, calls@[i].args@));
    }
}

} // verus!
