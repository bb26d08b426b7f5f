//! The startup brief: what is said of the worktrees, and what the model is asked
//! about them. Phrasing varies, and quiet worktrees share one sentence.
use vstd::prelude::*;

use crate::conductor::{clean_snippet, snippet, views, SessionView, Workspace, WorkspaceView};
use crate::pattern::{
    is_match, matches_in, remove_first, without_error_tag, ERROR_TAG, QUESTION_WORD,
};
use crate::speech::{SpeechItem, SpeechItemView};
use crate::state::{later, law_interrupt_is_for_good};
use crate::text::{
    cat2, cat3, cat4, cat5, chars_of, decimal, in_language, in_turn, is_blank, is_space, join,
    join_first, joined, law_joined_texts_stand_in_turn, lemma_in_turn_concat, lemma_in_turn_itself,
    lemma_in_turn_more, lemma_in_turn_next, lemma_strip_back_at, same, say_in, strip_back,
    to_decimal, trim_back, Class,
};

verus! {

/// A list of names: with "and" before the last of up to four; of more, the first
/// two and the number of the others.
pub open spec fn name_list(names: Seq<Seq<char>>, en: bool) -> Seq<char> {
    let and = if en {
        " and "@
    } else {
        " et "@
    };
    if names.len() == 0 {
        Seq::empty()
    } else if names.len() == 1 {
        names[0]
    } else if names.len() <= 4 {
        joined(names.drop_last(), ", "@) + and + names.last()
    } else {
        names[0] + ", "@ + names[1] + and + decimal((names.len() - 2) as nat) + (if en {
            " others"@
        } else {
            " autres"@
        })
    }
}

/// Joins names into a list that can be spoken.
pub fn join_names(names: &Vec<String>, en: bool) -> (r: String)
    ensures
        r@ == name_list(names.deep_view(), en),
{
    let and = if en {
        " and "
    } else {
        " et "
    };
    let n = names.len();
    if n == 0 {
        String::new()
    } else if n == 1 {
        names[0].clone()
    } else if n <= 4 {
        let head = join_first(names, n - 1, ", ");
        assert(names.deep_view().take(n - 1) =~= names.deep_view().drop_last());
        assert(names.deep_view().last() == names@[n - 1]@);
        cat3(head.as_str(), and, names[n - 1].as_str())
    } else {
        let first = cat5(
            names[0].as_str(),
            ", ",
            names[1].as_str(),
            and,
            to_decimal((n - 2) as u128).as_str(),
        );
        if en {
            first.concat(" others")
        } else {
            first.concat(" autres")
        }
    }
}

// ── Lines ────────────────────────────────────────────────────────────────────

/// What the brief has to say of one worktree.
#[derive(Debug, PartialEq)]
pub enum BriefLine {
    /// Nothing.
    Silent,
    /// Nothing new: it belongs in the sentence on the quiet ones.
    Quiet,
    /// A sentence of its own.
    Say(String),
}

pub enum BriefLineView {
    Silent,
    Quiet,
    Say(Seq<char>),
}

impl View for BriefLine {
    type V = BriefLineView;

    open spec fn view(&self) -> BriefLineView {
        match self {
            BriefLine::Silent => BriefLineView::Silent,
            BriefLine::Quiet => BriefLineView::Quiet,
            BriefLine::Say(t) => BriefLineView::Say(t@),
        }
    }
}

/// The phrasings for a working agent `a` on project `p`.
pub open spec fn working_phrase(en: bool, v: int, a: Seq<char>, p: Seq<char>) -> Seq<char> {
    if en {
        if v == 0 {
            "Agent "@ + a + " is still working on "@ + p + "."@
        } else if v == 1 {
            p + ": agent "@ + a + " is on it right now."@
        } else {
            "Work is moving on "@ + p + " with agent "@ + a + "."@
        }
    } else {
        if v == 0 {
            "L'agent "@ + a + " bosse encore sur "@ + p + "."@
        } else if v == 1 {
            p + " : l'agent "@ + a + " est toujours au travail."@
        } else {
            "Ça avance sur "@ + p + ", l'agent "@ + a + " est dessus."@
        }
    }
}

fn say_working(en: bool, v: usize, a: &str, p: &str) -> (r: String)
    ensures
        r@ == working_phrase(en, v as int, a@, p@),
{
    if en {
        if v == 0 {
            cat5("Agent ", a, " is still working on ", p, ".")
        } else if v == 1 {
            cat4(p, ": agent ", a, " is on it right now.")
        } else {
            cat5("Work is moving on ", p, " with agent ", a, ".")
        }
    } else {
        if v == 0 {
            cat5("L'agent ", a, " bosse encore sur ", p, ".")
        } else if v == 1 {
            cat4(p, " : l'agent ", a, " est toujours au travail.")
        } else {
            cat5("Ça avance sur ", p, ", l'agent ", a, " est dessus.")
        }
    }
}

/// The phrasings for an error on project `p`.
pub open spec fn error_phrase(en: bool, v: int, p: Seq<char>, detail: Seq<char>) -> Seq<char> {
    if en {
        if v == 0 {
            "There's an error on "@ + p + "."@
        } else if v == 1 {
            "Heads up — "@ + p + " errored out."@
        } else {
            p + " hit a problem."@
        }
    } else {
        if v == 0 {
            "Il y a une erreur sur "@ + p + ", "@ + (if detail.len() == 0 {
                "agent en échec"@
            } else {
                detail
            }) + "."@
        } else if v == 1 {
            "Attention, "@ + p + " est en erreur."@
        } else {
            p + " a un souci, jette un œil."@
        }
    }
}

fn say_error(en: bool, v: usize, p: &str, detail: &str) -> (r: String)
    ensures
        r@ == error_phrase(en, v as int, p@, detail@),
{
    if en {
        if v == 0 {
            cat3("There's an error on ", p, ".")
        } else if v == 1 {
            cat3("Heads up — ", p, " errored out.")
        } else {
            cat2(p, " hit a problem.")
        }
    } else {
        if v == 0 {
            let d = if detail.is_empty() {
                "agent en échec"
            } else {
                detail
            };
            cat5("Il y a une erreur sur ", p, ", ", d, ".")
        } else if v == 1 {
            cat3("Attention, ", p, " est en erreur.")
        } else {
            cat2(p, " a un souci, jette un œil.")
        }
    }
}

/// The phrasings for a question pending on project `p`.
pub open spec fn question_phrase(en: bool, v: int, p: Seq<char>, preview: Seq<char>) -> Seq<char> {
    if en {
        if v == 0 {
            p + " is waiting for your answer."@
        } else if v == 1 {
            "The agent on "@ + p + " asked you something."@
        } else {
            "There's a pending question on "@ + p + "."@
        }
    } else {
        if v == 0 {
            p + " attend ta réponse : "@ + preview
        } else if v == 1 {
            "L'agent de "@ + p + " te pose une question : "@ + preview
        } else {
            "Question en attente sur "@ + p + " : "@ + preview
        }
    }
}

fn say_question(en: bool, v: usize, p: &str, preview: &str) -> (r: String)
    ensures
        r@ == question_phrase(en, v as int, p@, preview@),
{
    if en {
        if v == 0 {
            cat2(p, " is waiting for your answer.")
        } else if v == 1 {
            cat3("The agent on ", p, " asked you something.")
        } else {
            cat3("There's a pending question on ", p, ".")
        }
    } else {
        if v == 0 {
            cat3(p, " attend ta réponse : ", preview)
        } else if v == 1 {
            cat4("L'agent de ", p, " te pose une question : ", preview)
        } else {
            cat4("Question en attente sur ", p, " : ", preview)
        }
    }
}

/// The phrasings for project `p` being finished.
pub open spec fn finished_phrase(en: bool, v: int, p: Seq<char>) -> Seq<char> {
    if en {
        if v == 0 {
            "The agent on "@ + p + " is done — you'll need to test it."@
        } else if v == 1 {
            p + " is ready for you to try."@
        } else {
            p + " finished; give it a quick test."@
        }
    } else {
        if v == 0 {
            "L'agent sur "@ + p + " a terminé, il te faudra tester."@
        } else if v == 1 {
            p + " est prêt, à tester quand tu veux."@
        } else {
            "C'est terminé sur "@ + p + ", un petit test s'impose."@
        }
    }
}

fn say_finished(en: bool, v: usize, p: &str) -> (r: String)
    ensures
        r@ == finished_phrase(en, v as int, p@),
{
    if en {
        if v == 0 {
            cat3("The agent on ", p, " is done — you'll need to test it.")
        } else if v == 1 {
            cat2(p, " is ready for you to try.")
        } else {
            cat2(p, " finished; give it a quick test.")
        }
    } else {
        if v == 0 {
            cat3("L'agent sur ", p, " a terminé, il te faudra tester.")
        } else if v == 1 {
            cat2(p, " est prêt, à tester quand tu veux.")
        } else {
            cat3("C'est terminé sur ", p, ", un petit test s'impose.")
        }
    }
}

/// The phrasings for project `p` being blocked on the user.
pub open spec fn waiting_phrase(en: bool, v: int, p: Seq<char>) -> Seq<char> {
    if en {
        if v == 0 {
            p + " is waiting on you to continue."@
        } else if v == 1 {
            "The agent on "@ + p + " is blocked, waiting for your input."@
        } else {
            p + " needs you before it can move on."@
        }
    } else {
        if v == 0 {
            p + " attend ton feu vert pour continuer."@
        } else if v == 1 {
            "L'agent sur "@ + p + " est bloqué, il attend ta réponse."@
        } else {
            p + " a besoin de toi pour avancer."@
        }
    }
}

fn say_waiting(en: bool, v: usize, p: &str) -> (r: String)
    ensures
        r@ == waiting_phrase(en, v as int, p@),
{
    if en {
        if v == 0 {
            cat2(p, " is waiting on you to continue.")
        } else if v == 1 {
            cat3("The agent on ", p, " is blocked, waiting for your input.")
        } else {
            cat2(p, " needs you before it can move on.")
        }
    } else {
        if v == 0 {
            cat2(p, " attend ton feu vert pour continuer.")
        } else if v == 1 {
            cat3("L'agent sur ", p, " est bloqué, il attend ta réponse.")
        } else {
            cat2(p, " a besoin de toi pour avancer.")
        }
    }
}

/// The phrasings for the quiet projects of a list.
pub open spec fn quiet_phrase(en: bool, v: int, list: Seq<char>) -> Seq<char> {
    if en {
        if v == 0 {
            "Nothing new on "@ + list + "."@
        } else if v == 1 {
            "All quiet on "@ + list + "."@
        } else {
            list + ": nothing to report."@
        }
    } else {
        if v == 0 {
            "Rien de nouveau sur "@ + list + "."@
        } else if v == 1 {
            "Toujours calme côté "@ + list + "."@
        } else {
            list + " : rien à signaler."@
        }
    }
}

fn say_quiet(en: bool, v: usize, list: &str) -> (r: String)
    ensures
        r@ == quiet_phrase(en, v as int, list@),
{
    if en {
        if v == 0 {
            cat3("Nothing new on ", list, ".")
        } else if v == 1 {
            cat3("All quiet on ", list, ".")
        } else {
            cat2(list, ": nothing to report.")
        }
    } else {
        if v == 0 {
            cat3("Rien de nouveau sur ", list, ".")
        } else if v == 1 {
            cat3("Toujours calme côté ", list, ".")
        } else {
            cat2(list, " : rien à signaler.")
        }
    }
}

/// What the status of a session calls for, with phrasing `v`: its preview, whether
/// that is a question, and the detail of its error are given.
pub open spec fn status_line(
    s: SessionView,
    p: Seq<char>,
    en: bool,
    v: int,
    preview: Seq<char>,
    question: bool,
    detail: Seq<char>,
) -> BriefLineView {
    if s.status == "working"@ {
        BriefLineView::Say(working_phrase(en, v, s.agent, p))
    } else if s.status == "error"@ {
        BriefLineView::Say(error_phrase(en, v, p, detail))
    } else if s.status == "idle"@ {
        if question && preview.len() > 0 {
            BriefLineView::Say(question_phrase(en, v, p, preview))
        } else if s.unread_count > 0 {
            BriefLineView::Say(finished_phrase(en, v, p))
        } else {
            BriefLineView::Quiet
        }
    } else if s.status == "waiting"@ {
        BriefLineView::Say(waiting_phrase(en, v, p))
    } else {
        BriefLineView::Silent
    }
}

/// What is said of a worktree whose preview, question and error detail are given.
/// Without a session, or with an unknown status, nothing is said: that is better
/// than wrongly claiming that all is quiet.
pub fn line_from(
    w: &Workspace,
    en: bool,
    v: usize,
    preview: &str,
    question: bool,
    detail: &str,
) -> (r: BriefLine)
    ensures
        r@ == (match w@.session {
            Some(s) => status_line(s, w@.project, en, v as int, preview@, question, detail@),
            None => BriefLineView::Silent,
        }),
{
    let p = w.project.as_str();
    match &w.session {
        None => BriefLine::Silent,
        Some(s) => {
            let status = s.status.as_str();
            if same(status, "working") {
                BriefLine::Say(say_working(en, v, s.agent.as_str(), p))
            } else if same(status, "error") {
                BriefLine::Say(say_error(en, v, p, detail))
            } else if same(status, "idle") {
                if question && !preview.is_empty() {
                    BriefLine::Say(say_question(en, v, p, preview))
                } else if s.unread_count > 0 {
                    BriefLine::Say(say_finished(en, v, p))
                } else {
                    BriefLine::Quiet
                }
            } else if same(status, "waiting") {
                BriefLine::Say(say_waiting(en, v, p))
            } else {
                BriefLine::Silent
            }
        },
    }
}

/// The raw preview of a worktree.
pub open spec fn raw_preview(w: WorkspaceView) -> Seq<char> {
    match w.session {
        Some(s) => match s.preview {
            Some(t) => t,
            None => Seq::empty(),
        },
        None => Seq::empty(),
    }
}

/// Whether a preview looks like a question: the raw one ends in a question mark,
/// which the snippet of "summary. Question?" no longer shows, or the snippet
/// holds a word that asks.
pub open spec fn looks_like_question(raw: Seq<char>) -> bool {
    let bare = strip_back(raw, Class::Space);
    bare.len() > 0 && bare.last() == '?' || matches_in(QUESTION_WORD@, snippet(raw))
}

/// The line on a worktree with phrasing `v`.
pub open spec fn line(w: WorkspaceView, en: bool, v: int) -> BriefLineView {
    let raw = raw_preview(w);
    match w.session {
        Some(s) => status_line(
            s,
            w.project,
            en,
            v,
            snippet(raw),
            looks_like_question(raw),
            without_error_tag(snippet(raw)),
        ),
        None => BriefLineView::Silent,
    }
}

fn make_line(w: &Workspace, en: bool, v: usize) -> (r: BriefLine)
    ensures
        r@ == line(w@, en, v as int),
{
    let raw: String = match &w.session {
        None => {
            return BriefLine::Silent;
        },
        Some(s) => match &s.preview {
            Some(t) => t.clone(),
            None => String::new(),
        },
    };
    let preview = clean_snippet(raw.as_str());
    let bare = chars_of(trim_back(raw.as_str(), &Class::Space).as_str());
    let question = (bare.len() > 0 && bare[bare.len() - 1] == '?') || is_match(
        QUESTION_WORD,
        preview.as_str(),
    );
    let detail = remove_first(ERROR_TAG, preview.as_str());
    line_from(w, en, v, preview.as_str(), question, detail.as_str())
}

// ── The brief ────────────────────────────────────────────────────────────────

/// The lines on the worktrees, with phrasings that rotate from `seed` on.
pub open spec fn lines(ws: Seq<WorkspaceView>, en: bool, seed: nat) -> Seq<BriefLineView> {
    Seq::new(ws.len(), |i: int| line(ws[i], en, (seed + i) % 3))
}

/// The sentences among the lines, each with the project that it is about.
pub open spec fn said_lines(
    ws: Seq<WorkspaceView>,
    ls: Seq<BriefLineView>,
) -> Seq<(Seq<char>, Option<Seq<char>>)>
    decreases ls.len(),
{
    if ls.len() == 0 {
        Seq::empty()
    } else {
        let before = said_lines(ws, ls.drop_last());
        match ls.last() {
            BriefLineView::Say(t) => before.push((t, Some(ws[ls.len() - 1].project))),
            _ => before,
        }
    }
}

/// The projects of the quiet lines.
pub open spec fn quiet_projects(ws: Seq<WorkspaceView>, ls: Seq<BriefLineView>) -> Seq<Seq<char>>
    decreases ls.len(),
{
    if ls.len() == 0 {
        Seq::empty()
    } else {
        let before = quiet_projects(ws, ls.drop_last());
        match ls.last() {
            BriefLineView::Quiet => before.push(ws[ls.len() - 1].project),
            _ => before,
        }
    }
}

/// The brief: the sentences, then one on all the quiet projects, which carries
/// the name of the first of them.
pub open spec fn brief(ws: Seq<WorkspaceView>, en: bool, seed: nat) -> Seq<
    (Seq<char>, Option<Seq<char>>),
> {
    let ls = lines(ws, en, seed);
    let quiet = quiet_projects(ws, ls);
    if quiet.len() == 0 {
        said_lines(ws, ls)
    } else {
        said_lines(ws, ls).push(
            (quiet_phrase(en, (seed % 3) as int, name_list(quiet, en)), Some(quiet[0])),
        )
    }
}

/// What tagged sentences say.
pub open spec fn tagged(out: Seq<(String, Option<String>)>) -> Seq<(Seq<char>, Option<Seq<char>>)> {
    out.map_values(|s: (String, Option<String>)| (s.0@, s.1.deep_view()))
}

/// Builds the sentences of the brief, each tagged with the project that it is
/// about.
pub fn build_brief_sentences(ws: &Vec<Workspace>, en: bool, seed: usize) -> (r: Vec<
    (String, Option<String>),
>)
    requires
        seed + ws@.len() <= usize::MAX,
    ensures
        tagged(r@) == brief(views(ws@), en, seed as nat),
{
    let ghost ls = lines(views(ws@), en, seed as nat);
    let mut out: Vec<(String, Option<String>)> = Vec::new();
    let mut quiet: Vec<String> = Vec::new();
    assert(tagged(out@) =~= Seq::empty());
    assert(quiet.deep_view() =~= Seq::empty());
    for i in 0..ws.len()
        invariant
            seed + ws@.len() <= usize::MAX,
            ls == lines(views(ws@), en, seed as nat),
            tagged(out@) == said_lines(views(ws@), ls.take(i as int)),
            quiet.deep_view() == quiet_projects(views(ws@), ls.take(i as int)),
    {
        let ghost was = out@;
        let ghost was_quiet = quiet.deep_view();
        let ghost project = ws@[i as int].project@;
        proof {
            assert(ls.take(i + 1).drop_last() =~= ls.take(i as int));
            assert(ls.take(i + 1).last() == ls[i as int]);
            assert(views(ws@)[i as int] == ws@[i as int]@);
        }
        match make_line(&ws[i], en, (seed + i) % 3) {
            BriefLine::Silent => {},
            BriefLine::Quiet => {
                quiet.push(ws[i].project.clone());
                assert(quiet.deep_view() =~= was_quiet.push(project));
            },
            BriefLine::Say(text) => {
                let ghost words = text@;
                out.push((text, Some(ws[i].project.clone())));
                assert(tagged(out@) =~= tagged(was).push((words, Some(project))));
            },
        }
    }
    assert(ls.take(ws@.len() as int) =~= ls);
    if quiet.len() > 0 {
        let ghost was = out@;
        let list = join_names(&quiet, en);
        let text = say_quiet(en, seed % 3, list.as_str());
        let ghost words = text@;
        let ghost first = quiet@[0]@;
        out.push((text, Some(quiet[0].clone())));
        assert(tagged(out@) =~= tagged(was).push((words, Some(first))));
    }
    out
}

/// How many of the lines are sentences of their own.
pub open spec fn count_said(ls: Seq<BriefLineView>) -> nat
    decreases ls.len(),
{
    if ls.len() == 0 {
        0
    } else {
        count_said(ls.drop_last()) + (if ls.last() is Say {
            1nat
        } else {
            0nat
        })
    }
}

proof fn lemma_said_count(ws: Seq<WorkspaceView>, ls: Seq<BriefLineView>)
    ensures
        said_lines(ws, ls).len() == count_said(ls),
    decreases ls.len(),
{
    if ls.len() > 0 {
        lemma_said_count(ws, ls.drop_last());
    }
}

proof fn lemma_quiet_empty(ws: Seq<WorkspaceView>, ls: Seq<BriefLineView>)
    ensures
        quiet_projects(ws, ls).len() == 0 <==> forall|i: int|
            0 <= i < ls.len() ==> !(#[trigger] ls[i] is Quiet),
    decreases ls.len(),
{
    if ls.len() > 0 {
        let t = ls.drop_last();
        lemma_quiet_empty(ws, t);
        if ls.last() is Quiet {
            assert(ls[ls.len() - 1] is Quiet);
        } else if exists|i: int| 0 <= i < ls.len() && #[trigger] ls[i] is Quiet {
            let i = choose|i: int| 0 <= i < ls.len() && #[trigger] ls[i] is Quiet;
            assert(t[i] is Quiet);
        } else {
            assert forall|i: int| 0 <= i < t.len() implies !(#[trigger] t[i] is Quiet) by {
                assert(!(ls[i] is Quiet));
            }
        }
    }
}

/// However many worktrees are quiet, they share one sentence: the brief holds a
/// sentence for each worktree with news, and one more if any is quiet.
pub proof fn law_quiet_share_one_sentence(ws: Seq<WorkspaceView>, en: bool, seed: nat)
    ensures
        (exists|i: int| 0 <= i < ws.len() && #[trigger] lines(ws, en, seed)[i] is Quiet)
            ==> brief(ws, en, seed).len() == count_said(lines(ws, en, seed)) + 1,
        !(exists|i: int| 0 <= i < ws.len() && #[trigger] lines(ws, en, seed)[i] is Quiet)
            ==> brief(ws, en, seed).len() == count_said(lines(ws, en, seed)),
{
    let ls = lines(ws, en, seed);
    lemma_said_count(ws, ls);
    lemma_quiet_empty(ws, ls);
}

/// A worktree with a status that is not known is never called quiet: the brief
/// is silent on it.
pub proof fn law_unknown_status_is_silent(w: WorkspaceView, en: bool, v: int)
    requires
        w.session matches Some(s) && s.status != "working"@ && s.status != "error"@ && s.status
            != "idle"@ && s.status != "waiting"@,
    ensures
        line(w, en, v) is Silent,
{
}

/// An agent that waits for the user is never counted among the quiet ones.
pub proof fn law_waiting_is_said(w: WorkspaceView, en: bool, v: int)
    requires
        w.session matches Some(s) && s.status == "waiting"@,
    ensures
        line(w, en, v) is Say,
{
    reveal_strlit("waiting");
    reveal_strlit("working");
    reveal_strlit("error");
    reveal_strlit("idle");
    assert("waiting"@[1] != "working"@[1]);
    assert("waiting"@.len() != "error"@.len());
    assert("waiting"@.len() != "idle"@.len());
}

// ── The session ──────────────────────────────────────────────────────────────

/// The seed of the phrasing: it changes every minute.
pub fn brief_seed(unix_seconds: u64) -> (r: usize)
    ensures
        r == (unix_seconds / 60) as usize,
{
    (unix_seconds / 60) as usize
}

/// The greeting at the start of the brief.
pub open spec fn intro(en: bool, v: int) -> Seq<char> {
    if en {
        if v == 0 {
            "Hey, here's the recap."@
        } else if v == 1 {
            "Quick status round-up."@
        } else {
            "Here's where things stand."@
        }
    } else {
        if v == 0 {
            "Bonjour, voici le récap."@
        } else if v == 1 {
            "Salut ! Petit point sur tes worktrees."@
        } else {
            "C'est parti pour le récap."@
        }
    }
}

fn say_intro(en: bool, v: usize) -> (r: String)
    ensures
        r@ == intro(en, v as int),
{
    if en {
        if v == 0 {
            "Hey, here's the recap.".to_owned()
        } else if v == 1 {
            "Quick status round-up.".to_owned()
        } else {
            "Here's where things stand.".to_owned()
        }
    } else {
        if v == 0 {
            "Bonjour, voici le récap.".to_owned()
        } else if v == 1 {
            "Salut ! Petit point sur tes worktrees.".to_owned()
        } else {
            "C'est parti pour le récap.".to_owned()
        }
    }
}

/// A card of the carousel.
#[derive(Debug, PartialEq)]
pub struct Card {
    pub project: String,
    pub branch: String,
    pub agent: String,
    pub status: String,
    pub unread: i64,
    pub preview: String,
}

/// What the card of a worktree shows.
pub open spec fn shows(c: Card, w: WorkspaceView) -> bool {
    &&& c.project@ == w.project
    &&& c.branch@ == w.branch
    &&& match w.session {
        Some(s) => {
            &&& c.agent@ == s.agent
            &&& c.status@ == s.status
            &&& c.unread == s.unread_count
            &&& c.preview@ == match s.preview {
                Some(t) => snippet(t),
                None => Seq::empty(),
            }
        },
        None => {
            &&& c.agent@ == Seq::<char>::empty()
            &&& c.status@ == "none"@
            &&& c.unread == 0
            &&& c.preview@ == Seq::<char>::empty()
        },
    }
}

fn make_card(w: &Workspace) -> (c: Card)
    ensures
        shows(c, w@),
{
    match &w.session {
        Some(s) => Card {
            project: w.project.clone(),
            branch: w.branch.clone(),
            agent: s.agent.clone(),
            status: s.status.clone(),
            unread: s.unread_count,
            preview: match &s.preview {
                Some(t) => clean_snippet(t.as_str()),
                None => String::new(),
            },
        },
        None => Card {
            project: w.project.clone(),
            branch: w.branch.clone(),
            agent: String::new(),
            status: "none".to_owned(),
            unread: 0,
            preview: String::new(),
        },
    }
}

/// The cards of the worktrees, in their order.
pub fn brief_cards(ws: &Vec<Workspace>) -> (r: Vec<Card>)
    ensures
        r@.len() == ws@.len(),
        forall|i: int| 0 <= i < ws@.len() ==> shows(#[trigger] r@[i], ws@[i]@),
{
    let mut out: Vec<Card> = Vec::new();
    for i in 0..ws.len()
        invariant
            out@.len() == i,
            forall|j: int| 0 <= j < i ==> shows(#[trigger] out@[j], ws@[j]@),
    {
        out.push(make_card(&ws[i]));
    }
    out
}

/// The line on a worktree in the data for the model.
pub open spec fn feed_line(w: WorkspaceView, s: SessionView, en: bool) -> Seq<char> {
    let ask = match s.original_ask {
        Some(t) => t,
        None => "?"@,
    };
    let last = match s.preview {
        Some(t) => snippet(t),
        None => Seq::empty(),
    };
    let unread = if s.unread_count > 0 {
        if en {
            ", unread"@
        } else {
            ", non lu"@
        }
    } else {
        Seq::empty()
    };
    if en {
        "- "@ + w.project + " ("@ + s.status + unread + ") | asked: \""@ + ask + "\" | last: \""@
            + last + "\""@
    } else {
        "- "@ + w.project + " ("@ + s.status + unread + ") | demande : \""@ + ask
            + "\" | dernier : \""@ + last + "\""@
    }
}

/// The lines on the worktrees with a session.
pub open spec fn feed_lines(ws: Seq<WorkspaceView>, en: bool) -> Seq<Seq<char>>
    decreases ws.len(),
{
    if ws.len() == 0 {
        Seq::empty()
    } else {
        let before = feed_lines(ws.drop_last(), en);
        match ws.last().session {
            Some(s) => before.push(feed_line(ws.last(), s, en)),
            None => before,
        }
    }
}

fn make_feed_line(w: &Workspace, en: bool) -> (r: Option<String>)
    ensures
        r.deep_view() == match w@.session {
            Some(s) => Some(feed_line(w@, s, en)),
            None => None,
        },
{
    match &w.session {
        None => None,
        Some(s) => {
            let ask = match &s.original_ask {
                Some(t) => t.clone(),
                None => "?".to_owned(),
            };
            let last = match &s.preview {
                Some(t) => clean_snippet(t.as_str()),
                None => String::new(),
            };
            let unread = if s.unread_count > 0 {
                if en {
                    ", unread".to_owned()
                } else {
                    ", non lu".to_owned()
                }
            } else {
                String::new()
            };
            let front = cat5("- ", w.project.as_str(), " (", s.status.as_str(), unread.as_str());
            Some(
                if en {
                    cat5(
                        front.as_str(),
                        ") | asked: \"",
                        ask.as_str(),
                        "\" | last: \"",
                        last.as_str(),
                    ).concat("\"")
                } else {
                    cat5(
                        front.as_str(),
                        ") | demande : \"",
                        ask.as_str(),
                        "\" | dernier : \"",
                        last.as_str(),
                    ).concat("\"")
                },
            )
        },
    }
}

/// The data for the model: a line on each worktree with a session.
pub fn brief_feed(ws: &Vec<Workspace>, en: bool) -> (r: String)
    ensures
        r@ == joined(feed_lines(views(ws@), en), "\n"@),
{
    let mut out: Vec<String> = Vec::new();
    assert(out.deep_view() =~= Seq::empty());
    for i in 0..ws.len()
        invariant
            out.deep_view() == feed_lines(views(ws@).take(i as int), en),
    {
        let ghost was = out.deep_view();
        proof {
            let some = views(ws@).take(i + 1);
            assert(some.drop_last() =~= views(ws@).take(i as int));
            assert(some.last() == ws@[i as int]@);
        }
        if let Some(l) = make_feed_line(&ws[i], en) {
            let ghost words = l@;
            out.push(l);
            assert(out.deep_view() =~= was.push(words));
        }
    }
    assert(views(ws@).take(ws@.len() as int) =~= views(ws@));
    join(&out, "\n")
}

pub const ADVICE_EN: &'static str = "You are Vox, spoken English. From the data: 1) Recommend WHICH worktree to handle first and why, one short sentence. \
    2) If a finished worktree seems to satisfy its original ask, propose the next step in one sentence starting with \"I can prompt <project> to …\". \
    Max 3 short sentences total. Never invent a project not in the list.";

pub const ADVICE_FR: &'static str = "Tu es Vox, français oral. À partir des données : 1) Recommande LE worktree à traiter en premier et pourquoi, une phrase courte. \
    2) Si un worktree terminé semble répondre à sa demande initiale, propose la suite en une phrase commençant par « Je peux prompter <projet> pour … ». \
    Maximum 3 phrases courtes au total. N'invente aucun projet hors liste.";

/// What the model is asked for advice on the worktrees.
pub fn advice_question(ws: &Vec<Workspace>, en: bool) -> (r: String)
    ensures
        r@ == (if en {
            "Worktrees:\n"@ + joined(feed_lines(views(ws@), en), "\n"@)
                + "\n\nYour recommendation?"@
        } else {
            "Worktrees :\n"@ + joined(feed_lines(views(ws@), en), "\n"@)
                + "\n\nTa recommandation ?"@
        }),
{
    let feed = brief_feed(ws, en);
    if en {
        cat3("Worktrees:\n", feed.as_str(), "\n\nYour recommendation?")
    } else {
        cat3("Worktrees :\n", feed.as_str(), "\n\nTa recommandation ?")
    }
}

/// All that a brief needs before the first word is spoken.
#[derive(Debug, PartialEq)]
pub struct Brief {
    pub cards: Vec<Card>,
    /// The greeting and the sentences, in the order in which they are spoken.
    pub items: Vec<SpeechItem>,
    /// The instructions and the question for advice from the model.
    pub advice_system: String,
    pub advice_question: String,
}

/// The greeting, then the sentences of the brief with their tags.
pub open spec fn brief_items(ws: Seq<WorkspaceView>, en: bool, seed: nat) -> Seq<SpeechItemView> {
    seq![SpeechItemView::Sentence { text: intro(en, (seed % 3) as int), workspace: None }]
        + brief(ws, en, seed).map_values(
        |s: (Seq<char>, Option<Seq<char>>)| SpeechItemView::Sentence { text: s.0, workspace: s.1 },
    )
}

/// Whether there is a brief: it was not given before, and there is something to say.
pub open spec fn gives_brief(
    done_before: bool,
    ws: Seq<WorkspaceView>,
    en: bool,
    seed: nat,
) -> bool {
    !done_before && brief(ws, en, seed).len() > 0
}

/// Plans the brief. There is none if it was given before, nor if there is nothing
/// to say.
pub fn speak_startup_brief(done_before: bool, ws: &Vec<Workspace>, en: bool, seed: usize) -> (r:
    Option<Brief>)
    requires
        seed + ws@.len() <= usize::MAX,
    ensures
        match r {
            Some(b) => {
                &&& gives_brief(done_before, views(ws@), en, seed as nat)
                &&& b.cards@.len() == ws@.len()
                &&& forall|i: int| 0 <= i < ws@.len() ==> shows(#[trigger] b.cards@[i], ws@[i]@)
                &&& b.items@.map_values(|s: SpeechItem| s@) == brief_items(
                    views(ws@),
                    en,
                    seed as nat,
                )
                &&& b.advice_system@ == (if en {
                    ADVICE_EN@
                } else {
                    ADVICE_FR@
                })
                &&& b.advice_question@ == (if en {
                    "Worktrees:\n"@ + joined(feed_lines(views(ws@), en), "\n"@)
                        + "\n\nYour recommendation?"@
                } else {
                    "Worktrees :\n"@ + joined(feed_lines(views(ws@), en), "\n"@)
                        + "\n\nTa recommandation ?"@
                })
            },
            None => !gives_brief(done_before, views(ws@), en, seed as nat),
        },
{
    if done_before {
        return None;
    }
    let sentences = build_brief_sentences(ws, en, seed);
    assert(tagged(sentences@).len() == sentences@.len());
    if sentences.len() == 0 {
        return None;
    }
    let ghost all = brief(views(ws@), en, seed as nat);
    let mut items: Vec<SpeechItem> = Vec::new();
    items.push(SpeechItem::Sentence { text: say_intro(en, seed % 3), workspace: None });
    let ghost wanted = brief_items(views(ws@), en, seed as nat);
    assert(items@.map_values(|s: SpeechItem| s@) =~= wanted.take(1));
    for i in 0..sentences.len()
        invariant
            tagged(sentences@) == all,
            all == brief(views(ws@), en, seed as nat),
            wanted == brief_items(views(ws@), en, seed as nat),
            wanted.len() == all.len() + 1,
            items@.map_values(|s: SpeechItem| s@) == wanted.take(i + 1),
    {
        let ghost was = items@;
        assert(all[i as int] == (sentences@[i as int].0@, sentences@[i as int].1.deep_view()));
        let text = sentences[i].0.clone();
        let workspace = match &sentences[i].1 {
            Some(p) => Some(p.clone()),
            None => None,
        };
        let item = SpeechItem::Sentence { text, workspace };
        let ghost said = item@;
        items.push(item);
        proof {
            assert(wanted[i + 1] == said);
            assert(items@.map_values(|s: SpeechItem| s@) =~= was.map_values(
                |s: SpeechItem| s@,
            ).push(said));
            assert(wanted.take(i + 2) =~= wanted.take(i + 1).push(said));
        }
    }
    assert(wanted.take(wanted.len() as int) =~= wanted);
    Some(
        Brief {
            cards: brief_cards(ws),
            items,
            advice_system: if en {
                ADVICE_EN.to_owned()
            } else {
                ADVICE_FR.to_owned()
            },
            advice_question: advice_question(ws, en),
        },
    )
}

// ── At most one brief ────────────────────────────────────────────────────────

/// Claims the brief: the first to ask gets it, whoever asks later does not.
pub fn claim_brief(done: &mut bool) -> (r: bool)
    ensures
        r == !*old(done),
        *final(done),
{
    let first = !*done;
    *done = true;
    first
}

/// What `n` claims get, one after the other, and the flag after them.
pub open spec fn claims(done: bool, n: nat) -> (Seq<bool>, bool)
    decreases n,
{
    if n == 0 {
        (Seq::empty(), done)
    } else {
        let (before, flag) = claims(done, (n - 1) as nat);
        (before.push(!flag), true)
    }
}

/// Of any number of claims at most the first gets the brief, and none does where it was
/// given before. After a claim the brief counts as given.
pub proof fn law_at_most_one_brief(done: bool, n: nat)
    ensures
        claims(done, n).0.len() == n,
        forall|i: int| 0 <= i < n ==> #[trigger] claims(done, n).0[i] == (i == 0 && !done),
        claims(done, n).1 == (done || n > 0),
    decreases n,
{
    if n > 0 {
        law_at_most_one_brief(done, (n - 1) as nat);
    }
}

/// Of any number of calls, each of which claims the brief and then plans it for the
/// worktrees of its moment, at most the first gives one; and none does without a
/// worktree, or without a sentence to say.
pub proof fn law_at_most_one_call_gives_the_brief(
    done: bool,
    calls: Seq<(Seq<WorkspaceView>, bool, nat)>,
    i: int,
)
    requires
        0 <= i < calls.len(),
    ensures
        ({
            let (ws, en, seed) = calls[i];
            let claimed = claims(done, calls.len()).0[i];
            &&& gives_brief(!claimed, ws, en, seed) ==> i == 0 && !done
            &&& ws.len() == 0 || brief(ws, en, seed).len() == 0 ==> !gives_brief(
                !claimed,
                ws,
                en,
                seed,
            )
        }),
{
    law_at_most_one_brief(done, calls.len());
    let (ws, en, seed) = calls[i];
    if ws.len() == 0 {
        assert(lines(ws, en, seed).len() == 0);
        assert(brief(ws, en, seed).len() == 0);
    }
}

// ── Telling the brief ────────────────────────────────────────────────────────

/// How far the telling of a brief has come.
#[derive(Debug, PartialEq)]
pub enum BriefStage {
    /// Nothing was said. The brief has so many items, the greeting first.
    Start { items: usize },
    /// The items before `next` were said.
    Telling { next: usize, items: usize },
    /// A sentence of advice has come from the model.
    Advice,
    /// The model has nothing more to say.
    Advised,
    /// Nothing is left.
    Over,
}

/// What is done next.
#[derive(Debug, PartialEq)]
pub enum BriefAction {
    /// Report a speaking-done; no session was opened.
    SpeakingDone,
    /// Open a session, and say the greeting.
    Greet,
    /// Say this item.
    Say(usize),
    /// Ask the model for advice.
    Ask,
    /// Say the sentence of advice.
    SayAdvice,
    /// Drop the sentence of advice.
    Drop,
    /// End the session, which ends in a speaking-done.
    End,
    Nothing,
}

/// What is done next, and how far the telling has come then.
#[derive(Debug, PartialEq)]
pub struct BriefStep {
    pub action: BriefAction,
    pub next: BriefStage,
}

/// The step of a brief, with whether an interrupt has come.
pub open spec fn brief_next(stage: BriefStage, interrupted: bool) -> BriefStep {
    match stage {
        BriefStage::Start { items } => if interrupted {
            BriefStep { action: BriefAction::SpeakingDone, next: BriefStage::Over }
        } else {
            BriefStep { action: BriefAction::Greet, next: BriefStage::Telling { next: 1, items } }
        },
        BriefStage::Telling { next, items } => if interrupted {
            BriefStep { action: BriefAction::End, next: BriefStage::Over }
        } else if next < items {
            BriefStep {
                action: BriefAction::Say(next),
                next: BriefStage::Telling { next: (next + 1) as usize, items },
            }
        } else {
            BriefStep { action: BriefAction::Ask, next: BriefStage::Advice }
        },
        BriefStage::Advice => if interrupted {
            BriefStep { action: BriefAction::Drop, next: BriefStage::Advice }
        } else {
            BriefStep { action: BriefAction::SayAdvice, next: BriefStage::Advice }
        },
        BriefStage::Advised => BriefStep { action: BriefAction::End, next: BriefStage::Over },
        BriefStage::Over => BriefStep { action: BriefAction::Nothing, next: BriefStage::Over },
    }
}

/// Decides on the next step of a brief.
pub fn brief_step(stage: BriefStage, interrupted: bool) -> (r: BriefStep)
    ensures
        r == brief_next(stage, interrupted),
{
    match stage {
        BriefStage::Start { items } => if interrupted {
            BriefStep { action: BriefAction::SpeakingDone, next: BriefStage::Over }
        } else {
            BriefStep { action: BriefAction::Greet, next: BriefStage::Telling { next: 1, items } }
        },
        BriefStage::Telling { next, items } => if interrupted {
            BriefStep { action: BriefAction::End, next: BriefStage::Over }
        } else if next < items {
            BriefStep {
                action: BriefAction::Say(next),
                next: BriefStage::Telling { next: next + 1, items },
            }
        } else {
            BriefStep { action: BriefAction::Ask, next: BriefStage::Advice }
        },
        BriefStage::Advice => if interrupted {
            BriefStep { action: BriefAction::Drop, next: BriefStage::Advice }
        } else {
            BriefStep { action: BriefAction::SayAdvice, next: BriefStage::Advice }
        },
        BriefStage::Advised => BriefStep { action: BriefAction::End, next: BriefStage::Over },
        BriefStage::Over => BriefStep { action: BriefAction::Nothing, next: BriefStage::Over },
    }
}

/// What a brief does at these moments, one after the other: each tells whether an
/// interrupt has come by then, and, once the model was asked, whether it has nothing
/// more to say.
pub open spec fn brief_actions(stage: BriefStage, moments: Seq<(bool, bool)>) -> Seq<BriefAction>
    decreases moments.len(),
{
    if moments.len() == 0 || stage is Over {
        Seq::empty()
    } else {
        let (interrupted, advised) = moments[0];
        let now = if stage is Advice && advised {
            BriefStage::Advised
        } else {
            stage
        };
        let step = brief_next(now, interrupted);
        seq![step.action] + brief_actions(step.next, moments.skip(1))
    }
}

/// Whether an action has something said, or the model asked.
pub open spec fn tells(action: BriefAction) -> bool {
    action is Greet || action is Say || action is Ask || action is SayAdvice
}

/// An interrupt before the session opens leaves a speaking-done, and nothing else.
pub proof fn law_an_interrupt_before_the_greeting_leaves_silence(
    items: usize,
    moments: Seq<(bool, bool)>,
)
    requires
        moments.len() > 0,
        moments[0].0,
    ensures
        brief_actions(BriefStage::Start { items }, moments) == seq![BriefAction::SpeakingDone],
{
    assert(brief_actions(BriefStage::Over, moments.skip(1)) =~= Seq::empty());
    assert(brief_actions(BriefStage::Start { items }, moments)
        =~= seq![BriefAction::SpeakingDone]);
}

/// An interrupt kills the brief for good: from the moment `k` of the interrupt on,
/// which stays in force, nothing more is said or asked.
pub proof fn law_an_interrupt_kills_the_brief(
    stage: BriefStage,
    moments: Seq<(bool, bool)>,
    k: int,
    i: int,
)
    requires
        0 <= k <= i < brief_actions(stage, moments).len(),
        forall|j: int| k <= j < moments.len() ==> (#[trigger] moments[j]).0,
    ensures
        !tells(brief_actions(stage, moments)[i]),
    decreases moments.len(),
{
    let (interrupted, advised) = moments[0];
    let now = if stage is Advice && advised {
        BriefStage::Advised
    } else {
        stage
    };
    let step = brief_next(now, interrupted);
    let rest = moments.skip(1);
    if i > 0 {
        let from = if k > 0 {
            k - 1
        } else {
            0
        };
        assert forall|j: int| from <= j < rest.len() implies (#[trigger] rest[j]).0 by {
            assert(rest[j] == moments[j + 1]);
        }
        law_an_interrupt_kills_the_brief(step.next, rest, from, i - 1);
    } else {
        assert(moments[0].0);
    }
}

/// An interrupt stays in force: whatever generation a brief captured, after any later
/// bump of it (short of all the values of 64 bits) no step of the brief says or asks
/// anything.
pub proof fn law_no_later_turn_revives_the_brief(captured: u64, bumps: nat, stage: BriefStage)
    requires
        0 < bumps < 0x1_0000_0000_0000_0000,
    ensures
        !tells(brief_next(stage, later(captured, bumps) != captured).action),
{
    law_interrupt_is_for_good(captured, bumps);
}

/// A brief that is not interrupted is told in full: from any item on, the others follow
/// in order, and then the model is asked.
pub proof fn law_a_brief_is_told_in_full(
    next: usize,
    items: usize,
    moments: Seq<(bool, bool)>,
    i: int,
)
    requires
        next <= items,
        moments.len() > items - next,
        forall|j: int| 0 <= j < moments.len() ==> !(#[trigger] moments[j]).0,
        0 <= i <= items - next,
    ensures
        brief_actions(BriefStage::Telling { next, items }, moments).len() > i,
        brief_actions(BriefStage::Telling { next, items }, moments)[i] == (if next + i < items {
            BriefAction::Say((next + i) as usize)
        } else {
            BriefAction::Ask
        }),
    decreases moments.len(),
{
    assert(!moments[0].0);
    if i > 0 {
        let rest = moments.skip(1);
        assert forall|j: int| 0 <= j < rest.len() implies !(#[trigger] rest[j]).0 by {
            assert(rest[j] == moments[j + 1]);
        }
        law_a_brief_is_told_in_full((next + 1) as usize, items, rest, i - 1);
    }
}

/// What is said where a brief was asked for and there is nothing to report.
pub fn nothing_to_report(en: bool) -> (r: String)
    ensures
        r@ == in_language(
            en,
            "No active worktree to report."@,
            "Aucun worktree actif à signaler."@,
        ),
{
    say_in(en, "No active worktree to report.", "Aucun worktree actif à signaler.")
}

// ── Laws on what is said ─────────────────────────────────────────────────────

/// Whether a sentence tells that an agent is at work on a project.
pub open spec fn tells_of_work(t: Seq<char>, en: bool, a: Seq<char>, p: Seq<char>) -> bool {
    if en {
        ||| t == "Agent "@ + a + " is still working on "@ + p + "."@
        ||| t == p + ": agent "@ + a + " is on it right now."@
        ||| t == "Work is moving on "@ + p + " with agent "@ + a + "."@
    } else {
        ||| t == "L'agent "@ + a + " bosse encore sur "@ + p + "."@
        ||| t == p + " : l'agent "@ + a + " est toujours au travail."@
        ||| t == "Ça avance sur "@ + p + ", l'agent "@ + a + " est dessus."@
    }
}

/// Whether a sentence tells that a question is pending on a project. In French it says
/// what the message comes down to.
pub open spec fn tells_of_a_question(t: Seq<char>, en: bool, p: Seq<char>, shown: Seq<char>) -> bool {
    if en {
        ||| t == p + " is waiting for your answer."@
        ||| t == "The agent on "@ + p + " asked you something."@
        ||| t == "There's a pending question on "@ + p + "."@
    } else {
        ||| t == p + " attend ta réponse : "@ + shown
        ||| t == "L'agent de "@ + p + " te pose une question : "@ + shown
        ||| t == "Question en attente sur "@ + p + " : "@ + shown
    }
}

/// Whether a sentence tells that a project is finished and waits to be tested.
pub open spec fn tells_of_the_end(t: Seq<char>, en: bool, p: Seq<char>) -> bool {
    if en {
        ||| t == "The agent on "@ + p + " is done — you'll need to test it."@
        ||| t == p + " is ready for you to try."@
        ||| t == p + " finished; give it a quick test."@
    } else {
        ||| t == "L'agent sur "@ + p + " a terminé, il te faudra tester."@
        ||| t == p + " est prêt, à tester quand tu veux."@
        ||| t == "C'est terminé sur "@ + p + ", un petit test s'impose."@
    }
}

/// Whether a sentence tells that an agent cannot go on without the user.
pub open spec fn tells_of_waiting(t: Seq<char>, en: bool, p: Seq<char>) -> bool {
    if en {
        ||| t == p + " is waiting on you to continue."@
        ||| t == "The agent on "@ + p + " is blocked, waiting for your input."@
        ||| t == p + " needs you before it can move on."@
    } else {
        ||| t == p + " attend ton feu vert pour continuer."@
        ||| t == "L'agent sur "@ + p + " est bloqué, il attend ta réponse."@
        ||| t == p + " a besoin de toi pour avancer."@
    }
}

/// Whether a sentence tells of an error on a project. One of the French ones gives its
/// detail.
pub open spec fn tells_of_an_error(t: Seq<char>, en: bool, p: Seq<char>, detail: Seq<char>) -> bool {
    if en {
        ||| t == "There's an error on "@ + p + "."@
        ||| t == "Heads up — "@ + p + " errored out."@
        ||| t == p + " hit a problem."@
    } else {
        ||| t == "Il y a une erreur sur "@ + p + ", "@ + (if detail.len() == 0 {
            "agent en échec"@
        } else {
            detail
        }) + "."@
        ||| t == "Attention, "@ + p + " est en erreur."@
        ||| t == p + " a un souci, jette un œil."@
    }
}

/// Whether a text ends in a question mark, but for white space.
pub open spec fn ends_in_a_question(raw: Seq<char>) -> bool {
    exists|i: int|
        0 < i <= raw.len() && #[trigger] raw[i - 1] == '?' && is_blank(raw.skip(i))
}

proof fn lemma_statuses_differ()
    ensures
        "working"@ != "error"@,
        "working"@ != "idle"@,
        "working"@ != "waiting"@,
        "error"@ != "idle"@,
        "error"@ != "waiting"@,
        "idle"@ != "waiting"@,
{
    reveal_strlit("waiting");
    reveal_strlit("working");
    reveal_strlit("error");
    reveal_strlit("idle");
    assert("waiting"@[1] != "working"@[1]);
    assert("waiting"@.len() == 7 && "working"@.len() == 7 && "error"@.len() == 5 && "idle"@.len()
        == 4);
}

proof fn lemma_last_visible(raw: Seq<char>) -> (i: int)
    ensures
        0 <= i <= raw.len(),
        is_blank(raw.skip(i)),
        i > 0 ==> !is_space(raw[i - 1]),
        strip_back(raw, Class::Space) == raw.subrange(0, i),
    decreases raw.len(),
{
    if raw.len() > 0 && is_space(raw.last()) {
        let i = lemma_last_visible(raw.drop_last());
        assert forall|j: int| 0 <= j < raw.skip(i).len() implies is_space(
            #[trigger] raw.skip(i)[j],
        ) by {
            if i + j < raw.len() - 1 {
                assert(raw.drop_last().skip(i)[j] == raw[i + j]);
            }
        }
        assert forall|j: int| i <= j < raw.len() implies Class::Space.holds(raw[j]) by {
            assert(raw.skip(i)[j - i] == raw[j]);
        }
        lemma_strip_back_at(raw, Class::Space, i);
        i
    } else {
        lemma_strip_back_at(raw, Class::Space, raw.len() as int);
        raw.len() as int
    }
}

/// A question shows in the message itself: where it ends in a question mark, or where what
/// it comes down to holds a word that asks, and only there.
pub proof fn law_a_question_shows_in_the_message(raw: Seq<char>)
    ensures
        looks_like_question(raw) <==> ends_in_a_question(raw) || matches_in(
            QUESTION_WORD@,
            snippet(raw),
        ),
{
    let i = lemma_last_visible(raw);
    let bare = raw.subrange(0, i);
    if i > 0 {
        assert(bare.last() == raw[i - 1]);
    }
    if i > 0 && raw[i - 1] == '?' {
        assert(ends_in_a_question(raw));
    }
    if ends_in_a_question(raw) {
        let k = choose|k: int|
            0 < k <= raw.len() && #[trigger] raw[k - 1] == '?' && is_blank(raw.skip(k));
        if k > i {
            assert(raw.skip(i)[k - 1 - i] == '?');
        } else if k < i {
            assert(raw.skip(k)[i - 1 - k] == raw[i - 1]);
        }
    }
}

/// A pending question is always told: where the agent of a worktree is idle and its last
/// message asks something and is not blank once cleaned, the line on the worktree is one of
/// the phrasings of a pending question, whatever else is known of it and however many
/// messages are unread.
pub proof fn law_a_pending_question_is_told(w: WorkspaceView, en: bool, v: int, raw: Seq<char>)
    requires
        w.session matches Some(s) && s.status == "idle"@ && s.preview == Some(raw),
        snippet(raw).len() > 0,
        ends_in_a_question(raw) || matches_in(QUESTION_WORD@, snippet(raw)),
    ensures
        line(w, en, v) matches BriefLineView::Say(t) && tells_of_a_question(
            t,
            en,
            w.project,
            snippet(raw),
        ),
{
    lemma_statuses_differ();
    law_a_question_shows_in_the_message(raw);
}

/// An idle agent without a question is told to be done where it has written anything that
/// was not read, and counts among the quiet ones where it has not. (Cleaning leaves nothing
/// of no message at all, which the regular expressions keep to themselves.)
pub proof fn law_an_idle_agent_is_done_or_quiet(w: WorkspaceView, en: bool, v: int)
    requires
        w.session matches Some(s) && s.status == "idle"@ && (s.preview matches Some(raw) ==> snippet(
            raw,
        ).len() == 0 || !(ends_in_a_question(raw) || matches_in(QUESTION_WORD@, snippet(raw)))),
        w.session->0.preview is None ==> snippet(Seq::empty()).len() == 0,
    ensures
        w.session->0.unread_count > 0 ==> (line(w, en, v) matches BriefLineView::Say(t)
            && tells_of_the_end(t, en, w.project)),
        w.session->0.unread_count <= 0 ==> line(w, en, v) is Quiet,
{
    lemma_statuses_differ();
    if let Some(raw) = w.session->0.preview {
        law_a_question_shows_in_the_message(raw);
    }
}

/// Work, errors and waiting are told as such, whatever the last message says: of an agent at
/// work, of one in error and of one that waits for the user.
pub proof fn law_every_status_has_its_sentence(w: WorkspaceView, en: bool, v: int)
    requires
        w.session is Some,
    ensures
        w.session->0.status == "working"@ ==> (line(w, en, v) matches BriefLineView::Say(t)
            && tells_of_work(t, en, w.session->0.agent, w.project)),
        w.session->0.status == "waiting"@ ==> (line(w, en, v) matches BriefLineView::Say(t)
            && tells_of_waiting(t, en, w.project)),
        w.session->0.status == "error"@ && w.session->0.preview is Some ==> (line(w, en, v) matches
            BriefLineView::Say(t) && tells_of_an_error(
            t,
            en,
            w.project,
            without_error_tag(snippet(w.session->0.preview->0)),
        )),
        w.session->0.status == "error"@ ==> line(w, en, v) is Say,
{
    lemma_statuses_differ();
}

/// Nothing is said of a worktree without a session.
pub proof fn law_no_session_no_sentence(w: WorkspaceView, en: bool, v: int)
    requires
        w.session is None,
    ensures
        line(w, en, v) is Silent,
{
}

/// The phrasing goes on from worktree to worktree, and from one seed to the next: the line on
/// worktree `i` has the phrasing that the line on the one before it would have under the next
/// seed, and each of the three phrasings comes back after three.
pub proof fn law_the_phrasing_rotates(ws: Seq<WorkspaceView>, en: bool, seed: nat, i: int)
    requires
        0 <= i < ws.len(),
    ensures
        lines(ws, en, seed).len() == ws.len(),
        lines(ws, en, seed)[i] == line(ws[i], en, (seed + i) % 3),
{
}

proof fn lemma_said_at(ws: Seq<WorkspaceView>, ls: Seq<BriefLineView>, i: int)
    requires
        0 <= i < ls.len(),
        ls[i] is Say,
    ensures
        count_said(ls.take(i)) < said_lines(ws, ls).len(),
        said_lines(ws, ls)[count_said(ls.take(i)) as int] == (ls[i]->0, Some(ws[i].project)),
    decreases ls.len(),
{
    let t = ls.drop_last();
    lemma_said_count(ws, t);
    if i < ls.len() - 1 {
        lemma_said_at(ws, t, i);
        assert(t.take(i) =~= ls.take(i));
    } else {
        assert(ls.take(i) =~= t);
    }
}

/// Every worktree with something to tell has its sentence in the brief, in the order of the
/// worktrees and tagged with its project: at the place that the number of sentences before
/// it gives.
pub proof fn law_every_sentence_is_in_the_brief(
    ws: Seq<WorkspaceView>,
    en: bool,
    seed: nat,
    i: int,
    text: Seq<char>,
)
    requires
        0 <= i < ws.len(),
        line(ws[i], en, (seed + i) % 3) == BriefLineView::Say(text),
    ensures
        count_said(lines(ws, en, seed).take(i)) < brief(ws, en, seed).len(),
        brief(ws, en, seed)[count_said(lines(ws, en, seed).take(i)) as int] == (
            text,
            Some(ws[i].project),
        ),
{
    lemma_said_at(ws, lines(ws, en, seed), i);
}

/// How many of the lines are quiet.
pub open spec fn count_quiet(ls: Seq<BriefLineView>) -> nat
    decreases ls.len(),
{
    if ls.len() == 0 {
        0
    } else {
        count_quiet(ls.drop_last()) + (if ls.last() is Quiet {
            1nat
        } else {
            0nat
        })
    }
}

proof fn lemma_quiet_at(ws: Seq<WorkspaceView>, ls: Seq<BriefLineView>, i: int)
    ensures
        quiet_projects(ws, ls).len() == count_quiet(ls),
        0 <= i < ls.len() && ls[i] is Quiet ==> count_quiet(ls.take(i)) < count_quiet(ls)
            && quiet_projects(ws, ls)[count_quiet(ls.take(i)) as int] == ws[i].project,
    decreases ls.len(),
{
    if ls.len() > 0 {
        let t = ls.drop_last();
        lemma_quiet_at(ws, t, i);
        if 0 <= i < ls.len() - 1 {
            assert(t.take(i) =~= ls.take(i));
        } else if i == ls.len() - 1 {
            assert(ls.take(i) =~= t);
        }
    }
}

/// A list of up to four names holds them all, in their order; a longer one holds the first
/// two and how many others there are.
pub proof fn law_a_list_holds_its_names(names: Seq<Seq<char>>, en: bool)
    ensures
        names.len() <= 4 ==> in_turn(name_list(names, en), names),
        names.len() > 4 ==> in_turn(
            name_list(names, en),
            seq![names[0], names[1], decimal((names.len() - 2) as nat)],
        ),
{
    let and = if en {
        " and "@
    } else {
        " et "@
    };
    if names.len() == 1 {
        lemma_in_turn_itself(names[0]);
        assert(names =~= seq![names[0]]);
    } else if 1 < names.len() <= 4 {
        law_joined_texts_stand_in_turn(names.drop_last(), ", "@);
        lemma_in_turn_next(joined(names.drop_last(), ", "@), names.drop_last(), and, names.last());
        assert(names.drop_last().push(names.last()) =~= names);
    } else if names.len() > 4 {
        let n = decimal((names.len() - 2) as nat);
        lemma_in_turn_itself(names[0]);
        lemma_in_turn_next(names[0], seq![names[0]], ", "@, names[1]);
        let a = names[0] + ", "@ + names[1];
        lemma_in_turn_next(a, seq![names[0]].push(names[1]), and, n);
        let all = seq![names[0]].push(names[1]).push(n);
        lemma_in_turn_more(
            a + and + n,
            if en {
                " others"@
            } else {
                " autres"@
            },
            all,
        );
        assert(all =~= seq![names[0], names[1], n]);
    }
}

proof fn lemma_quiet_phrase_holds(en: bool, v: int, list: Seq<char>, parts: Seq<Seq<char>>)
    requires
        in_turn(list, parts),
    ensures
        in_turn(quiet_phrase(en, v, list), parts),
{
    let none = Seq::<Seq<char>>::empty();
    let front = if en {
        if v == 0 {
            "Nothing new on "@
        } else if v == 1 {
            "All quiet on "@
        } else {
            Seq::empty()
        }
    } else {
        if v == 0 {
            "Rien de nouveau sur "@
        } else if v == 1 {
            "Toujours calme côté "@
        } else {
            Seq::empty()
        }
    };
    let back = if v == 0 || v == 1 {
        "."@
    } else if en {
        ": nothing to report."@
    } else {
        " : rien à signaler."@
    };
    lemma_in_turn_concat(front, none, list, parts);
    assert(none + parts =~= parts);
    lemma_in_turn_more(front + list, back, parts);
    assert(front + list + back =~= quiet_phrase(en, v, list));
}

/// The quiet worktrees are told in the last sentence of the brief, which is tagged with the
/// first of them: up to four by their names, in their order, and of more the first two and
/// the number of the others. No other worktree is among them.
pub proof fn law_the_last_sentence_tells_the_quiet(
    ws: Seq<WorkspaceView>,
    en: bool,
    seed: nat,
    i: int,
)
    requires
        0 <= i < ws.len(),
        line(ws[i], en, (seed + i) % 3) is Quiet,
        forall|j: int| 0 <= j < i ==> !(line(#[trigger] ws[j], en, (seed + j) % 3) is Quiet),
    ensures
        ({
            let quiet = quiet_projects(ws, lines(ws, en, seed));
            let last = brief(ws, en, seed).last();
            &&& brief(ws, en, seed).len() > 0
            &&& last.1 == Some(ws[i].project)
            &&& quiet.len() == count_quiet(lines(ws, en, seed))
            &&& quiet.len() <= 4 ==> in_turn(last.0, quiet)
            &&& quiet.len() > 4 ==> in_turn(
                last.0,
                seq![quiet[0], quiet[1], decimal((quiet.len() - 2) as nat)],
            )
        }),
        forall|k: int|
            0 <= k < ws.len() && line(#[trigger] ws[k], en, (seed + k) % 3) is Quiet
                ==> quiet_projects(ws, lines(ws, en, seed))[count_quiet(
                lines(ws, en, seed).take(k),
            ) as int] == ws[k].project,
{
    let ls = lines(ws, en, seed);
    let quiet = quiet_projects(ws, ls);
    lemma_quiet_at(ws, ls, i);
    assert(count_quiet(ls.take(i)) == 0) by {
        assert forall|j: int| 0 <= j < ls.take(i).len() implies !(#[trigger] ls.take(i)[j] is
            Quiet) by {
            assert(ls.take(i)[j] == line(ws[j], en, (seed + j) % 3));
        }
        lemma_none_quiet(ls.take(i));
    }
    assert forall|k: int|
        0 <= k < ws.len() && line(#[trigger] ws[k], en, (seed + k) % 3) is Quiet implies quiet[count_quiet(
        ls.take(k),
    ) as int] == ws[k].project by {
        assert(ls[k] == line(ws[k], en, (seed + k) % 3));
        lemma_quiet_at(ws, ls, k);
    }
    law_a_list_holds_its_names(quiet, en);
    if quiet.len() <= 4 {
        lemma_quiet_phrase_holds(en, (seed % 3) as int, name_list(quiet, en), quiet);
    } else {
        lemma_quiet_phrase_holds(
            en,
            (seed % 3) as int,
            name_list(quiet, en),
            seq![quiet[0], quiet[1], decimal((quiet.len() - 2) as nat)],
        );
    }
}

proof fn lemma_none_quiet(ls: Seq<BriefLineView>)
    requires
        forall|j: int| 0 <= j < ls.len() ==> !(#[trigger] ls[j] is Quiet),
    ensures
        count_quiet(ls) == 0,
    decreases ls.len(),
{
    if ls.len() > 0 {
        let t = ls.drop_last();
        assert(!(ls[ls.len() - 1] is Quiet));
        assert forall|j: int| 0 <= j < t.len() implies !(#[trigger] t[j] is Quiet) by {
            assert(!(ls[j] is Quiet));
        }
        lemma_none_quiet(t);
    }
}

/// There is a brief wherever it was not given before and any worktree has something to tell,
/// or is quiet.
pub proof fn law_a_brief_is_given(ws: Seq<WorkspaceView>, en: bool, seed: nat, i: int)
    requires
        0 <= i < ws.len(),
        !(line(ws[i], en, (seed + i) % 3) is Silent),
    ensures
        gives_brief(false, ws, en, seed),
        !gives_brief(true, ws, en, seed),
{
    let ls = lines(ws, en, seed);
    if ls[i] is Say {
        lemma_said_at(ws, ls, i);
    } else {
        lemma_quiet_at(ws, ls, i);
    }
}

/// The greeting comes first and is about no project; then come the sentences of the brief,
/// each with its project, in their order, and nothing else.
pub proof fn law_the_greeting_comes_first(ws: Seq<WorkspaceView>, en: bool, seed: nat, i: int)
    ensures
        brief_items(ws, en, seed).len() == brief(ws, en, seed).len() + 1,
        brief_items(ws, en, seed)[0] matches SpeechItemView::Sentence { text, workspace }
            && workspace is None && text.len() > 0,
        0 <= i < brief(ws, en, seed).len() ==> brief_items(ws, en, seed)[i + 1] == (
        SpeechItemView::Sentence {
            text: brief(ws, en, seed)[i].0,
            workspace: brief(ws, en, seed)[i].1,
        }),
{
    reveal_strlit("Hey, here's the recap.");
    reveal_strlit("Quick status round-up.");
    reveal_strlit("Here's where things stand.");
    reveal_strlit("Bonjour, voici le récap.");
    reveal_strlit("Salut ! Petit point sur tes worktrees.");
    reveal_strlit("C'est parti pour le récap.");
}

/// A card shows what is known of its worktree: project and branch; where it has a session,
/// its agent, status and unread count and what its last message comes down to; and where it
/// has none, the status "none" and nothing else.
pub proof fn law_a_card_shows_its_worktree(c: Card, w: WorkspaceView, raw: Seq<char>)
    requires
        shows(c, w),
    ensures
        c.project@ == w.project,
        c.branch@ == w.branch,
        w.session matches Some(s) ==> c.agent@ == s.agent && c.status@ == s.status && c.unread
            == s.unread_count,
        w.session is Some && w.session->0.preview == Some(raw) ==> c.preview@ == snippet(raw),
        w.session is Some && w.session->0.preview is None ==> c.preview@.len() == 0,
        w.session is None ==> c.status@ == "none"@ && c.agent@.len() == 0 && c.unread == 0
            && c.preview@.len() == 0,
{
}

/// How many of the worktrees have a session.
pub open spec fn count_sessions(ws: Seq<WorkspaceView>) -> nat
    decreases ws.len(),
{
    if ws.len() == 0 {
        0
    } else {
        count_sessions(ws.drop_last()) + (if ws.last().session is Some {
            1nat
        } else {
            0nat
        })
    }
}

proof fn lemma_feed_at(ws: Seq<WorkspaceView>, en: bool, i: int)
    ensures
        feed_lines(ws, en).len() == count_sessions(ws),
        0 <= i < ws.len() && ws[i].session is Some ==> count_sessions(ws.take(i)) < count_sessions(
            ws,
        ) && feed_lines(ws, en)[count_sessions(ws.take(i)) as int] == feed_line(
            ws[i],
            ws[i].session->0,
            en,
        ),
    decreases ws.len(),
{
    if ws.len() > 0 {
        let t = ws.drop_last();
        lemma_feed_at(t, en, i);
        if 0 <= i < ws.len() - 1 {
            assert(t.take(i) =~= ws.take(i));
        } else if i == ws.len() - 1 {
            assert(ws.take(i) =~= t);
        }
    }
}

/// What the data tells of a session: the project with the status and whether there is
/// anything unread, the original ask, and what the last message comes down to, each under its
/// label.
pub open spec fn data_on(project: Seq<char>, s: SessionView, en: bool) -> Seq<Seq<char>> {
    let unread = if s.unread_count <= 0 {
        Seq::empty()
    } else if en {
        ", unread"@
    } else {
        ", non lu"@
    };
    let ask = match s.original_ask {
        Some(a) => a,
        None => "?"@,
    };
    let last = match s.preview {
        Some(p) => snippet(p),
        None => Seq::empty(),
    };
    seq![
        "- "@ + project + " ("@ + s.status + unread,
        if en {
            ") | asked: \""@ + ask
        } else {
            ") | demande : \""@ + ask
        },
        if en {
            "\" | last: \""@ + last + "\""@
        } else {
            "\" | dernier : \""@ + last + "\""@
        },
    ]
}

/// The data for the model has one line for each worktree with a session, in their order, and
/// each tells, in turn, the project with the status and whether there is anything unread, the
/// original ask, and what the last message comes down to, and nothing else.
pub proof fn law_the_data_tells_every_session(
    ws: Seq<WorkspaceView>,
    en: bool,
    i: int,
    s: SessionView,
)
    requires
        0 <= i < ws.len(),
        ws[i].session == Some(s),
    ensures
        feed_lines(ws, en).len() == count_sessions(ws),
        feed_lines(ws, en)[count_sessions(ws.take(i)) as int] == joined(
            data_on(ws[i].project, s, en),
            Seq::empty(),
        ),
        in_turn(joined(feed_lines(ws, en), "\n"@), feed_lines(ws, en)),
{
    lemma_feed_at(ws, en, i);
    law_joined_texts_stand_in_turn(feed_lines(ws, en), "\n"@);
    let e = Seq::<char>::empty();
    let parts = data_on(ws[i].project, s, en);
    let p2 = parts.drop_last();
    let p1 = p2.drop_last();
    assert(joined(p1, e) =~= parts[0]);
    assert(joined(p2, e) =~= parts[0] + parts[1]);
    assert(joined(parts, e) =~= parts[0] + parts[1] + parts[2]);
    assert(joined(parts, e) =~= feed_line(ws[i], s, en));
}

/// Whether a sentence tells that the projects of a list are quiet.
pub open spec fn tells_of_quiet(t: Seq<char>, en: bool, list: Seq<char>) -> bool {
    if en {
        ||| t == "Nothing new on "@ + list + "."@
        ||| t == "All quiet on "@ + list + "."@
        ||| t == list + ": nothing to report."@
    } else {
        ||| t == "Rien de nouveau sur "@ + list + "."@
        ||| t == "Toujours calme côté "@ + list + "."@
        ||| t == list + " : rien à signaler."@
    }
}

/// The sentence on the quiet worktrees says that they are quiet.
pub proof fn law_quiet_is_called_quiet(ws: Seq<WorkspaceView>, en: bool, seed: nat)
    requires
        quiet_projects(ws, lines(ws, en, seed)).len() > 0,
    ensures
        tells_of_quiet(
            brief(ws, en, seed).last().0,
            en,
            name_list(quiet_projects(ws, lines(ws, en, seed)), en),
        ),
{
}

/// A brief that is not interrupted begins with the greeting and goes on with every item
/// behind it, in order; then the model is asked; then every sentence of its advice is said,
/// until it has nothing more to say, and the session ends.
pub proof fn law_a_brief_runs_from_greeting_to_end(
    items: usize,
    moments: Seq<(bool, bool)>,
    i: int,
)
    requires
        0 < items,
        moments.len() > items,
        forall|j: int| 0 <= j < moments.len() ==> !(#[trigger] moments[j]).0,
        0 <= i <= items,
    ensures
        ({
            let done = brief_actions(BriefStage::Start { items }, moments);
            &&& done.len() > i
            &&& i == 0 ==> done[i] is Greet
            &&& 0 < i < items ==> done[i] == BriefAction::Say(i as usize)
            &&& i == items ==> done[i] is Ask
        }),
        brief_next(BriefStage::Advice, false) == (BriefStep {
            action: BriefAction::SayAdvice,
            next: BriefStage::Advice,
        }),
        brief_next(BriefStage::Advised, false).action is End,
        brief_next(BriefStage::Advised, true).action is End,
{
    assert(!moments[0].0);
    let rest = moments.skip(1);
    assert forall|j: int| 0 <= j < rest.len() implies !(#[trigger] rest[j]).0 by {
        assert(rest[j] == moments[j + 1]);
    }
    if i > 0 {
        law_a_brief_is_told_in_full(1, items, rest, i - 1);
    }
}

/// An interrupt while the brief is told ends its session, and whatever ends a session ends
/// the brief.
pub proof fn law_an_interrupted_session_is_ended(next: usize, items: usize, stage: BriefStage, interrupted: bool)
    ensures
        brief_next(BriefStage::Telling { next, items }, true).action is End,
        brief_next(stage, interrupted).action is End ==> brief_next(stage, interrupted).next is Over,
        brief_next(stage, interrupted).action is SpeakingDone ==> brief_next(
            stage,
            interrupted,
        ).next is Over,
{
}

/// The recap that is handed out tells every pending question: the sentence on it stands in the
/// recap, tagged with its project, whatever the unread count is.
pub proof fn law_the_recap_tells_every_question(
    ws: &Vec<Workspace>,
    en: bool,
    seed: usize,
    r: Vec<(String, Option<String>)>,
    i: int,
    raw: Seq<char>,
)
    requires
        call_ensures(build_brief_sentences, (ws, en, seed), r),
        0 <= i < ws@.len(),
        ws@[i].session matches Some(s) && s.status@ == "idle"@ && (s.preview matches Some(t) && t@
            == raw),
        snippet(raw).len() > 0,
        ends_in_a_question(raw),
    ensures
        exists|k: int|
            0 <= k < r@.len() && tells_of_a_question(
                (#[trigger] r@[k]).0@,
                en,
                ws@[i].project@,
                snippet(raw),
            ) && (r@[k].1 matches Some(p) && p@ == ws@[i].project@),
{
    let v = views(ws@);
    let w = ws@[i]@;
    assert(v[i] == w);
    assert(w.session->0.preview == Some(raw));
    law_a_pending_question_is_told(w, en, (seed as nat + i) % 3, raw);
    let text = line(w, en, (seed as nat + i) % 3)->0;
    law_every_sentence_is_in_the_brief(v, en, seed as nat, i, text);
    let k = count_said(lines(v, en, seed as nat).take(i)) as int;
    assert(tagged(r@).len() == r@.len());
    assert(tagged(r@)[k] == (r@[k].0@, r@[k].1.deep_view()));
    assert(tells_of_a_question(r@[k].0@, en, ws@[i].project@, snippet(raw)));
}

/// Every worktree whose agent is at work, in error or waiting has a sentence in the recap that
/// is handed out, tagged with its project.
pub proof fn law_the_recap_tells_every_agent(
    ws: &Vec<Workspace>,
    en: bool,
    seed: usize,
    r: Vec<(String, Option<String>)>,
    i: int,
) -> (k: int)
    requires
        call_ensures(build_brief_sentences, (ws, en, seed), r),
        0 <= i < ws@.len(),
        ws@[i].session matches Some(s) && (s.status@ == "working"@ || s.status@ == "waiting"@
            || s.status@ == "error"@),
    ensures
        0 <= k < r@.len(),
        r@[k].1 matches Some(p) && p@ == ws@[i].project@,
        ws@[i].session->0.status@ == "working"@ ==> tells_of_work(
            r@[k].0@,
            en,
            ws@[i].session->0.agent@,
            ws@[i].project@,
        ),
        ws@[i].session->0.status@ == "waiting"@ ==> tells_of_waiting(
            r@[k].0@,
            en,
            ws@[i].project@,
        ),
{
    let v = views(ws@);
    let w = ws@[i]@;
    assert(v[i] == w);
    law_every_status_has_its_sentence(w, en, (seed as nat + i) % 3);
    let text = line(w, en, (seed as nat + i) % 3)->0;
    law_every_sentence_is_in_the_brief(v, en, seed as nat, i, text);
    let k = count_said(lines(v, en, seed as nat).take(i)) as int;
    assert(tagged(r@).len() == r@.len());
    assert(tagged(r@)[k] == (r@[k].0@, r@[k].1.deep_view()));
    k
}

/// The question for advice holds the data on every worktree with a session.
pub proof fn law_advice_is_asked_on_all_the_data(ws: &Vec<Workspace>, en: bool, r: String)
    requires
        call_ensures(advice_question, (ws, en), r),
    ensures
        in_turn(r@, feed_lines(views(ws@), en)),
{
    let none = Seq::<Seq<char>>::empty();
    let ls = feed_lines(views(ws@), en);
    let data = joined(ls, "\n"@);
    law_joined_texts_stand_in_turn(ls, "\n"@);
    let front = if en {
        "Worktrees:\n"@
    } else {
        "Worktrees :\n"@
    };
    let back = if en {
        "\n\nYour recommendation?"@
    } else {
        "\n\nTa recommandation ?"@
    };
    lemma_in_turn_concat(front, none, data, ls);
    assert(none + ls =~= ls);
    lemma_in_turn_more(front + data, back, ls);
}

/// A brief that is planned has the cards of all worktrees, the greeting and all sentences, and
/// asks for advice in the language that is spoken; there is one wherever it was not given before
/// and there is a sentence to say.
pub proof fn law_a_planned_brief_is_complete(
    ws: &Vec<Workspace>,
    en: bool,
    seed: usize,
    r: Option<Brief>,
    again: Option<Brief>,
    i: int,
)
    requires
        call_ensures(speak_startup_brief, (false, ws, en, seed), r),
        call_ensures(speak_startup_brief, (true, ws, en, seed), again),
    ensures
        r is Some <==> brief(views(ws@), en, seed as nat).len() > 0,
        again is None,
        r matches Some(b) ==> {
            &&& b.cards@.len() == ws@.len()
            &&& 0 <= i < ws@.len() ==> shows(b.cards@[i], ws@[i]@)
            &&& b.items@.len() == brief(views(ws@), en, seed as nat).len() + 1
            &&& 0 <= i < brief(views(ws@), en, seed as nat).len() ==> (b.items@[i + 1] matches
                SpeechItem::Sentence { text, workspace } && text@ == brief(
                views(ws@),
                en,
                seed as nat,
            )[i].0 && workspace.deep_view() == brief(views(ws@), en, seed as nat)[i].1)
            &&& en ==> b.advice_system@ == ADVICE_EN@
            &&& !en ==> b.advice_system@ == ADVICE_FR@
            &&& in_turn(b.advice_question@, feed_lines(views(ws@), en))
        },
{
    if let Some(b) = r {
        let v = b.items@.map_values(|s: SpeechItem| s@);
        assert(v.len() == b.items@.len());
        law_the_greeting_comes_first(views(ws@), en, seed as nat, i);
        if 0 <= i < brief(views(ws@), en, seed as nat).len() {
            assert(v[i + 1] == b.items@[i + 1]@);
        }
        let none = Seq::<Seq<char>>::empty();
        let ls = feed_lines(views(ws@), en);
        let data = joined(ls, "\n"@);
        law_joined_texts_stand_in_turn(ls, "\n"@);
        let front = if en {
            "Worktrees:\n"@
        } else {
            "Worktrees :\n"@
        };
        let back = if en {
            "\n\nYour recommendation?"@
        } else {
            "\n\nTa recommandation ?"@
        };
        lemma_in_turn_concat(front, none, data, ls);
        assert(none + ls =~= ls);
        lemma_in_turn_more(front + data, back, ls);
    }
}

/// The brief can be claimed once; its steps are those that its stage calls for; its phrasing
/// changes from minute to minute; and where there is nothing to report, that is said in the
/// language that is spoken.
pub proof fn law_the_brief_is_claimed_once(
    done: &mut bool,
    r: bool,
    stage: BriefStage,
    interrupted: bool,
    step: BriefStep,
    seconds: u64,
    a: usize,
    b: usize,
    en: bool,
    words: String,
)
    requires
        call_ensures(claim_brief, (done,), r),
        call_ensures(brief_step, (stage, interrupted), step),
        seconds <= 0xffff_ffff - 60,
        call_ensures(brief_seed, (seconds,), a),
        call_ensures(brief_seed, ((seconds + 60) as u64,), b),
        call_ensures(nothing_to_report, (en,), words),
    ensures
        r <==> !*old(done),
        *final(done),
        step == brief_next(stage, interrupted),
        b == a + 1,
        en ==> words@ == "No active worktree to report."@,
        !en ==> words@ == "Aucun worktree actif à signaler."@,
{
}

/// The greeting is in the language that is spoken.
pub proof fn law_the_greeting_is_in_the_language(en: bool, v: int)
    ensures
        en ==> intro(en, v) == "Hey, here's the recap."@ || intro(en, v)
            == "Quick status round-up."@ || intro(en, v) == "Here's where things stand."@,
        !en ==> intro(en, v) == "Bonjour, voici le récap."@ || intro(en, v)
            == "Salut ! Petit point sur tes worktrees."@ || intro(en, v)
            == "C'est parti pour le récap."@,
{
}

} // verus!
