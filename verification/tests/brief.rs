use vox::brief::{
    advice_question, brief_cards, brief_feed, brief_seed, brief_step, build_brief_sentences,
    claim_brief, join_names, line_from, nothing_to_report, speak_startup_brief, BriefAction,
    BriefLine, BriefStage, BriefStep, ADVICE_EN, ADVICE_FR,
};
use vox::conductor::{SessionInfo, Workspace};
use vox::speech::SpeechItem;

fn names(parts: &[&str]) -> Vec<String> {
    parts.iter().map(|p| p.to_string()).collect()
}

fn worktree(project: &str, status: &str, unread: i64, preview: Option<&str>) -> Workspace {
    Workspace {
        project: project.to_string(),
        branch: "main".to_string(),
        path: "/w".to_string(),
        session: Some(SessionInfo {
            agent: "coder".to_string(),
            status: status.to_string(),
            unread_count: unread,
            preview: preview.map(|p| p.to_string()),
            original_ask: None,
        }),
    }
}

fn idle_workspace(project: &str) -> Workspace {
    Workspace {
        project: project.to_string(),
        branch: "dev".to_string(),
        path: "/x".to_string(),
        session: None,
    }
}

fn said(ws: Vec<Workspace>, en: bool, seed: usize) -> Vec<(String, Option<String>)> {
    build_brief_sentences(&ws, en, seed)
}

fn first(w: Workspace, en: bool, seed: usize) -> String {
    let all = said(vec![w], en, seed);
    assert_eq!(all.len(), 1);
    all[0].0.clone()
}

#[test]
fn lists_of_names() {
    assert_eq!(join_names(&names(&[]), true), "");
    assert_eq!(join_names(&names(&["a"]), true), "a");
    assert_eq!(join_names(&names(&["a", "b"]), true), "a and b");
    assert_eq!(join_names(&names(&["a", "b", "c"]), false), "a, b et c");
    assert_eq!(join_names(&names(&["a", "b", "c", "d"]), true), "a, b, c and d");
    assert_eq!(join_names(&names(&["a", "b", "c", "d", "e"]), true), "a, b and 3 others");
    assert_eq!(join_names(&names(&["a", "b", "c", "d", "e"]), false), "a, b et 3 autres");
}

#[test]
fn working_agents() {
    let w = || worktree("vox", "working", 0, None);
    assert_eq!(first(w(), true, 0), "Agent coder is still working on vox.");
    assert_eq!(first(w(), true, 1), "vox: agent coder is on it right now.");
    assert_eq!(first(w(), true, 2), "Work is moving on vox with agent coder.");
    assert_eq!(first(w(), false, 0), "L'agent coder bosse encore sur vox.");
    assert_eq!(first(w(), false, 1), "vox : l'agent coder est toujours au travail.");
    assert_eq!(first(w(), false, 2), "Ça avance sur vox, l'agent coder est dessus.");
}

#[test]
fn agents_in_error() {
    let w = |p| worktree("vox", "error", 0, p);
    assert_eq!(first(w(None), true, 0), "There's an error on vox.");
    assert_eq!(first(w(None), true, 1), "Heads up — vox errored out.");
    assert_eq!(first(w(None), true, 2), "vox hit a problem.");
    assert_eq!(first(w(None), false, 0), "Il y a une erreur sur vox, agent en échec.");
    assert_eq!(
        first(w(Some("[erreur] disque plein")), false, 0),
        "Il y a une erreur sur vox, disque plein."
    );
    assert_eq!(first(w(None), false, 1), "Attention, vox est en erreur.");
    assert_eq!(first(w(None), false, 2), "vox a un souci, jette un œil.");
}

#[test]
fn questions_of_idle_agents() {
    let w = || worktree("vox", "idle", 0, Some("All is done here. Shall I go on?"));
    assert_eq!(first(w(), true, 0), "vox is waiting for your answer.");
    assert_eq!(first(w(), true, 1), "The agent on vox asked you something.");
    assert_eq!(first(w(), true, 2), "There's a pending question on vox.");
    assert_eq!(first(w(), false, 0), "vox attend ta réponse : All is done here.");
    assert_eq!(first(w(), false, 1), "L'agent de vox te pose une question : All is done here.");
    assert_eq!(first(w(), false, 2), "Question en attente sur vox : All is done here.");
    let word = worktree("vox", "idle", 0, Some("Dis-moi COMMENT faire"));
    assert_eq!(first(word, true, 0), "vox is waiting for your answer.");
    let part = worktree("vox", "idle", 0, Some("scanned the canopy"));
    assert_eq!(first(part, true, 0), "Nothing new on vox.");
}

#[test]
fn finished_agents() {
    let w = || worktree("vox", "idle", 1, Some("Tout est fait"));
    assert_eq!(first(w(), true, 0), "The agent on vox is done — you'll need to test it.");
    assert_eq!(first(w(), true, 1), "vox is ready for you to try.");
    assert_eq!(first(w(), true, 2), "vox finished; give it a quick test.");
    assert_eq!(first(w(), false, 0), "L'agent sur vox a terminé, il te faudra tester.");
    assert_eq!(first(w(), false, 1), "vox est prêt, à tester quand tu veux.");
    assert_eq!(first(w(), false, 2), "C'est terminé sur vox, un petit test s'impose.");
}

#[test]
fn waiting_agents_are_never_quiet() {
    let w = || worktree("vox", "waiting", 0, None);
    assert_eq!(first(w(), true, 0), "vox is waiting on you to continue.");
    assert_eq!(first(w(), true, 1), "The agent on vox is blocked, waiting for your input.");
    assert_eq!(first(w(), true, 2), "vox needs you before it can move on.");
    assert_eq!(first(w(), false, 0), "vox attend ton feu vert pour continuer.");
    assert_eq!(first(w(), false, 1), "L'agent sur vox est bloqué, il attend ta réponse.");
    assert_eq!(first(w(), false, 2), "vox a besoin de toi pour avancer.");
}

#[test]
fn quiet_worktrees_share_one_sentence() {
    let ws = || {
        vec![
            worktree("a", "idle", 0, None),
            worktree("b", "working", 0, None),
            worktree("c", "idle", 0, Some("Rien à dire")),
        ]
    };
    assert_eq!(
        said(ws(), true, 0),
        vec![
            ("b: agent coder is on it right now.".to_string(), Some("b".to_string())),
            ("Nothing new on a and c.".to_string(), Some("a".to_string())),
        ]
    );
    assert_eq!(said(ws(), true, 1)[1].0, "All quiet on a and c.");
    assert_eq!(said(ws(), true, 2)[1].0, "a and c: nothing to report.");
    assert_eq!(said(ws(), false, 3)[1].0, "Rien de nouveau sur a et c.");
    assert_eq!(said(ws(), false, 4)[1].0, "Toujours calme côté a et c.");
    assert_eq!(said(ws(), false, 5)[1].0, "a et c : rien à signaler.");
}

#[test]
fn unknown_statuses_and_missing_sessions_are_silent() {
    assert!(said(vec![worktree("a", "archived", 5, None), idle_workspace("b")], true, 0).is_empty());
    assert!(said(vec![], true, 0).is_empty());
}

#[test]
fn the_phrasing_rotates() {
    let at = |seed| first(worktree("vox", "working", 0, None), true, seed);
    assert_ne!(at(7), at(8));
    assert_ne!(at(8), at(9));
    assert_eq!(at(7), at(10));
}

#[test]
fn what_was_found_decides_the_line() {
    let w = worktree("vox", "idle", 0, Some("x"));
    assert_eq!(line_from(&w, true, 0, "x", true, ""), BriefLine::Say("vox is waiting for your answer.".to_string()));
    assert_eq!(line_from(&w, true, 0, "", true, ""), BriefLine::Quiet);
    assert_eq!(line_from(&w, true, 0, "x", false, ""), BriefLine::Quiet);
    assert_eq!(line_from(&idle_workspace("b"), true, 0, "", true, ""), BriefLine::Silent);
}

#[test]
fn cards_show_the_worktrees() {
    let cards = brief_cards(&vec![
        worktree("vox", "idle", 3, Some("**Fini** pour de bon. Suite")),
        idle_workspace("app"),
    ]);
    assert_eq!(cards.len(), 2);
    assert_eq!(
        (cards[0].project.as_str(), cards[0].branch.as_str(), cards[0].agent.as_str()),
        ("vox", "main", "coder")
    );
    assert_eq!((cards[0].status.as_str(), cards[0].unread), ("idle", 3));
    assert_eq!(cards[0].preview, "Fini pour de bon.");
    assert_eq!((cards[1].status.as_str(), cards[1].agent.as_str(), cards[1].unread), ("none", "", 0));
    assert_eq!(cards[1].preview, "");
}

#[test]
fn the_feed_for_the_model() {
    let mut asked = worktree("vox", "idle", 1, Some("Fini"));
    asked.session.as_mut().unwrap().original_ask = Some("Fix it".to_string());
    let ws = vec![asked, idle_workspace("app"), worktree("lib", "working", 0, None)];
    assert_eq!(
        brief_feed(&ws, true),
        "- vox (idle, unread) | asked: \"Fix it\" | last: \"Fini\"\n\
         - lib (working) | asked: \"?\" | last: \"\""
    );
    assert_eq!(
        brief_feed(&ws, false),
        "- vox (idle, non lu) | demande : \"Fix it\" | dernier : \"Fini\"\n\
         - lib (working) | demande : \"?\" | dernier : \"\""
    );
    let one = vec![worktree("lib", "working", 0, None)];
    assert_eq!(
        advice_question(&one, true),
        "Worktrees:\n- lib (working) | asked: \"?\" | last: \"\"\n\nYour recommendation?"
    );
    assert_eq!(
        advice_question(&one, false),
        "Worktrees :\n- lib (working) | demande : \"?\" | dernier : \"\"\n\nTa recommandation ?"
    );
}

#[test]
fn the_startup_brief() {
    let ws = vec![worktree("vox", "working", 0, None)];
    let b = speak_startup_brief(false, &ws, true, 3).unwrap();
    assert_eq!(
        b.items,
        vec![
            SpeechItem::Sentence { text: "Hey, here's the recap.".to_string(), workspace: None },
            SpeechItem::Sentence {
                text: "Agent coder is still working on vox.".to_string(),
                workspace: Some("vox".to_string())
            },
        ]
    );
    assert_eq!(b.cards.len(), 1);
    assert_eq!(b.advice_system, ADVICE_EN);
    assert_eq!(b.advice_question, advice_question(&ws, true));
    let fr = speak_startup_brief(false, &ws, false, 3).unwrap();
    assert_eq!(fr.advice_system, ADVICE_FR);
    assert!(ADVICE_FR.starts_with("Tu es Vox, français oral. À partir des données : 1) "));
    assert!(ADVICE_EN.contains("one short sentence. 2) If a finished"));
    assert_eq!(speak_startup_brief(true, &ws, true, 3), None);
    assert_eq!(speak_startup_brief(false, &vec![], true, 3), None);
    assert_eq!(speak_startup_brief(false, &vec![idle_workspace("a")], true, 3), None);
}

#[test]
fn greetings() {
    let ws = vec![worktree("vox", "working", 0, None)];
    let hello = |en, seed| match &speak_startup_brief(false, &ws, en, seed).unwrap().items[0] {
        SpeechItem::Sentence { text, .. } => text.clone(),
        SpeechItem::End => panic!("no greeting"),
    };
    assert_eq!(hello(true, 1), "Quick status round-up.");
    assert_eq!(hello(true, 2), "Here's where things stand.");
    assert_eq!(hello(false, 0), "Bonjour, voici le récap.");
    assert_eq!(hello(false, 1), "Salut ! Petit point sur tes worktrees.");
    assert_eq!(hello(false, 2), "C'est parti pour le récap.");
}

#[test]
fn the_seed_changes_with_the_minute() {
    assert_eq!(brief_seed(0), 0);
    assert_eq!(brief_seed(59), 0);
    assert_eq!(brief_seed(60), 1);
    assert_eq!(brief_seed(3661), 61);
}

#[test]
fn a_recap_on_demand_always_answers() {
    assert_eq!(nothing_to_report(true), "No active worktree to report.");
    assert_eq!(nothing_to_report(false), "Aucun worktree actif à signaler.");
}

#[test]
fn only_the_first_claim_gets_the_brief() {
    let mut done = false;
    assert!(claim_brief(&mut done));
    assert!(done);
    assert!(!claim_brief(&mut done));
    assert!(!claim_brief(&mut done));
    assert!(done);
}

fn told(items: usize, interrupted_from: usize) -> Vec<BriefAction> {
    let mut stage = BriefStage::Start { items };
    let mut out = Vec::new();
    while stage != BriefStage::Over && stage != BriefStage::Advice {
        let step = brief_step(stage, out.len() >= interrupted_from);
        out.push(step.action);
        stage = step.next;
    }
    out
}

#[test]
fn a_brief_is_told_in_order() {
    assert_eq!(
        told(3, 100),
        vec![BriefAction::Greet, BriefAction::Say(1), BriefAction::Say(2), BriefAction::Ask]
    );
    assert_eq!(told(1, 100), vec![BriefAction::Greet, BriefAction::Ask]);
}

#[test]
fn an_interrupt_kills_the_brief() {
    assert_eq!(told(3, 0), vec![BriefAction::SpeakingDone]);
    assert_eq!(told(3, 1), vec![BriefAction::Greet, BriefAction::End]);
    assert_eq!(told(3, 2), vec![BriefAction::Greet, BriefAction::Say(1), BriefAction::End]);
    assert_eq!(
        told(3, 3),
        vec![BriefAction::Greet, BriefAction::Say(1), BriefAction::Say(2), BriefAction::End]
    );
    let step = |action, next| BriefStep { action, next };
    assert_eq!(
        brief_step(BriefStage::Advice, false),
        step(BriefAction::SayAdvice, BriefStage::Advice)
    );
    assert_eq!(brief_step(BriefStage::Advice, true), step(BriefAction::Drop, BriefStage::Advice));
    assert_eq!(brief_step(BriefStage::Advised, true), step(BriefAction::End, BriefStage::Over));
    assert_eq!(brief_step(BriefStage::Over, false), step(BriefAction::Nothing, BriefStage::Over));
}
