use vox::paths::{
    conductor_db_path, file_name, join_path, name_project, pronunciations_path, registry_path,
    settings_path,
};
use vox::sentences::{find_boundary, split_sentences, SentenceBuffer};
use vox::text::{
    contains, count, join, keep_head, parse_number, replace, say_in, space, split, starts_with,
    strip_prefix, substitute, to_decimal, trim, trim_back, trim_class, trim_front, Class,
};

fn strings(parts: &[&str]) -> Vec<String> {
    parts.iter().map(|p| p.to_string()).collect()
}

#[test]
fn white_space_is_that_of_unicode() {
    for n in 0..=0x10ffffu32 {
        if let Some(c) = char::from_u32(n) {
            assert_eq!(space(c), c.is_whitespace(), "{n:x}");
        }
    }
}

#[test]
fn trimming() {
    assert_eq!(trim("  \t a b \n\u{3000}"), "a b");
    assert_eq!(trim(" \n "), "");
    assert_eq!(trim_front(" a ", &Class::Space), "a ");
    assert_eq!(trim_back(" a ", &Class::Space), " a");
    assert_eq!(trim_class("\"'it's'\"", &Class::Quotes), "it's");
    assert_eq!(trim_front("vv1.2", &Class::Only('v')), "1.2");
}

#[test]
fn trimming_twice_changes_nothing() {
    let once = trim("\u{a0} deux  mots \r\n");
    assert_eq!(once, "deux  mots");
    assert_eq!(trim(&once), once);
}

#[test]
fn cutting_and_counting() {
    assert_eq!(keep_head("héllo", 2), "hé");
    assert_eq!(keep_head("hé", 5), "hé");
    assert_eq!(count("héé…"), 4);
    assert!(starts_with("ERROR: x", "ERROR:"));
    assert!(!starts_with("ERR", "ERROR:"));
    assert!(contains("a {\"b\"", "{\""));
    assert!(!contains("a { \"b\"", "{\""));
    assert!(contains("abc", ""));
    assert_eq!(strip_prefix("data: x", "data:"), Some(" x".to_string()));
    assert_eq!(strip_prefix("dat", "data:"), None);
}

#[test]
fn replacing_and_splitting() {
    assert_eq!(replace("l'app d'or", &Class::Only('\''), "''"), "l''app d''or");
    assert_eq!(replace("a\r\nb", &Class::LineBreak, ". "), "a. . b");
    assert_eq!(substitute("a\\nb\\n", "\\n", " "), "a b ");
    assert_eq!(substitute("aaa", "aa", "b"), "ba");
    assert_eq!(split("a:b::c", &Class::Only(':')), strings(&["a", "b", "", "c"]));
    assert_eq!(split("", &Class::Only(':')), strings(&[""]));
    assert_eq!(split("1.2-3+4", &Class::VersionMark), strings(&["1", "2", "3", "4"]));
    assert_eq!(join(&strings(&["a", "b", "c"]), ", "), "a, b, c");
    assert_eq!(join(&strings(&[]), ", "), "");
    assert_eq!(say_in(true, "yes", "oui"), "yes");
    assert_eq!(say_in(false, "yes", "oui"), "oui");
}

#[test]
fn numbers_in_decimal() {
    assert_eq!(to_decimal(0), "0");
    assert_eq!(to_decimal(1_234_567_890_123), "1234567890123");
    assert_eq!(parse_number("42", 100), Some(42));
    assert_eq!(parse_number("+42", 100), Some(42));
    assert_eq!(parse_number("0042", 100), Some(42));
    assert_eq!(parse_number("101", 100), None);
    assert_eq!(parse_number("", 100), None);
    assert_eq!(parse_number("+", 100), None);
    assert_eq!(parse_number("-1", 100), None);
    assert_eq!(parse_number("4x", 100), None);
    assert_eq!(parse_number("18446744073709551615", u64::MAX), Some(u64::MAX));
    assert_eq!(parse_number("18446744073709551616", u64::MAX), None);
    assert_eq!(parse_number("99999999999999999999999999", u64::MAX), None);
}

#[test]
fn paths_under_the_home_directory() {
    assert_eq!(settings_path("/home/me"), "/home/me/.vox/settings.json");
    assert_eq!(registry_path("/home/me"), "/home/me/.vox/projects.json");
    assert_eq!(pronunciations_path("/home/me"), "/home/me/.vox/pronunciations.json");
    assert_eq!(
        conductor_db_path("/home/me"),
        "/home/me/Library/Application Support/com.conductor.app/conductor.db"
    );
}

#[test]
fn joining_follows_the_standard_library() {
    for base in ["", "/", "/a", "/a/", "a", "a//"] {
        for rel in ["b", "b/c", "/b", ".x"] {
            let expected = std::path::Path::new(base).join(rel).to_string_lossy().to_string();
            assert_eq!(join_path(base, rel), expected, "{base} + {rel}");
        }
    }
}

#[test]
fn ends_of_paths_follow_the_standard_library() {
    for path in ["", "/", "/a/b", "/a/b/", "a", "..", "/a/..", "/a/.", "a/./", "./", ".", "/a/b//.", "a b"] {
        let expected =
            std::path::Path::new(path).file_name().map(|f| f.to_string_lossy().to_string());
        assert_eq!(file_name(path), expected, "{path}");
    }
    assert_eq!(name_project("/code/vox", "project"), "vox");
    assert_eq!(name_project("/", "project"), "project");
}

// ── Sentences ────────────────────────────────────────────────────────────────

#[test]
fn a_boundary_needs_end_punctuation_and_white_space() {
    let at = |s: &str| find_boundary(&s.chars().collect(), 12);
    assert_eq!(at("Je m'en occupe. Et"), Some(15));
    assert_eq!(at("Je m'en occupe."), None);
    assert_eq!(at("Version 2.5 est là"), None);
    assert_eq!(at("Oui. Je m'en occupe. Et"), Some(20));
    assert_eq!(find_boundary(&"Oui. Je".chars().collect(), 3), Some(4));
    assert_eq!(find_boundary(&"é… b".chars().collect(), 2), Some(2));
}

#[test]
fn streamed_deltas_become_sentences() {
    let mut b = SentenceBuffer::new();
    assert!(b.push("Bonjour, voici ").is_empty());
    assert!(b.push("le récap.").is_empty());
    assert_eq!(b.push(" Tout va bien"), strings(&["Bonjour, voici le récap."]));
    assert_eq!(b.flush(), Some("Tout va bien".to_string()));
    assert_eq!(b.flush(), None);
    let mut d = SentenceBuffer::default();
    assert_eq!(d.flush(), None);
}

#[test]
fn short_fragments_are_not_cut() {
    assert_eq!(split_sentences("Oui. Je m'en occupe."), strings(&["Oui. Je m'en occupe."]));
}

#[test]
fn complete_texts_are_split() {
    assert_eq!(
        split_sentences("Le serveur tourne. Les tests passent ! Que faire : déployer ?"),
        strings(&["Le serveur tourne.", "Les tests passent !", "Que faire : déployer ?"])
    );
    assert_eq!(split_sentences("  "), strings(&[]));
}

#[test]
fn how_deltas_are_cut_makes_no_difference() {
    let text = "Le serveur tourne. Les tests passent ! Version 2.5 : rien à dire… Fin de l'histoire";
    let whole = split_sentences(text);
    let chars: Vec<char> = text.chars().collect();
    for size in 1..20 {
        let mut b = SentenceBuffer::new();
        let mut out = Vec::new();
        for chunk in chars.chunks(size) {
            out.extend(b.push(&chunk.iter().collect::<String>()));
        }
        out.extend(b.flush());
        assert_eq!(out, whole);
    }
}

#[test]
fn nothing_but_white_space_is_lost() {
    let text = "  Un deux trois quatre.  Cinq six : sept huit neuf. \n dix";
    let kept: String = split_sentences(text).concat().chars().filter(|c| !c.is_whitespace()).collect();
    let all: String = text.chars().filter(|c| !c.is_whitespace()).collect();
    assert_eq!(kept, all);
    for s in &split_sentences(text)[..2] {
        assert!(s.chars().count() >= 12);
    }
}

#[test]
fn white_space_inside_a_sentence_is_kept() {
    let text = " \n Un  deux\ttrois quatre.  Cinq six\nsept huit neuf. \n dix  onze \n";
    let parts = split_sentences(text);
    assert_eq!(
        parts,
        strings(&["Un  deux\ttrois quatre.", "Cinq six\nsept huit neuf.", "dix  onze"])
    );
    let mut rest = text;
    for part in &parts {
        rest = rest.trim_start().strip_prefix(part.as_str()).unwrap();
    }
    assert!(rest.trim().is_empty());
}
