use vox::json::{read_json, Json};
use vox::models::list_models;
use vox::settings::{
    first_registry, lang_config, load_pronunciations, load_registry, load_settings, save_settings,
    set_settings, settings_from, Settings,
};
use vox::version::{check_update, open_url, version_gt};

fn settings(model: &str, language: &str) -> Settings {
    Settings { model: model.to_string(), language: language.to_string() }
}

#[test]
fn the_two_languages() {
    let en = lang_config("en");
    assert_eq!(
        (en.stt, en.tts_engine, en.kokoro_lang, en.kokoro_voice, en.piper_model, en.say_voice),
        ("en", "kokoro", "a", "af_heart", "", "Samantha")
    );
    let fr = lang_config("fr");
    assert_eq!(
        (fr.stt, fr.tts_engine, fr.kokoro_lang, fr.kokoro_voice, fr.piper_model, fr.say_voice),
        ("fr", "piper", "f", "ff_siwis", "fr_FR-siwis-medium", "Thomas")
    );
    assert_eq!(lang_config("EN").stt, "fr");
    assert!(settings("m", "en").english());
    assert!(!settings("m", "fr").english());
}

#[test]
fn the_environment_outranks_the_file() {
    let file = Some("{\"model\":\"gemma3\",\"language\":\"EN\"}");
    assert_eq!(load_settings(None, None, None), settings("qwen2.5:3b", "fr"));
    assert_eq!(load_settings(None, None, Some("not json")), settings("qwen2.5:3b", "fr"));
    assert_eq!(load_settings(None, None, Some("[1]")), settings("qwen2.5:3b", "fr"));
    assert_eq!(load_settings(None, None, file), settings("gemma3", "en"));
    assert_eq!(
        load_settings(Some("llama3".to_string()), Some("Fr".to_string()), file),
        settings("llama3", "fr")
    );
    assert_eq!(load_settings(None, Some("ÉN".to_string()), file).language, "én");
    let doc = Json::object().with_text("model", "x").with("language", Json::Int(3));
    assert_eq!(settings_from(None, None, Some(&doc)), settings("x", "fr"));
}

#[test]
fn saved_settings_load_again() {
    let s = settings("a \"quoted\"\nmodel\u{1}", "en");
    let text = save_settings(&s);
    assert_eq!(load_settings(None, None, Some(&text)), s);
    assert_eq!(
        save_settings(&settings("m", "fr")),
        "{\n  \"language\": \"fr\",\n  \"model\": \"m\"\n}"
    );
    assert_eq!(s.clone(), s);
}

#[test]
fn settings_change_on_request() {
    let mut s = settings("m", "fr");
    let ask = |m: &str, l: &str| Json::object().with_text("model", m).with_text("language", l);
    assert!(!set_settings(&mut s, &ask("n", "fr")));
    assert_eq!(s, settings("n", "fr"));
    assert!(set_settings(&mut s, &ask("", "en")));
    assert_eq!(s, settings("n", "en"));
    assert!(!set_settings(&mut s, &ask("", "de")));
    assert_eq!(s, settings("n", "en"));
    assert!(!set_settings(&mut s, &Json::Null));
    assert_eq!(s, settings("n", "en"));
}

#[test]
fn the_same_request_twice_restarts_once() {
    let mut s = settings("m", "fr");
    let ask = Json::object().with_text("language", "en");
    assert!(set_settings(&mut s, &ask));
    assert!(!set_settings(&mut s, &ask));
    assert_eq!(s, settings("m", "en"));
}

#[test]
fn the_registry() {
    let r = load_registry(Some("{\"vox\":\"/code/vox\",\"n\":1}"));
    assert_eq!(r.text("vox"), Some("/code/vox".to_string()));
    assert_eq!(r.text("n"), None);
    assert_eq!(load_registry(Some("[1,2]")), Json::object());
    assert_eq!(load_registry(Some("{")), Json::object());
    assert_eq!(load_registry(None), Json::object());
}

#[test]
fn a_first_registry_loads_again() {
    let (name, text) = first_registry("/code/vox");
    assert_eq!(name, "vox");
    assert_eq!(text, "{\n  \"vox\": \"/code/vox\"\n}");
    assert_eq!(load_registry(Some(&text)).text("vox"), Some("/code/vox".to_string()));
    assert_eq!(first_registry("/").0, "project");
}

#[test]
fn pronunciations_are_texts_under_words() {
    let words = load_pronunciations(Some("{\"b\":\"x\",\" \":\"y\",\"a\":1,\"c\":\"\"}"));
    assert_eq!(
        words,
        vec![("b".to_string(), "x".to_string()), ("c".to_string(), String::new())]
    );
    assert!(load_pronunciations(Some("[]")).is_empty());
    assert!(load_pronunciations(None).is_empty());
}

// ── Models ───────────────────────────────────────────────────────────────────

#[test]
fn models_are_listed_in_order() {
    let reply = read_json(
        "{\"models\":[{\"name\":\"qwen\"},{\"name\":\"gemma\"},{\"x\":1},{\"name\":\"gem\"},\
         {\"name\":\"é\"},{\"name\":\"gemma\"},{\"name\":7},{\"name\":\"\"}]}",
    );
    let names = list_models(reply.as_ref());
    let mut expected: Vec<String> =
        ["qwen", "gemma", "gem", "é", "gemma", ""].iter().map(|s| s.to_string()).collect();
    expected.sort();
    assert_eq!(names, expected);
    assert!(list_models(None).is_empty());
    assert!(list_models(Some(&Json::object().with("models", Json::Null))).is_empty());
}

// ── Versions ─────────────────────────────────────────────────────────────────

#[test]
fn versions_compare_by_their_numbers() {
    assert!(version_gt("0.10.0", "0.9.9"));
    assert!(!version_gt("0.9.9", "0.10.0"));
    assert!(!version_gt("1.2.3", "1.2.3"));
    assert!(!version_gt("1.2", "1.2.0"));
    assert!(!version_gt("1.2.0", "1.2"));
    assert!(version_gt("1.2.1", "1.2"));
    assert!(version_gt("1.2.0-1", "1.2.0"));
    assert!(!version_gt("1.2.0-beta", "1.2.0"));
    assert!(version_gt("1.2rc3", "1.1"));
    assert!(!version_gt("abc", "0"));
    assert!(!version_gt("99999999999999999999.0", "1"));
    assert!(version_gt("1+2", "1-1"));
}

#[test]
fn the_order_of_versions_holds_together() {
    let all = ["0", "0.0.1", "0.9.9", "0.10", "1.0.0-1", "1", "1.0", "2.x", "2.0.0+7"];
    for a in all {
        assert!(!version_gt(a, a));
        for b in all {
            assert!(!(version_gt(a, b) && version_gt(b, a)));
            for c in all {
                if version_gt(a, b) && version_gt(b, c) {
                    assert!(version_gt(a, c));
                }
            }
        }
    }
}

#[test]
fn the_latest_release() {
    let reply = Json::object().with_text("tag_name", "v0.2.0");
    let r = check_update("0.1.9", Some(&reply));
    assert_eq!((r.current.as_str(), r.latest.as_str(), r.has_update), ("0.1.9", "0.2.0", true));
    assert_eq!(r.url, "https://github.com/justeozan/vox/releases/latest");
    assert!(!check_update("0.2.0", Some(&reply)).has_update);
    let none = check_update("0.1.9", None);
    assert_eq!(
        (none.current.as_str(), none.latest.as_str(), none.has_update, none.url.as_str()),
        ("0.1.9", "0.1.9", false, "")
    );
    assert_eq!(check_update("1", Some(&Json::object())).url, "");
}

#[test]
fn only_secure_links_are_opened() {
    assert!(open_url("https://github.com"));
    assert!(!open_url("http://github.com"));
    assert!(!open_url("file:///etc"));
}
