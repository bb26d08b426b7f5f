//! Settings, languages, the project registry and the pronunciation dictionary.
use vstd::prelude::*;

use crate::json::{
    entries, json_of_text, lemma_entries, lookup_text, member, pairs, pretty, read_json, said,
    text_at, write_pretty, Json, JsonTree,
};
use crate::paths::{name_project, project_name};
use crate::text::{
    ascii_lower, is_blank, law_only_blank_texts_trim_to_nothing, lower, same, to_lowercase, trim,
    trimmed,
};

verus! {

/// What the user can choose.
#[derive(Debug, PartialEq)]
pub struct Settings {
    pub model: String,
    pub language: String,
}

#[verifier::ext_equal]
pub struct SettingsView {
    pub model: Seq<char>,
    pub language: Seq<char>,
}

impl View for Settings {
    type V = SettingsView;

    open spec fn view(&self) -> SettingsView {
        SettingsView { model: self.model@, language: self.language@ }
    }
}

impl Clone for Settings {
    fn clone(&self) -> (r: Self)
        ensures
            r@ == self@,
    {
        Settings { model: self.model.clone(), language: self.language.clone() }
    }
}

impl Settings {
    /// Whether the interface speaks English.
    pub fn english(&self) -> (r: bool)
        ensures
            r == (self@.language == "en"@),
    {
        same(self.language.as_str(), "en")
    }
}

/// The speech stack of a language.
#[derive(Debug, PartialEq)]
pub struct LangConfig {
    pub stt: &'static str,
    pub tts_engine: &'static str,
    pub kokoro_lang: &'static str,
    pub kokoro_voice: &'static str,
    pub piper_model: &'static str,
    pub say_voice: &'static str,
}

/// The speech stack of English for "en", and of French for anything else.
pub fn lang_config(lang: &str) -> (r: LangConfig)
    ensures
        lang@ == "en"@ ==> {
            &&& r.stt@ == "en"@
            &&& r.tts_engine@ == "kokoro"@
            &&& r.kokoro_lang@ == "a"@
            &&& r.kokoro_voice@ == "af_heart"@
            &&& r.piper_model@ == ""@
            &&& r.say_voice@ == "Samantha"@
        },
        lang@ != "en"@ ==> {
            &&& r.stt@ == "fr"@
            &&& r.tts_engine@ == "piper"@
            &&& r.kokoro_lang@ == "f"@
            &&& r.kokoro_voice@ == "ff_siwis"@
            &&& r.piper_model@ == "fr_FR-siwis-medium"@
            &&& r.say_voice@ == "Thomas"@
        },
{
    if same(lang, "en") {
        LangConfig {
            stt: "en",
            tts_engine: "kokoro",
            kokoro_lang: "a",
            kokoro_voice: "af_heart",
            piper_model: "",
            say_voice: "Samantha",
        }
    } else {
        LangConfig {
            stt: "fr",
            tts_engine: "piper",
            kokoro_lang: "f",
            kokoro_voice: "ff_siwis",
            piper_model: "fr_FR-siwis-medium",
            say_voice: "Thomas",
        }
    }
}

// ── Loading and saving ───────────────────────────────────────────────────────

/// The text under a key of a document, where there is a document.
pub open spec fn stored(document: Option<JsonTree>, key: Seq<char>) -> Option<Seq<char>> {
    match document {
        Some(t) => text_at(t, key),
        None => None,
    }
}

/// The first that is there, and `otherwise` where none is.
pub open spec fn first_of(
    a: Option<Seq<char>>,
    b: Option<Seq<char>>,
    otherwise: Seq<char>,
) -> Seq<char> {
    match (a, b) {
        (Some(x), _) => x,
        (None, Some(y)) => y,
        (None, None) => otherwise,
    }
}

/// The settings in force: the environment outranks the stored document, and the
/// document the defaults; the language is in lower case.
pub open spec fn settings_in_force(
    env_model: Option<Seq<char>>,
    env_language: Option<Seq<char>>,
    document: Option<JsonTree>,
) -> SettingsView {
    SettingsView {
        model: first_of(env_model, stored(document, "model"@), "qwen2.5:3b"@),
        language: lower(first_of(env_language, stored(document, "language"@), "fr"@)),
    }
}

fn pick(a: Option<String>, b: Option<String>, otherwise: &str) -> (r: String)
    ensures
        r@ == first_of(a.deep_view(), b.deep_view(), otherwise@),
{
    match a {
        Some(x) => x,
        None => match b {
            Some(y) => y,
            None => otherwise.to_owned(),
        },
    }
}

fn stored_text(document: Option<&Json>, key: &str) -> (r: Option<String>)
    ensures
        r.deep_view() == stored(said(document), key@),
{
    match document {
        Some(j) => j.text(key),
        None => None,
    }
}

/// The settings in force under a stored document.
pub fn settings_from(
    env_model: Option<String>,
    env_language: Option<String>,
    document: Option<&Json>,
) -> (r: Settings)
    ensures
        r@ == settings_in_force(env_model.deep_view(), env_language.deep_view(), said(document)),
{
    let model = pick(env_model, stored_text(document, "model"), "qwen2.5:3b");
    let language = pick(env_language, stored_text(document, "language"), "fr");
    Settings { model, language: to_lowercase(language.as_str()) }
}

/// What the text of a file says, where there is a file and it is JSON.
pub open spec fn document_of(file: Option<Seq<char>>) -> Option<JsonTree> {
    match file {
        Some(text) => json_of_text(text),
        None => None,
    }
}

pub(crate) fn read_document(file: Option<&str>) -> (r: Option<Json>)
    ensures
        r.deep_view() == document_of(opt(file)),
{
    match file {
        Some(text) => read_json(text),
        None => None,
    }
}

/// The text of what may be there.
pub open spec fn opt(file: Option<&str>) -> Option<Seq<char>> {
    match file {
        Some(text) => Some(text@),
        None => None,
    }
}

/// The settings in force under the text of the settings file.
pub fn load_settings(
    env_model: Option<String>,
    env_language: Option<String>,
    file: Option<&str>,
) -> (r: Settings)
    ensures
        r@ == settings_in_force(
            env_model.deep_view(),
            env_language.deep_view(),
            document_of(opt(file)),
        ),
{
    let document = read_document(file);
    settings_from(env_model, env_language, document.as_ref())
}

/// The text that is saved of settings. Loaded without the environment, it gives
/// the model back, and the language in lower case; settings in one of the two
/// languages come back as they were.
pub fn save_settings(s: &Settings) -> (r: String)
    ensures
        r@ == pretty(seq![("model"@, s@.model), ("language"@, s@.language)]),
        settings_in_force(None, None, document_of(Some(r@))) == (SettingsView {
            model: s@.model,
            language: lower(s@.language),
        }),
        s@.language == "fr"@ || s@.language == "en"@ ==> settings_in_force(
            None,
            None,
            document_of(Some(r@)),
        ) == s@,
{
    let mut members: Vec<(String, String)> = Vec::new();
    members.push(("model".to_owned(), s.model.clone()));
    members.push(("language".to_owned(), s.language.clone()));
    let r = write_pretty(&members);
    proof {
        let all = pairs(members@);
        assert(all =~= seq![("model"@, s@.model), ("language"@, s@.language)]);
        reveal_strlit("model");
        reveal_strlit("language");
        assert("model"@.len() != "language"@.len());
        assert(all.drop_last() =~= seq![("model"@, s@.model)]);
        reveal_with_fuel(lookup_text, 3);
        assert(lookup_text(all, "language"@) == Some(s@.language));
        assert(lookup_text(all, "model"@) == Some(s@.model));
        assert(member(json_of_text(r@)->0, "model"@) == Some(JsonTree::Text(s@.model)));
        assert(member(json_of_text(r@)->0, "language"@) == Some(JsonTree::Text(s@.language)));
        if s@.language == "fr"@ || s@.language == "en"@ {
            law_known_language_is_lower(s@.language);
        }
    }
    r
}

/// The two languages are in lower case already.
pub proof fn law_known_language_is_lower(language: Seq<char>)
    requires
        language == "fr"@ || language == "en"@,
    ensures
        lower(language) == language,
{
    reveal_strlit("fr");
    reveal_strlit("en");
    assert(ascii_lower(language) =~= language);
}

// ── Changing ─────────────────────────────────────────────────────────────────

/// The settings after a request to change them: a model that is not empty, and
/// one of the two languages, are taken over; all else stays.
pub open spec fn changed(s: SettingsView, next: JsonTree) -> SettingsView {
    SettingsView {
        model: match text_at(next, "model"@) {
            Some(m) if m.len() > 0 => m,
            _ => s.model,
        },
        language: match text_at(next, "language"@) {
            Some(l) if l == "fr"@ || l == "en"@ => l,
            _ => s.language,
        },
    }
}

/// Takes a request over. The result tells whether the language changed, so that
/// the conversation starts over and the daemons restart.
pub fn set_settings(s: &mut Settings, next: &Json) -> (restart: bool)
    ensures
        final(s)@ == changed(old(s)@, next@),
        restart == (final(s)@.language != old(s)@.language),
{
    let mut restart = false;
    if let Some(m) = next.text("model") {
        if !m.as_str().is_empty() && !same(m.as_str(), s.model.as_str()) {
            s.model = m;
        }
    }
    if let Some(l) = next.text("language") {
        if (same(l.as_str(), "fr") || same(l.as_str(), "en")) && !same(
            l.as_str(),
            s.language.as_str(),
        ) {
            s.language = l;
            restart = true;
        }
    }
    restart
}

/// Asking for the same settings twice changes no more than asking once, and does
/// not restart anything.
pub proof fn law_same_request_twice(s: SettingsView, next: JsonTree)
    ensures
        changed(changed(s, next), next) == changed(s, next),
{
}

// ── Project registry ─────────────────────────────────────────────────────────

/// The registry that a document holds: its members, or none where it is no
/// object.
pub open spec fn registry_of(document: Option<JsonTree>) -> JsonTree {
    match document {
        Some(JsonTree::Object(members)) => JsonTree::Object(members),
        _ => JsonTree::Object(Seq::empty()),
    }
}

/// The registry that a document holds.
pub fn registry_from(document: Option<Json>) -> (r: Json)
    ensures
        r@ == registry_of(document.deep_view()),
{
    match document {
        Some(Json::Object(members)) => Json::Object(members),
        _ => {
            let none: Vec<(String, Json)> = Vec::new();
            assert(entries(none@) =~= Seq::empty());
            Json::Object(none)
        },
    }
}

/// The registry under the text of its file.
pub fn load_registry(file: Option<&str>) -> (r: Json)
    ensures
        r@ == registry_of(document_of(opt(file))),
{
    registry_from(read_document(file))
}

/// The name and the text of a first registry, which holds the active project.
/// Loaded again, it gives the path of the project back under that name.
pub fn first_registry(active_project: &str) -> (r: (String, String))
    ensures
        r.0@ == project_name(active_project@, "project"@),
        r.1@ == pretty(seq![(r.0@, active_project@)]),
        text_at(registry_of(document_of(Some(r.1@))), r.0@) == Some(active_project@),
{
    let name = name_project(active_project, "project");
    let mut members: Vec<(String, String)> = Vec::new();
    members.push((name.clone(), active_project.to_owned()));
    let text = write_pretty(&members);
    proof {
        let all = pairs(members@);
        assert(all =~= seq![(name@, active_project@)]);
        assert(lookup_text(all, name@) == Some(active_project@));
        assert(member(json_of_text(text@)->0, name@) == Some(JsonTree::Text(active_project@)));
    }
    (name, text)
}

// ── Pronunciations ───────────────────────────────────────────────────────────

/// The members that are respellings: texts under keys that are not blank.
pub open spec fn respellings(members: Seq<(Seq<char>, JsonTree)>) -> Seq<(Seq<char>, Seq<char>)>
    decreases members.len(),
{
    if members.len() == 0 {
        Seq::empty()
    } else {
        let before = respellings(members.drop_last());
        let (key, t) = members.last();
        match t {
            JsonTree::Text(v) if trimmed(key).len() > 0 => before.push((key, v)),
            _ => before,
        }
    }
}

/// The respellings that a document holds.
pub open spec fn pronunciations_of(document: Option<JsonTree>) -> Seq<(Seq<char>, Seq<char>)> {
    match document {
        Some(JsonTree::Object(members)) => respellings(members),
        _ => Seq::empty(),
    }
}

/// The respellings that a document holds.
pub fn pronunciations_from(document: Option<Json>) -> (r: Vec<(String, String)>)
    ensures
        pairs(r@) == pronunciations_of(document.deep_view()),
{
    let mut out: Vec<(String, String)> = Vec::new();
    assert(pairs(out@) =~= Seq::empty());
    if let Some(Json::Object(members)) = document {
        proof {
            lemma_entries(members@);
        }
        for i in 0..members.len()
            invariant
                entries(members@).len() == members@.len(),
                forall|j: int|
                    0 <= j < members@.len() ==> #[trigger] entries(members@)[j] == (
                        members@[j].0@,
                        members@[j].1@,
                    ),
                pairs(out@) == respellings(entries(members@).take(i as int)),
        {
            let ghost was = out@;
            proof {
                let some = entries(members@).take(i + 1);
                assert(some.drop_last() =~= entries(members@).take(i as int));
                assert(some.last() == entries(members@)[i as int]);
            }
            if let Some(v) = members[i].1.as_text() {
                if !trim(members[i].0.as_str()).as_str().is_empty() {
                    let ghost entry = (members@[i as int].0@, v@);
                    out.push((members[i].0.clone(), v));
                    assert(pairs(out@) =~= pairs(was).push(entry));
                }
            }
        }
        assert(entries(members@).take(members@.len() as int) =~= entries(members@));
    }
    out
}

/// The respellings under the text of their file.
pub fn load_pronunciations(file: Option<&str>) -> (r: Vec<(String, String)>)
    ensures
        pairs(r@) == pronunciations_of(document_of(opt(file))),
{
    pronunciations_from(read_document(file))
}

// ── Laws ─────────────────────────────────────────────────────────────────────

/// The environment outranks the stored settings, and these outrank the defaults, each setting
/// for itself; the language is in lower case.
pub proof fn law_the_environment_comes_first(
    env_model: Option<Seq<char>>,
    env_language: Option<Seq<char>>,
    document: Option<JsonTree>,
    model: Seq<char>,
    language: Seq<char>,
)
    ensures
        env_model == Some(model) ==> settings_in_force(env_model, env_language, document).model
            == model,
        env_language == Some(language) ==> settings_in_force(
            env_model,
            env_language,
            document,
        ).language == lower(language),
        env_model is None && document is Some && member(document->0, "model"@) == Some(
            JsonTree::Text(model),
        ) ==> settings_in_force(env_model, env_language, document).model == model,
        env_language is None && document is Some && member(document->0, "language"@) == Some(
            JsonTree::Text(language),
        ) ==> settings_in_force(env_model, env_language, document).language == lower(language),
        env_model is None && (document is None || !(member(document->0, "model"@) matches Some(
            JsonTree::Text(_),
        ))) ==> settings_in_force(env_model, env_language, document).model == "qwen2.5:3b"@,
        env_language is None && (document is None || !(member(document->0, "language"@) matches
            Some(JsonTree::Text(_)))) ==> settings_in_force(env_model, env_language, document).language
            == "fr"@,
{
    law_known_language_is_lower("fr"@);
}

/// A request changes what it asks for and nothing else: a model that is not empty is taken
/// over, and so is one of the two languages; any other language, and what is not a text, is
/// left out of account.
pub proof fn law_a_request_changes_what_it_asks_for(
    s: SettingsView,
    next: JsonTree,
    model: Seq<char>,
    language: Seq<char>,
)
    ensures
        member(next, "model"@) == Some(JsonTree::Text(model)) && model.len() > 0 ==> changed(
            s,
            next,
        ).model == model,
        !(member(next, "model"@) matches Some(JsonTree::Text(m)) && m.len() > 0) ==> changed(
            s,
            next,
        ).model == s.model,
        member(next, "language"@) == Some(JsonTree::Text(language)) && (language == "fr"@
            || language == "en"@) ==> changed(s, next).language == language,
        !(member(next, "language"@) matches Some(JsonTree::Text(l)) && (l == "fr"@ || l == "en"@))
            ==> changed(s, next).language == s.language,
{
}

/// A registry keeps every project of its file, under its name.
pub proof fn law_a_registry_keeps_its_projects(document: JsonTree, name: Seq<char>)
    ensures
        document is Object ==> member(registry_of(Some(document)), name) == member(document, name),
        !(document is Object) ==> member(registry_of(Some(document)), name) is None,
        member(registry_of(None), name) is None,
{
}

/// Respellings are gathered stretch by stretch: of a single member its key and text, where
/// the key is not blank and the value is a text, and else nothing.
pub proof fn law_respellings_are_gathered(
    a: Seq<(Seq<char>, JsonTree)>,
    b: Seq<(Seq<char>, JsonTree)>,
    key: Seq<char>,
    text: Seq<char>,
    t: JsonTree,
)
    ensures
        respellings(a + b) == respellings(a) + respellings(b),
        !is_blank(key) ==> respellings(seq![(key, JsonTree::Text(text))]) == seq![(key, text)],
        is_blank(key) || !(t is Text) ==> respellings(seq![(key, t)]).len() == 0,
        pronunciations_of(Some(JsonTree::Object(a))) == respellings(a),
        !(t is Object) ==> pronunciations_of(Some(t)).len() == 0,
        pronunciations_of(None).len() == 0,
    decreases b.len(),
{
    reveal_with_fuel(respellings, 2);
    law_only_blank_texts_trim_to_nothing(key);
    let one = seq![(key, JsonTree::Text(text))];
    let other = seq![(key, t)];
    assert(one.drop_last() =~= Seq::empty());
    assert(other.drop_last() =~= Seq::empty());
    assert(respellings(Seq::<(Seq<char>, JsonTree)>::empty()).push((key, text)) =~= seq![
        (key, text),
    ]);
    if b.len() == 0 {
        assert(a + b =~= a);
        assert(respellings(a) + respellings(b) =~= respellings(a));
    } else {
        law_respellings_are_gathered(a, b.drop_last(), key, text, t);
        assert((a + b).drop_last() =~= a + b.drop_last());
        assert(respellings(a + b) =~= respellings(a) + respellings(b));
    }
}

/// Settings that were saved come back: the model as it was, and the language in lower case,
/// unless the environment says otherwise.
pub proof fn law_saved_settings_come_back(
    s: &Settings,
    text: String,
    file: &str,
    env_model: Option<String>,
    r: Settings,
)
    requires
        call_ensures(save_settings, (s,), text),
        file@ == text@,
        call_ensures(load_settings, (env_model, None, Some(file)), r),
    ensures
        env_model is None ==> r@.model == s@.model,
        env_model matches Some(m) ==> r@.model == m@,
        r@.language == lower(s@.language),
        s@.language == "fr"@ || s@.language == "en"@ ==> r@.language == s@.language,
{
    let d = document_of(Some(text@));
    assert(settings_in_force(None, None, d).model == s@.model);
    assert(settings_in_force(None, None, d).language == lower(s@.language));
    if s@.language == "fr"@ || s@.language == "en"@ {
        law_known_language_is_lower(s@.language);
    }
}

/// A first registry that was written leads from the name of the project to its path.
pub proof fn law_a_first_registry_leads_to_the_project(
    active: &str,
    first: (String, String),
    file: &str,
    r: Json,
)
    requires
        call_ensures(first_registry, (active,), first),
        file@ == first.1@,
        call_ensures(load_registry, (Some(file),), r),
    ensures
        first.0@ == project_name(active@, "project"@),
        member(r@, first.0@) == Some(JsonTree::Text(active@)),
{
}

/// A request changes the settings to what it asks for, and only a change of the language starts
/// the conversation over.
pub proof fn law_a_change_of_language_starts_over(
    s: &mut Settings,
    next: &Json,
    restart: bool,
    model: Seq<char>,
    language: Seq<char>,
)
    requires
        call_ensures(set_settings, (s, next), restart),
    ensures
        member(next@, "model"@) == Some(JsonTree::Text(model)) && model.len() > 0 ==> final(s)@.model
            == model,
        member(next@, "language"@) == Some(JsonTree::Text(language)) && (language == "fr"@
            || language == "en"@) ==> final(s)@.language == language && restart == (language
            != old(s)@.language),
        !(member(next@, "language"@) matches Some(JsonTree::Text(l)) && (l == "fr"@ || l == "en"@))
            ==> final(s)@.language == old(s)@.language && !restart,
        !(member(next@, "model"@) matches Some(JsonTree::Text(m)) && m.len() > 0)
            ==> final(s)@.model == old(s)@.model,
{
    law_a_request_changes_what_it_asks_for(old(s)@, next@, model, language);
}

/// English is spoken by the one engine and heard as English, anything else by the other and
/// heard as French.
pub proof fn law_each_language_has_its_stack(lang: &str, r: LangConfig)
    requires
        call_ensures(lang_config, (lang,), r),
    ensures
        lang@ == "en"@ ==> r.stt@ == "en"@ && r.tts_engine@ == "kokoro"@ && r.kokoro_lang@ == "a"@,
        lang@ != "en"@ ==> r.stt@ == "fr"@ && r.tts_engine@ == "piper"@ && r.piper_model@
            == "fr_FR-siwis-medium"@,
{
}

} // verus!
