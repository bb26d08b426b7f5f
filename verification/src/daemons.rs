//! The speech daemons, and where their interpreters and tools are looked for.
use vstd::prelude::*;

use crate::paths::{join_path, under};
use crate::settings::lang_config;
use crate::text::{
    cat2, head, is_blank, joined, keep_head, law_only_blank_texts_trim_to_nothing,
    law_split_undoes_join, pieces, same, split, trim, trimmed, Class,
};

verus! {

/// The tools and scripts that were found.
pub struct Paths {
    pub stt_script: Option<String>,
    pub tts_script: Option<String>,
    pub tts_piper_script: Option<String>,
    pub stt_python: Option<String>,
    pub tts_python: Option<String>,
    pub whisper_cli: Option<String>,
    pub claude_cli: Option<String>,
}

impl Paths {
    /// Nothing was found yet.
    pub fn none() -> (r: Self)
        ensures
            r.stt_script is None && r.tts_script is None && r.tts_piper_script is None,
            r.stt_python is None && r.tts_python is None,
            r.whisper_cli is None && r.claude_cli is None,
    {
        Paths {
            stt_script: None,
            tts_script: None,
            tts_piper_script: None,
            stt_python: None,
            tts_python: None,
            whisper_cli: None,
            claude_cli: None,
        }
    }
}

// ── The line protocol ────────────────────────────────────────────────────────

/// A line from a daemon.
#[derive(Debug, PartialEq)]
pub enum DaemonLine {
    Blank,
    /// The model is loaded.
    Ready,
    Response(String),
}

/// Reads a line from a daemon.
pub fn daemon_line(line: &str) -> (r: DaemonLine)
    ensures
        match r {
            DaemonLine::Blank => trimmed(line@).len() == 0,
            DaemonLine::Ready => trimmed(line@) == "ready"@,
            DaemonLine::Response(t) => t@ == trimmed(line@) && t@.len() > 0 && t@ != "ready"@,
        },
{
    let t = trim(line);
    if t.as_str().is_empty() {
        DaemonLine::Blank
    } else if same(t.as_str(), "ready") {
        DaemonLine::Ready
    } else {
        DaemonLine::Response(t)
    }
}

/// What is shown of a line on the error stream: its first 200 characters.
pub fn log_line(line: &str) -> (r: String)
    ensures
        r@ == head(line@, 200),
{
    keep_head(line, 200)
}

// ── Looking for tools ────────────────────────────────────────────────────────

/// The texts that are not empty.
pub open spec fn not_empty(parts: Seq<Seq<char>>) -> Seq<Seq<char>>
    decreases parts.len(),
{
    if parts.len() == 0 {
        Seq::empty()
    } else if parts.last().len() == 0 {
        not_empty(parts.drop_last())
    } else {
        not_empty(parts.drop_last()).push(parts.last())
    }
}

/// The directories in which a tool is looked for: those of the search path, the
/// extra ones, and the usual places, since an application that is not started from
/// a terminal gets a bare search path.
pub open spec fn bin_dirs(path_var: Seq<char>, extra: Seq<Seq<char>>, home: Seq<char>) -> Seq<
    Seq<char>,
> {
    not_empty(pieces(path_var, Class::Only(':'))) + extra + seq![
        under(home, ".local/bin"@),
        "/opt/homebrew/bin"@,
        "/usr/local/bin"@,
        "/usr/bin"@,
    ]
}

/// The places of a tool, in the order in which they are tried.
pub fn bin_candidates(path_var: &str, extra: &Vec<String>, home: &str, name: &str) -> (r: Vec<
    String,
>)
    ensures
        r.deep_view() == bin_dirs(path_var@, extra.deep_view(), home@).map_values(
            |d: Seq<char>| under(d, name@),
        ),
{
    let parts = split(path_var, &Class::Only(':'));
    let mut dirs: Vec<String> = Vec::new();
    assert(dirs.deep_view() =~= Seq::empty());
    for i in 0..parts.len()
        invariant
            dirs.deep_view() == not_empty(parts.deep_view().take(i as int)),
    {
        let ghost was = dirs.deep_view();
        proof {
            let some = parts.deep_view().take(i + 1);
            assert(some.drop_last() =~= parts.deep_view().take(i as int));
            assert(some.last() == parts@[i as int]@);
        }
        if !parts[i].as_str().is_empty() {
            dirs.push(parts[i].clone());
            assert(dirs.deep_view() =~= was.push(parts@[i as int]@));
        }
    }
    assert(parts.deep_view().take(parts@.len() as int) =~= parts.deep_view());
    let ghost from_path = dirs.deep_view();
    assert(from_path + extra.deep_view().take(0) =~= from_path);
    for i in 0..extra.len()
        invariant
            dirs.deep_view() == from_path + extra.deep_view().take(i as int),
    {
        let ghost was = dirs.deep_view();
        dirs.push(extra[i].clone());
        proof {
            assert(dirs.deep_view() =~= was.push(extra@[i as int]@));
            assert(extra.deep_view().take(i + 1) =~= extra.deep_view().take(i as int).push(
                extra@[i as int]@,
            ));
        }
    }
    assert(extra.deep_view().take(extra@.len() as int) =~= extra.deep_view());
    dirs.push(join_path(home, ".local/bin"));
    dirs.push("/opt/homebrew/bin".to_owned());
    dirs.push("/usr/local/bin".to_owned());
    dirs.push("/usr/bin".to_owned());
    assert(dirs.deep_view() =~= bin_dirs(path_var@, extra.deep_view(), home@));
    let mut out: Vec<String> = Vec::new();
    for i in 0..dirs.len()
        invariant
            out@.len() == i,
            forall|j: int| 0 <= j < i ==> #[trigger] out@[j]@ == under(dirs@[j]@, name@),
    {
        out.push(join_path(dirs[i].as_str(), name));
    }
    assert(out.deep_view() =~= dirs.deep_view().map_values(|d: Seq<char>| under(d, name@)));
    out
}

/// The program that checks whether a module can be imported.
pub fn import_check(module: &str) -> (r: String)
    ensures
        r@ == "import "@ + module@,
{
    cat2("import ", module)
}

/// The names under which interpreters for transcription are looked for.
pub fn stt_python_names() -> (r: Vec<String>)
    ensures
        r.deep_view() == seq!["python3.9"@, "python3.10"@, "python3"@],
{
    let mut r: Vec<String> = Vec::new();
    r.push("python3.9".to_owned());
    r.push("python3.10".to_owned());
    r.push("python3".to_owned());
    assert(r.deep_view() =~= seq!["python3.9"@, "python3.10"@, "python3"@]);
    r
}

/// The names under which interpreters for synthesis are looked for.
pub fn tts_python_names() -> (r: Vec<String>)
    ensures
        r.deep_view() == seq!["python3.11"@, "python3"@],
{
    let mut r: Vec<String> = Vec::new();
    r.push("python3.11".to_owned());
    r.push("python3".to_owned());
    assert(r.deep_view() =~= seq!["python3.11"@, "python3"@]);
    r
}

/// The extra directories of the transcription tool.
pub fn whisper_dirs(home: &str) -> (r: Vec<String>)
    ensures
        r.deep_view() == seq![
            under(home@, "Library/Python/3.9/bin"@),
            under(home@, "Library/Python/3.11/bin"@),
        ],
{
    let mut r: Vec<String> = Vec::new();
    r.push(join_path(home, "Library/Python/3.9/bin"));
    r.push(join_path(home, "Library/Python/3.11/bin"));
    assert(r.deep_view() =~= seq![
        under(home@, "Library/Python/3.9/bin"@),
        under(home@, "Library/Python/3.11/bin"@),
    ]);
    r
}

/// The interpreters that may have the transcription module: first those next to
/// the transcription tool, then those found by name, then that of the own
/// environment.
pub open spec fn stt_pythons(
    whisper_dir: Option<Seq<char>>,
    found: Seq<Seq<char>>,
    home: Seq<char>,
) -> Seq<Seq<char>> {
    (match whisper_dir {
        Some(dir) => seq![under(dir, "python3.9"@), under(dir, "python3"@)],
        None => Seq::empty(),
    }) + found + seq![under(home, ".vox/venv/bin/python"@)]
}

/// The interpreters to try for transcription.
pub fn stt_candidates(whisper_dir: Option<String>, found: Vec<String>, home: &str) -> (r: Vec<
    String,
>)
    ensures
        r.deep_view() == stt_pythons(whisper_dir.deep_view(), found.deep_view(), home@),
{
    let mut r: Vec<String> = Vec::new();
    if let Some(dir) = &whisper_dir {
        r.push(join_path(dir.as_str(), "python3.9"));
        r.push(join_path(dir.as_str(), "python3"));
    }
    let ghost others = found.deep_view();
    let mut rest = found;
    r.append(&mut rest);
    r.push(join_path(home, ".vox/venv/bin/python"));
    assert(r.deep_view() =~= stt_pythons(whisper_dir.deep_view(), others, home@));
    r
}

/// The interpreters to try for synthesis: that of the own environment, then those
/// found by name.
pub fn tts_candidates(found: Vec<String>, home: &str) -> (r: Vec<String>)
    ensures
        r.deep_view() == seq![under(home@, ".vox/venv/bin/python"@)] + found.deep_view(),
{
    let mut r: Vec<String> = Vec::new();
    r.push(join_path(home, ".vox/venv/bin/python"));
    let mut rest = found;
    r.append(&mut rest);
    r
}

// ── Starting the daemons ─────────────────────────────────────────────────────

/// How a daemon is started.
#[derive(Debug, PartialEq)]
pub struct DaemonPlan {
    pub python: String,
    pub script: String,
    pub envs: Vec<(String, String)>,
    pub tag: String,
}

/// What the pairs of an environment say.
pub open spec fn env_pairs(envs: Seq<(String, String)>) -> Seq<(Seq<char>, Seq<char>)> {
    envs.map_values(|e: (String, String)| (e.0@, e.1@))
}

/// How the transcription daemon is started. It cannot be without its script and an
/// interpreter.
pub fn start_stt(paths: &Paths, language: &str) -> (r: Option<DaemonPlan>)
    ensures
        match (paths.stt_script, paths.stt_python) {
            (Some(script), Some(python)) => {
                &&& r matches Some(d)
                &&& d.python@ == python@
                &&& d.script@ == script@
                &&& d.tag@ == "stt"@
                &&& env_pairs(d.envs@) == seq![
                    (
                        "VOX_STT_LANG"@,
                        if language@ == "en"@ {
                            "en"@
                        } else {
                            "fr"@
                        },
                    ),
                ]
            },
            _ => r is None,
        },
{
    match (&paths.stt_script, &paths.stt_python) {
        (Some(script), Some(python)) => {
            let lang = lang_config(language).stt;
            let mut envs: Vec<(String, String)> = Vec::new();
            envs.push(("VOX_STT_LANG".to_owned(), lang.to_owned()));
            assert(env_pairs(envs@) =~= seq![("VOX_STT_LANG"@, lang@)]);
            Some(
                DaemonPlan {
                    python: python.clone(),
                    script: script.clone(),
                    envs,
                    tag: "stt".to_owned(),
                },
            )
        },
        _ => None,
    }
}

/// How the synthesis daemon of a language is started: Kokoro for English, Piper
/// for French. It cannot be without its script and an interpreter.
pub fn start_tts(paths: &Paths, language: &str, home: &str, env_voice: Option<String>) -> (r: Option<
    DaemonPlan,
>)
    ensures
        language@ != "en"@ ==> match (paths.tts_piper_script, paths.tts_python) {
            (Some(script), Some(python)) => {
                &&& r matches Some(d)
                &&& d.python@ == python@
                &&& d.script@ == script@
                &&& d.tag@ == "piper"@
                &&& env_pairs(d.envs@) == seq![
                    ("VIRTUAL_ENV"@, under(home@, ".vox/venv"@)),
                    (
                        "VOX_PIPER_MODEL"@,
                        under(under(home@, ".vox/voices"@), "fr_FR-siwis-medium"@ + ".onnx"@),
                    ),
                ]
            },
            _ => r is None,
        },
        language@ == "en"@ ==> match (paths.tts_script, paths.tts_python) {
            (Some(script), Some(python)) => {
                &&& r matches Some(d)
                &&& d.python@ == python@
                &&& d.script@ == script@
                &&& d.tag@ == "kokoro"@
                &&& env_pairs(d.envs@) == seq![
                    ("VIRTUAL_ENV"@, under(home@, ".vox/venv"@)),
                    ("VOX_KOKORO_LANG"@, "a"@),
                    (
                        "VOX_KOKORO_VOICE"@,
                        match env_voice {
                            Some(v) => v@,
                            None => "af_heart"@,
                        },
                    ),
                ]
            },
            _ => r is None,
        },
{
    let lang = lang_config(language);
    let venv = join_path(home, ".vox/venv");
    let mut envs: Vec<(String, String)> = Vec::new();
    envs.push(("VIRTUAL_ENV".to_owned(), venv));
    proof {
        reveal_strlit("piper");
        reveal_strlit("kokoro");
        assert("piper"@.len() != "kokoro"@.len());
    }
    if same(lang.tts_engine, "piper") {
        match (&paths.tts_piper_script, &paths.tts_python) {
            (Some(script), Some(python)) => {
                let voices = join_path(home, ".vox/voices");
                let file = cat2(lang.piper_model, ".onnx");
                let model = join_path(voices.as_str(), file.as_str());
                let ghost wanted = model@;
                envs.push(("VOX_PIPER_MODEL".to_owned(), model));
                assert(env_pairs(envs@) =~= seq![
                    ("VIRTUAL_ENV"@, under(home@, ".vox/venv"@)),
                    ("VOX_PIPER_MODEL"@, wanted),
                ]);
                Some(
                    DaemonPlan {
                        python: python.clone(),
                        script: script.clone(),
                        envs,
                        tag: "piper".to_owned(),
                    },
                )
            },
            _ => None,
        }
    } else {
        match (&paths.tts_script, &paths.tts_python) {
            (Some(script), Some(python)) => {
                let voice = match env_voice {
                    Some(v) => v,
                    None => lang.kokoro_voice.to_owned(),
                };
                let ghost wanted = voice@;
                envs.push(("VOX_KOKORO_LANG".to_owned(), lang.kokoro_lang.to_owned()));
                envs.push(("VOX_KOKORO_VOICE".to_owned(), voice));
                assert(env_pairs(envs@) =~= seq![
                    ("VIRTUAL_ENV"@, under(home@, ".vox/venv"@)),
                    ("VOX_KOKORO_LANG"@, "a"@),
                    ("VOX_KOKORO_VOICE"@, wanted),
                ]);
                Some(
                    DaemonPlan {
                        python: python.clone(),
                        script: script.clone(),
                        envs,
                        tag: "kokoro".to_owned(),
                    },
                )
            },
            _ => None,
        }
    }
}

// ── Laws ─────────────────────────────────────────────────────────────────────

proof fn lemma_not_empty(a: Seq<Seq<char>>, b: Seq<Seq<char>>)
    ensures
        not_empty(a + b) == not_empty(a) + not_empty(b),
    decreases b.len(),
{
    if b.len() == 0 {
        assert(a + b =~= a);
        assert(not_empty(a) + not_empty(b) =~= not_empty(a));
    } else {
        lemma_not_empty(a, b.drop_last());
        assert((a + b).drop_last() =~= a + b.drop_last());
        assert(not_empty(a + b) =~= not_empty(a) + not_empty(b));
    }
}

/// A tool is looked for in every directory of the search path, in its order, then in the extra
/// ones, in theirs, and then in the usual places, the user's own first.
pub proof fn law_a_tool_is_looked_for_everywhere(
    dirs: Seq<Seq<char>>,
    extra: Seq<Seq<char>>,
    home: Seq<char>,
)
    requires
        dirs.len() > 0,
        forall|k: int, i: int|
            0 <= k < dirs.len() && 0 <= i < dirs[k].len() ==> #[trigger] dirs[k][i] != ':',
        forall|k: int| 0 <= k < dirs.len() ==> (#[trigger] dirs[k]).len() > 0,
    ensures
        ({
            let all = bin_dirs(joined(dirs, seq![':']), extra, home);
            let n: int = dirs.len() + extra.len() as int;
            &&& all.len() == n + 4
            &&& all.take(dirs.len() as int) == dirs
            &&& all.subrange(dirs.len() as int, n) == extra
            &&& all[n] == under(home, ".local/bin"@)
            &&& all[n + 1] == "/opt/homebrew/bin"@
            &&& all[n + 2] == "/usr/local/bin"@
            &&& all[n + 3] == "/usr/bin"@
        }),
{
    assert forall|k: int, i: int| 0 <= k < dirs.len() && 0 <= i < dirs[k].len() implies
        !Class::Only(':').holds(#[trigger] dirs[k][i]) by {}
    law_split_undoes_join(dirs, ':', Class::Only(':'));
    lemma_all_filled(dirs);
    let all = bin_dirs(joined(dirs, seq![':']), extra, home);
    assert(all.take(dirs.len() as int) =~= dirs);
    assert(all.subrange(dirs.len() as int, dirs.len() + extra.len() as int) =~= extra);
}

proof fn lemma_all_filled(parts: Seq<Seq<char>>)
    requires
        forall|k: int| 0 <= k < parts.len() ==> (#[trigger] parts[k]).len() > 0,
    ensures
        not_empty(parts) == parts,
    decreases parts.len(),
{
    if parts.len() > 0 {
        let t = parts.drop_last();
        assert(parts[parts.len() - 1].len() > 0);
        assert forall|k: int| 0 <= k < t.len() implies (#[trigger] t[k]).len() > 0 by {
            assert(parts[k].len() > 0);
        }
        lemma_all_filled(t);
        assert(t.push(parts.last()) =~= parts);
    } else {
        assert(not_empty(parts) =~= parts);
    }
}

/// An empty entry of the search path is no directory.
pub proof fn law_empty_entries_are_left_out(a: Seq<Seq<char>>, b: Seq<Seq<char>>)
    ensures
        not_empty(a + seq![Seq::empty()] + b) == not_empty(a + b),
{
    let e = seq![Seq::<char>::empty()];
    lemma_not_empty(a + e, b);
    lemma_not_empty(a, e);
    lemma_not_empty(a, b);
    reveal_with_fuel(not_empty, 2);
    assert(not_empty(e) =~= Seq::empty());
    assert(not_empty(a) + not_empty(e) =~= not_empty(a));
}

/// The interpreters for transcription are tried in this order: those next to the transcription
/// tool, where that was found, then all that were found by name, then that of the own
/// environment.
pub proof fn law_interpreters_are_tried_in_order(
    dir: Seq<char>,
    found: Seq<Seq<char>>,
    home: Seq<char>,
)
    ensures
        stt_pythons(None, found, home) == found.push(under(home, ".vox/venv/bin/python"@)),
        stt_pythons(Some(dir), found, home) == seq![
            under(dir, "python3.9"@),
            under(dir, "python3"@),
        ] + stt_pythons(None, found, home),
{
    assert(stt_pythons(None, found, home) =~= found.push(under(home, ".vox/venv/bin/python"@)));
    assert(stt_pythons(Some(dir), found, home) =~= seq![
        under(dir, "python3.9"@),
        under(dir, "python3"@),
    ] + stt_pythons(None, found, home));
}

/// A line of a daemon is taken for what it says, without the white space around it: nothing,
/// the report that it is ready, or a response.
pub proof fn law_a_daemon_is_heard(line: &str, r: DaemonLine)
    requires
        call_ensures(daemon_line, (line,), r),
    ensures
        is_blank(line@) ==> r is Blank,
        trimmed(line@) == "ready"@ ==> r is Ready,
        !is_blank(line@) && trimmed(line@) != "ready"@ ==> (r matches DaemonLine::Response(t) && t@
            == trimmed(line@)),
{
    law_only_blank_texts_trim_to_nothing(line@);
    reveal_strlit("ready");
    assert("ready"@.len() == 5);
}

/// A daemon is started with its own script and interpreter, in the language that is spoken, and
/// not without them.
pub proof fn law_daemons_speak_the_language(
    paths: &Paths,
    language: &str,
    home: &str,
    stt: Option<DaemonPlan>,
    tts: Option<DaemonPlan>,
)
    requires
        call_ensures(start_stt, (paths, language), stt),
        call_ensures(start_tts, (paths, language, home, None), tts),
    ensures
        stt is Some <==> paths.stt_script is Some && paths.stt_python is Some,
        stt matches Some(d) ==> d.script@ == paths.stt_script->0@ && d.python@
            == paths.stt_python->0@ && d.envs@.len() == 1 && d.envs@[0].1@ == (if language@
            == "en"@ {
            "en"@
        } else {
            "fr"@
        }),
        language@ == "en"@ ==> (tts is Some <==> paths.tts_script is Some && paths.tts_python is
            Some),
        language@ != "en"@ ==> (tts is Some <==> paths.tts_piper_script is Some && paths.tts_python
            is Some),
        language@ == "en"@ ==> (tts matches Some(d) ==> d.script@ == paths.tts_script->0@),
        language@ != "en"@ ==> (tts matches Some(d) ==> d.script@ == paths.tts_piper_script->0@),
{
    if let Some(d) = stt {
        let pairs = env_pairs(d.envs@);
        assert(pairs.len() == d.envs@.len());
        assert(pairs[0] == (d.envs@[0].0@, d.envs@[0].1@));
    }
}

/// The places of a tool are its name in every directory, in their order.
pub proof fn law_a_tool_has_a_place_in_every_directory(
    path_var: &str,
    extra: &Vec<String>,
    home: &str,
    name: &str,
    r: Vec<String>,
    i: int,
)
    requires
        call_ensures(bin_candidates, (path_var, extra, home, name), r),
        0 <= i < r@.len(),
    ensures
        r@.len() == bin_dirs(path_var@, extra.deep_view(), home@).len(),
        r@[i]@ == under(bin_dirs(path_var@, extra.deep_view(), home@)[i], name@),
{
    let v = r.deep_view();
    assert(v.len() == r@.len());
    assert(v[i] == r@[i]@);
}

/// The synthesis daemon is told its voice: in French the model below the home directory, and in
/// English the voice of the environment, or else the own one.
pub proof fn law_the_daemon_is_told_its_voice(
    paths: &Paths,
    language: &str,
    home: &str,
    voice: Option<String>,
    r: Option<DaemonPlan>,
)
    requires
        call_ensures(start_tts, (paths, language, home, voice), r),
    ensures
        language@ != "en"@ && r is Some ==> env_pairs(r->0.envs@).contains(
            (
                "VOX_PIPER_MODEL"@,
                under(under(home@, ".vox/voices"@), "fr_FR-siwis-medium"@ + ".onnx"@),
            ),
        ),
        language@ == "en"@ && r is Some && voice is Some ==> env_pairs(r->0.envs@).contains(
            ("VOX_KOKORO_VOICE"@, voice->0@),
        ),
        language@ == "en"@ && r is Some && voice is None ==> env_pairs(r->0.envs@).contains(
            ("VOX_KOKORO_VOICE"@, "af_heart"@),
        ),
        r is Some ==> r->0.python@ == paths.tts_python->0@,
{
    if let Some(d) = r {
        let p = env_pairs(d.envs@);
        if language@ == "en"@ {
            assert(p.contains(p[2]));
        } else {
            assert(p.contains(p[1]));
        }
    }
}

} // verus!
