use vox::daemons::{
    bin_candidates, daemon_line, import_check, log_line, start_stt, start_tts, stt_candidates,
    stt_python_names, tts_candidates, tts_python_names, whisper_dirs, DaemonLine, Paths,
};
use vox::json::Json;
use vox::setup::{
    clean_line, content_length, find_python, line_from, module_check, probe, progress_line,
    python_names, recent_python, run_setup, venv_python, Interpreter, ProbeFacts, Setup,
    SetupAction, SetupEvent, SetupStep, PIPER_URL, VENV_DIR, VERSION_CODE,
};

fn s(text: &str) -> String {
    text.to_string()
}

fn strings(parts: &[&str]) -> Vec<String> {
    parts.iter().map(|p| p.to_string()).collect()
}

// ── Daemons ──────────────────────────────────────────────────────────────────

#[test]
fn lines_of_a_daemon() {
    assert_eq!(daemon_line("  "), DaemonLine::Blank);
    assert_eq!(daemon_line(" ready\n"), DaemonLine::Ready);
    assert_eq!(daemon_line("ready now"), DaemonLine::Response(s("ready now")));
    assert_eq!(log_line(&"x".repeat(300)), "x".repeat(200));
}

#[test]
fn places_of_a_tool() {
    assert_eq!(
        bin_candidates("/a::/b", &strings(&["/extra"]), "/h", "tool"),
        [
            "/a/tool",
            "/b/tool",
            "/extra/tool",
            "/h/.local/bin/tool",
            "/opt/homebrew/bin/tool",
            "/usr/local/bin/tool",
            "/usr/bin/tool",
        ]
    );
    assert_eq!(bin_candidates("", &strings(&[]), "/h", "t").len(), 4);
    assert_eq!(whisper_dirs("/h"), ["/h/Library/Python/3.9/bin", "/h/Library/Python/3.11/bin"]);
    assert_eq!(import_check("whisper"), "import whisper");
}

#[test]
fn interpreters_for_speech() {
    assert_eq!(
        stt_candidates(Some(s("/w")), strings(&["/p1", "/p2"]), "/h"),
        ["/w/python3.9", "/w/python3", "/p1", "/p2", "/h/.vox/venv/bin/python"]
    );
    assert_eq!(stt_candidates(None, strings(&[]), "/h"), ["/h/.vox/venv/bin/python"]);
    assert_eq!(tts_candidates(strings(&["/p"]), "/h"), ["/h/.vox/venv/bin/python", "/p"]);
    assert_eq!(stt_python_names(), ["python3.9", "python3.10", "python3"]);
    assert_eq!(tts_python_names(), ["python3.11", "python3"]);
}

#[test]
fn starting_the_daemons() {
    let mut paths = Paths::none();
    assert_eq!(start_stt(&paths, "en"), None);
    assert_eq!(start_tts(&paths, "en", "/h", None), None);
    assert_eq!(start_tts(&paths, "fr", "/h", None), None);
    paths.stt_script = Some(s("/stt.py"));
    paths.stt_python = Some(s("/py9"));
    paths.tts_script = Some(s("/tts.py"));
    paths.tts_python = Some(s("/py11"));
    let stt = start_stt(&paths, "en").unwrap();
    assert_eq!((stt.python.as_str(), stt.script.as_str(), stt.tag.as_str()), ("/py9", "/stt.py", "stt"));
    assert_eq!(stt.envs, vec![(s("VOX_STT_LANG"), s("en"))]);
    assert_eq!(start_stt(&paths, "de").unwrap().envs, vec![(s("VOX_STT_LANG"), s("fr"))]);
    let en = start_tts(&paths, "en", "/h", None).unwrap();
    assert_eq!((en.python.as_str(), en.script.as_str(), en.tag.as_str()), ("/py11", "/tts.py", "kokoro"));
    assert_eq!(
        en.envs,
        vec![
            (s("VIRTUAL_ENV"), s("/h/.vox/venv")),
            (s("VOX_KOKORO_LANG"), s("a")),
            (s("VOX_KOKORO_VOICE"), s("af_heart")),
        ]
    );
    let own = start_tts(&paths, "en", "/h", Some(s("bella"))).unwrap();
    assert_eq!(own.envs[2].1, "bella");
    assert_eq!(start_tts(&paths, "fr", "/h", None), None);
    paths.tts_piper_script = Some(s("/piper.py"));
    let fr = start_tts(&paths, "fr", "/h", None).unwrap();
    assert_eq!((fr.script.as_str(), fr.tag.as_str()), ("/piper.py", "piper"));
    assert_eq!(
        fr.envs,
        vec![
            (s("VIRTUAL_ENV"), s("/h/.vox/venv")),
            (s("VOX_PIPER_MODEL"), s("/h/.vox/voices/fr_FR-siwis-medium.onnx")),
        ]
    );
}

// ── Setup ────────────────────────────────────────────────────────────────────

#[test]
fn recent_interpreters() {
    assert!(recent_python("3.11\n"));
    assert!(recent_python("3.13"));
    assert!(recent_python("4.0"));
    assert!(recent_python("4"));
    assert!(!recent_python("3.10"));
    assert!(!recent_python("3"));
    assert!(!recent_python("2.99"));
    assert!(!recent_python(""));
    assert!(!recent_python("3.x"));
    assert!(!recent_python("3.99999999999"));
    assert_eq!(python_names(), ["python3.13", "python3.12", "python3.11", "python3"]);
    assert_eq!(VERSION_CODE, "import sys; v=sys.version_info; print('%d.%d' % (v[0], v[1]))");
}

#[test]
fn the_first_recent_interpreter_is_taken() {
    let i = |path: &str, printed: Option<&str>| Interpreter {
        path: s(path),
        printed: printed.map(s),
    };
    let found = vec![i("/a", None), i("/b", Some("3.9")), i("/c", Some("3.12")), i("/d", Some("3.13"))];
    assert_eq!(find_python(&found), Some(s("/c")));
    assert_eq!(find_python(&found[..2].iter().map(|x| i(&x.path, x.printed.as_deref())).collect()), None);
    assert_eq!(venv_python("/h"), "/h/.vox/venv/bin/python");
    assert_eq!(VENV_DIR, ".vox/venv");
    assert_eq!(
        module_check("kokoro"),
        "import importlib.util,sys; sys.exit(0 if importlib.util.find_spec('kokoro') else 1)"
    );
}

fn facts() -> ProbeFacts {
    ProbeFacts {
        python: Some(s("/usr/bin/python3")),
        ffmpeg: true,
        espeak: true,
        ollama: true,
        has_venv: true,
        whisper: true,
        kokoro: true,
        piper: true,
        voice: true,
    }
}

fn part(report: &Json, name: &str) -> (Option<Json>, Option<String>) {
    let c = report.get2("components", name).unwrap();
    (c.get("ok").map(|ok| ok.copy()), c.text("detail"))
}

#[test]
fn the_probe_reports_every_component() {
    let yes = || Some(Json::Bool(true));
    let no = || Some(Json::Bool(false));
    let all = probe(&facts(), "/h");
    assert_eq!(all.get("needsSetup"), Some(&Json::Bool(false)));
    assert_eq!(part(&all, "python"), (yes(), Some(s("/usr/bin/python3"))));
    assert_eq!(part(&all, "ffmpeg"), (yes(), Some(s("ok"))));
    assert_eq!(part(&all, "espeakNg"), (yes(), Some(s("ok"))));
    assert_eq!(part(&all, "ollama"), (yes(), Some(s("ok"))));
    assert_eq!(part(&all, "venv"), (yes(), Some(s("/h/.vox/venv/bin/python"))));
    assert_eq!(part(&all, "whisper"), (yes(), Some(s("openai-whisper"))));
    assert_eq!(part(&all, "kokoro"), (yes(), Some(s("kokoro"))));
    assert_eq!(part(&all, "piper"), (yes(), Some(s("piper-tts"))));
    assert_eq!(
        part(&all, "piperVoice"),
        (yes(), Some(s("/h/.vox/voices/fr_FR-siwis-medium.onnx")))
    );
    let bare = probe(
        &ProbeFacts {
            python: None,
            ffmpeg: false,
            espeak: false,
            ollama: false,
            has_venv: false,
            voice: false,
            ..facts()
        },
        "/h",
    );
    assert_eq!(bare.get("needsSetup"), Some(&Json::Bool(true)));
    assert_eq!(part(&bare, "python"), (no(), Some(s("brew install python@3.11"))));
    assert_eq!(part(&bare, "ffmpeg"), (no(), Some(s("brew install ffmpeg"))));
    assert_eq!(part(&bare, "espeakNg"), (no(), Some(s("brew install espeak-ng"))));
    assert_eq!(part(&bare, "ollama"), (no(), Some(s("brew install ollama"))));
    assert_eq!(part(&bare, "venv").0, no());
    assert_eq!(part(&bare, "whisper").0, no());
    assert_eq!(part(&bare, "piperVoice").0, no());
    assert_eq!(
        probe(&ProbeFacts { kokoro: false, ..facts() }, "/h").get("needsSetup"),
        Some(&Json::Bool(true))
    );
}

#[test]
fn lines_of_progress_are_cleaned() {
    assert_eq!(clean_line("\u{1b}[32m Installing\r\u{1b}[0m "), Some(s("Installing")));
    assert_eq!(clean_line("\u{1b}[2K\r"), None);
    assert_eq!(clean_line("   "), None);
    assert_eq!(clean_line(&"é".repeat(250)), Some("é".repeat(200)));
    assert_eq!(line_from(" a\rb "), Some(s("ab")));
    assert_eq!(line_from("\r"), None);
}

#[test]
fn progress_of_a_download() {
    assert_eq!(content_length(Some("63000000")), 63_000_000);
    assert_eq!(content_length(Some("many")), 0);
    assert_eq!(content_length(None), 0);
    assert_eq!(progress_line(0, 4), None);
    assert_eq!(progress_line(0, 5), Some(s("… 5%")));
    assert_eq!(progress_line(95, 100), Some(s("… 100%")));
}

fn step(setup: &mut Setup, event: SetupEvent) -> (Vec<(String, String)>, SetupAction) {
    let r = setup.step(event);
    (r.log, r.action)
}

fn note(tag: &str, line: &str) -> Vec<(String, String)> {
    vec![(s(tag), s(line))]
}

fn done() -> SetupEvent {
    SetupEvent::Done(None)
}

fn failed() -> SetupEvent {
    SetupEvent::Done(Some(s("boom")))
}

fn upgrade() -> SetupAction {
    SetupAction::Run {
        program: s("/h/.vox/venv/bin/python"),
        args: strings(&[
            "-m", "pip", "install", "--upgrade", "pip", "--disable-pip-version-check",
            "--no-input", "--progress-bar", "off",
        ]),
        tag: s("pip"),
    }
}

#[test]
fn a_first_setup() {
    let (mut setup, first) = run_setup("/h");
    assert_eq!(
        first,
        SetupStep {
            log: note("setup", "Démarrage de l'installation…"),
            action: SetupAction::FindPython
        }
    );
    assert_eq!(
        step(&mut setup, SetupEvent::Python(Some(s("/py")))),
        (note("setup", "Python : /py"), SetupAction::MakeDir(s("/h/.vox")))
    );
    assert_eq!(
        step(&mut setup, done()),
        (vec![], SetupAction::IsExecutable(s("/h/.vox/venv/bin/python")))
    );
    assert_eq!(
        step(&mut setup, SetupEvent::Answer(false)),
        (
            note("setup", "Création de l'environnement virtuel…"),
            SetupAction::Run {
                program: s("/py"),
                args: strings(&["-m", "venv", "/h/.vox/venv"]),
                tag: s("venv")
            }
        )
    );
    assert_eq!(step(&mut setup, done()), (note("setup", "Mise à jour de pip…"), upgrade()));
    assert_eq!(
        step(&mut setup, done()),
        (
            note("setup", "Installation de Whisper, Kokoro et Piper (quelques minutes)…"),
            SetupAction::Run {
                program: s("/h/.vox/venv/bin/python"),
                args: strings(&[
                    "-m", "pip", "install", "--disable-pip-version-check", "--no-input",
                    "--progress-bar", "off", "openai-whisper", "numpy", "soundfile", "kokoro",
                    "piper-tts", "num2words",
                ]),
                tag: s("pip"),
            }
        )
    );
    assert_eq!(step(&mut setup, done()), (vec![], SetupAction::MakeDir(s("/h/.vox/voices"))));
    let model = "/h/.vox/voices/fr_FR-siwis-medium.onnx";
    assert_eq!(step(&mut setup, done()), (vec![], SetupAction::Exists(s(model))));
    assert_eq!(
        step(&mut setup, SetupEvent::Answer(false)),
        (
            note("voice", "Téléchargement de la voix Piper (63 Mo)…"),
            SetupAction::Download { url: s(PIPER_URL), dest: s(model) }
        )
    );
    let config = "/h/.vox/voices/fr_FR-siwis-medium.onnx.json";
    assert_eq!(
        step(&mut setup, done()),
        (note("voice", "Voix téléchargée ✓"), SetupAction::Exists(s(config)))
    );
    assert_eq!(
        step(&mut setup, SetupEvent::Answer(false)),
        (vec![], SetupAction::Download { url: format!("{PIPER_URL}.json"), dest: s(config) })
    );
    assert_eq!(
        step(&mut setup, done()),
        (
            vec![
                (s("voice"), s("Voix téléchargée ✓")),
                (s("setup"), s("Installation terminée ✓"))
            ],
            SetupAction::Finish
        )
    );
}

fn has_modules() -> SetupAction {
    SetupAction::HasModules {
        python: s("/h/.vox/venv/bin/python"),
        modules: strings(&["whisper", "numpy", "soundfile", "kokoro", "piper", "num2words"]),
    }
}

#[test]
fn a_second_setup_makes_nothing_again() {
    let (mut setup, _) = run_setup("/h");
    step(&mut setup, SetupEvent::Python(Some(s("/py"))));
    assert_eq!(
        step(&mut setup, done()).1,
        SetupAction::IsExecutable(s("/h/.vox/venv/bin/python"))
    );
    assert_eq!(step(&mut setup, SetupEvent::Answer(true)), (vec![], has_modules()));
    assert_eq!(
        step(&mut setup, SetupEvent::Answer(true)),
        (vec![], SetupAction::MakeDir(s("/h/.vox/voices")))
    );
    assert_eq!(
        step(&mut setup, done()).1,
        SetupAction::Exists(s("/h/.vox/voices/fr_FR-siwis-medium.onnx"))
    );
    assert_eq!(
        step(&mut setup, SetupEvent::Answer(true)).1,
        SetupAction::Exists(s("/h/.vox/voices/fr_FR-siwis-medium.onnx.json"))
    );
    assert_eq!(
        step(&mut setup, SetupEvent::Answer(true)),
        (note("setup", "Installation terminée ✓"), SetupAction::Finish)
    );
}

#[test]
fn missing_modules_are_installed() {
    let (mut setup, _) = run_setup("/h");
    assert!(setup.takes(&SetupEvent::Python(None)));
    assert!(!setup.takes(&done()));
    step(&mut setup, SetupEvent::Python(Some(s("/py"))));
    step(&mut setup, done());
    step(&mut setup, SetupEvent::Answer(true));
    assert!(setup.takes(&SetupEvent::Answer(false)));
    assert_eq!(
        step(&mut setup, SetupEvent::Answer(false)),
        (note("setup", "Mise à jour de pip…"), upgrade())
    );
}

#[test]
fn failures_end_a_setup() {
    let fail = || SetupAction::Fail(s("boom"));
    let at = |events: Vec<SetupEvent>| {
        let (mut setup, _) = run_setup("/h");
        let mut last = (vec![], SetupAction::FindPython);
        for e in events {
            last = step(&mut setup, e);
        }
        last
    };
    let py = || SetupEvent::Python(Some(s("/py")));
    let yes = || SetupEvent::Answer(true);
    let no = || SetupEvent::Answer(false);
    assert_eq!(
        at(vec![SetupEvent::Python(None)]),
        (
            note(
                "setup",
                "Python 3.11+ introuvable — installez-le puis relancez : brew install python@3.11"
            ),
            SetupAction::Fail(s("Python 3.11+ not found"))
        )
    );
    assert_eq!(at(vec![py(), failed()]), (vec![], fail()));
    assert_eq!(
        at(vec![py(), done(), no(), failed()]),
        (note("setup", "Échec de création du venv : boom"), fail())
    );
    assert_eq!(
        at(vec![py(), done(), yes(), no(), failed()]),
        (note("setup", "Échec de pip : boom"), fail())
    );
    assert_eq!(
        at(vec![py(), done(), yes(), no(), done(), failed()]),
        (note("setup", "Échec d'installation des dépendances : boom"), fail())
    );
    assert_eq!(at(vec![py(), done(), yes(), yes(), failed()]), (vec![], fail()));
    let ready = || vec![py(), done(), yes(), yes(), done()];
    let mut model = ready();
    model.extend([no(), failed()]);
    assert_eq!(at(model), (note("voice", "Échec du téléchargement : boom"), fail()));
    let mut config = ready();
    config.extend([yes(), no(), failed()]);
    assert_eq!(at(config), (note("voice", "Échec du téléchargement : boom"), fail()));
}
