//! First-run setup of the speech stack: what is probed, what is installed and in
//! which order, and what is reported on the way.
use vstd::prelude::*;

use crate::json::{
    law_an_added_member_is_found, lemma_keys_stay, member, no_members, with_member, Json, JsonTree,
};
use crate::paths::{join_path, law_a_joined_path_lies_below_its_base, under};
use crate::pattern::{all_replaced, replace_all, ANSI};
use crate::text::{
    begins, cat2, cat3, decimal, head, in_turn, is_blank, is_digit, joined, keep_head,
    law_decimal_reads_back,
    law_only_blank_texts_trim_to_nothing, law_split_undoes_join, law_trimming_takes_padding_away,
    lemma_in_turn_more, lemma_in_turn_next, number_within, parse_number, pieces, replace, replaced, split, to_decimal, trim, trimmed, Class,
};

verus! {

/// The own environment, under the home directory.
pub const VENV_DIR: &'static str = ".vox/venv";

pub const PIPER_BASE: &'static str = "fr_FR-siwis-medium";

pub const PIPER_URL: &'static str = "https://huggingface.co/rhasspy/piper-voices/resolve/main/fr/fr_FR/siwis/medium/fr_FR-siwis-medium.onnx";

/// The interpreter of the own environment.
pub fn venv_python(home: &str) -> (r: String)
    ensures
        r@ == under(home@, ".vox/venv/bin/python"@),
{
    join_path(home, ".vox/venv/bin/python")
}

// ── Interpreters ─────────────────────────────────────────────────────────────

/// The names under which an interpreter for the own environment is looked for, in
/// this order.
pub fn python_names() -> (r: Vec<String>)
    ensures
        r.deep_view() == seq!["python3.13"@, "python3.12"@, "python3.11"@, "python3"@],
{
    let mut r: Vec<String> = Vec::new();
    r.push("python3.13".to_owned());
    r.push("python3.12".to_owned());
    r.push("python3.11".to_owned());
    r.push("python3".to_owned());
    assert(r.deep_view() =~= seq!["python3.13"@, "python3.12"@, "python3.11"@, "python3"@]);
    r
}

/// A part of a version as a number; zero where it is none.
pub open spec fn version_part(parts: Seq<Seq<char>>, i: int) -> nat {
    if 0 <= i < parts.len() {
        match number_within(parts[i], u32::MAX as nat) {
            Some(n) => n,
            None => 0,
        }
    } else {
        0
    }
}

/// Whether a version that an interpreter printed is 3.11 or later.
pub open spec fn is_recent(printed: Seq<char>) -> bool {
    let parts = pieces(trimmed(printed), Class::Only('.'));
    let major = version_part(parts, 0);
    let minor = version_part(parts, 1);
    major > 3 || (major == 3 && minor >= 11)
}

fn read_version_part(parts: &Vec<String>, i: usize) -> (r: u64)
    ensures
        r == version_part(parts.deep_view(), i as int),
{
    if i < parts.len() {
        match parse_number(parts[i].as_str(), u32::MAX as u64) {
            Some(n) => n,
            None => 0,
        }
    } else {
        0
    }
}

/// The program that prints the version of an interpreter.
pub const VERSION_CODE: &'static str =
    "import sys; v=sys.version_info; print('%d.%d' % (v[0], v[1]))";

/// Tells whether an interpreter is recent enough, by the version that it printed.
pub fn recent_python(printed: &str) -> (r: bool)
    ensures
        r == is_recent(printed@),
{
    let parts = split(trim(printed).as_str(), &Class::Only('.'));
    let major = read_version_part(&parts, 0);
    let minor = read_version_part(&parts, 1);
    major > 3 || (major == 3 && minor >= 11)
}

/// An interpreter that was found, and the version that it printed, where it ran.
pub struct Interpreter {
    pub path: String,
    pub printed: Option<String>,
}

impl Interpreter {
    /// Whether it can make the own environment.
    pub open spec fn fits(self) -> bool {
        match self.printed {
            Some(v) => is_recent(v@),
            None => false,
        }
    }
}

/// The first interpreter that fits.
pub open spec fn first_fit(found: Seq<Interpreter>) -> Option<Seq<char>>
    decreases found.len(),
{
    if found.len() == 0 {
        None
    } else if found[0].fits() {
        Some(found[0].path@)
    } else {
        first_fit(found.skip(1))
    }
}

/// Picks a Python 3.11 or later, which the own environment is made with: the first
/// of those found.
pub fn find_python(found: &Vec<Interpreter>) -> (r: Option<String>)
    ensures
        r.deep_view() == first_fit(found@),
{
    let mut i: usize = 0;
    assert(found@.skip(0) =~= found@);
    while i < found.len()
        invariant
            i <= found@.len(),
            first_fit(found@) == first_fit(found@.skip(i as int)),
        decreases found@.len() - i,
    {
        let fits = match &found[i].printed {
            Some(v) => recent_python(v.as_str()),
            None => false,
        };
        assert(found@.skip(i as int)[0] == found@[i as int]);
        if fits {
            return Some(found[i].path.clone());
        }
        assert(found@.skip(i as int).skip(1) =~= found@.skip(i + 1));
        i = i + 1;
    }
    None
}

/// The program that checks whether a module is there, without importing it.
pub fn module_check(module: &str) -> (r: String)
    ensures
        r@ == "import importlib.util,sys; sys.exit(0 if importlib.util.find_spec('"@ + module@
            + "') else 1)"@,
{
    cat3(
        "import importlib.util,sys; sys.exit(0 if importlib.util.find_spec('",
        module,
        "') else 1)",
    )
}

// ── Probe ────────────────────────────────────────────────────────────────────

/// What was found of the components.
pub struct ProbeFacts {
    pub python: Option<String>,
    pub ffmpeg: bool,
    pub espeak: bool,
    pub ollama: bool,
    pub has_venv: bool,
    pub whisper: bool,
    pub kokoro: bool,
    pub piper: bool,
    pub voice: bool,
}

/// The report on a component.
pub open spec fn component(ok: bool, detail: Seq<char>) -> JsonTree {
    with_member(
        with_member(no_members(), "ok"@, JsonTree::Bool(ok)),
        "detail"@,
        JsonTree::Text(detail),
    )
}

fn comp(ok: bool, detail: &str) -> (r: Json)
    ensures
        r@ == component(ok, detail@),
{
    Json::object().with("ok", Json::Bool(ok)).with_text("detail", detail)
}

/// The detail of a tool: "ok", or how to get it.
pub open spec fn tool_detail(found: bool, hint: Seq<char>) -> Seq<char> {
    if found {
        "ok"@
    } else {
        hint
    }
}

/// Where the voice model is kept.
pub open spec fn voice_path(home: Seq<char>) -> Seq<char> {
    under(under(home, ".vox/voices"@), PIPER_BASE@ + ".onnx"@)
}

/// The reports on the components. A module of the own environment is there only
/// where the environment is.
pub open spec fn components(f: ProbeFacts, home: Seq<char>) -> JsonTree {
    let a = with_member(
        no_members(),
        "python"@,
        component(
            f.python is Some,
            match f.python {
                Some(p) => p@,
                None => "brew install python@3.11"@,
            },
        ),
    );
    let b = with_member(
        a,
        "ffmpeg"@,
        component(f.ffmpeg, tool_detail(f.ffmpeg, "brew install ffmpeg"@)),
    );
    let c = with_member(
        b,
        "espeakNg"@,
        component(f.espeak, tool_detail(f.espeak, "brew install espeak-ng"@)),
    );
    let d = with_member(
        c,
        "ollama"@,
        component(f.ollama, tool_detail(f.ollama, "brew install ollama"@)),
    );
    let e = with_member(
        d,
        "venv"@,
        component(f.has_venv, under(home, ".vox/venv/bin/python"@)),
    );
    let g = with_member(e, "whisper"@, component(f.has_venv && f.whisper, "openai-whisper"@));
    let h = with_member(g, "kokoro"@, component(f.has_venv && f.kokoro, "kokoro"@));
    let i = with_member(h, "piper"@, component(f.has_venv && f.piper, "piper-tts"@));
    with_member(i, "piperVoice"@, component(f.voice, voice_path(home)))
}

/// Whether anything is left to set up.
pub open spec fn needs_setup(f: ProbeFacts) -> bool {
    !(f.has_venv && f.whisper && f.kokoro && f.piper)
}

/// Reports the health of every component.
pub fn probe(f: &ProbeFacts, home: &str) -> (r: Json)
    ensures
        r@ == with_member(
            with_member(no_members(), "components"@, components(*f, home@)),
            "needsSetup"@,
            JsonTree::Bool(needs_setup(*f)),
        ),
{
    let whisper = f.has_venv && f.whisper;
    let kokoro = f.has_venv && f.kokoro;
    let piper = f.has_venv && f.piper;
    let python = match &f.python {
        Some(p) => comp(true, p.as_str()),
        None => comp(false, "brew install python@3.11"),
    };
    let ffmpeg = if f.ffmpeg {
        "ok"
    } else {
        "brew install ffmpeg"
    };
    let espeak = if f.espeak {
        "ok"
    } else {
        "brew install espeak-ng"
    };
    let ollama = if f.ollama {
        "ok"
    } else {
        "brew install ollama"
    };
    let venv = venv_python(home);
    let voices = join_path(home, ".vox/voices");
    let voice = join_path(voices.as_str(), cat2(PIPER_BASE, ".onnx").as_str());
    let parts = Json::object()
        .with("python", python)
        .with("ffmpeg", comp(f.ffmpeg, ffmpeg))
        .with("espeakNg", comp(f.espeak, espeak))
        .with("ollama", comp(f.ollama, ollama))
        .with("venv", comp(f.has_venv, venv.as_str()))
        .with("whisper", comp(whisper, "openai-whisper"))
        .with("kokoro", comp(kokoro, "kokoro"))
        .with("piper", comp(piper, "piper-tts"))
        .with("piperVoice", comp(f.voice, voice.as_str()));
    Json::object().with("components", parts).with(
        "needsSetup",
        Json::Bool(!(whisper && kokoro && piper)),
    )
}

// ── Progress ─────────────────────────────────────────────────────────────────

/// The first 200 characters of a line of progress that holds anything.
pub open spec fn shown(stripped: Seq<char>) -> Option<Seq<char>> {
    let t = trimmed(replaced(stripped, Class::Only('\r'), ""@));
    if t.len() == 0 {
        None
    } else {
        Some(head(t, 200))
    }
}

/// What is shown of a line whose control sequences are gone.
pub fn line_from(stripped: &str) -> (r: Option<String>)
    ensures
        r.deep_view() == shown(stripped@),
{
    let t = trim(replace(stripped, &Class::Only('\r'), "").as_str());
    if t.as_str().is_empty() {
        None
    } else {
        Some(keep_head(t.as_str(), 200))
    }
}

/// Cleans a line of progress: without control sequences and carriage returns,
/// trimmed, and cut to 200 characters. Nothing is shown of a blank line.
pub fn clean_line(line: &str) -> (r: Option<String>)
    ensures
        r.deep_view() == shown(all_replaced(ANSI@, line@, ""@)),
{
    line_from(replace_all(ANSI, line, "").as_str())
}

/// The length of a download as its header gives it; zero where it is not given.
pub fn content_length(header: Option<&str>) -> (r: u64)
    ensures
        r == (match header {
            Some(v) => match number_within(v@, u64::MAX as nat) {
                Some(n) => n,
                None => 0,
            },
            None => 0,
        }),
{
    match header {
        Some(v) => match parse_number(v, u64::MAX) {
            Some(n) => n,
            None => 0,
        },
        None => 0,
    }
}

/// The line on a download at `pct` percent, where five or more have passed since
/// the last one.
pub fn progress_line(last_pct: u32, pct: u32) -> (r: Option<String>)
    requires
        last_pct <= pct,
    ensures
        match r {
            Some(line) => pct - last_pct >= 5 && line@ == "… "@ + decimal(pct as nat) + "%"@,
            None => pct - last_pct < 5,
        },
{
    if pct - last_pct >= 5 {
        Some(cat3("… ", to_decimal(pct as u128).as_str(), "%"))
    } else {
        None
    }
}

// ── The run ──────────────────────────────────────────────────────────────────

/// How far the setup has come: what it waits to hear.
pub enum Stage {
    /// Which interpreter there is.
    Python,
    /// Whether the directory of Vox could be made.
    Dir,
    /// Whether the environment is there.
    Venv,
    /// Whether the modules are there.
    Modules,
    /// Whether the environment could be made.
    CreateVenv,
    /// Whether the installer could be updated.
    Upgrade,
    /// Whether the modules could be installed.
    Install,
    /// Whether the directory of the voices could be made.
    Voices,
    /// Whether the voice model is there.
    Model,
    /// Whether the voice model could be fetched.
    FetchModel,
    /// Whether the configuration of the voice is there.
    Config,
    /// Whether the configuration of the voice could be fetched.
    FetchConfig,
    /// Nothing.
    Over,
}

/// What is done next.
#[derive(Debug, PartialEq)]
pub enum SetupAction {
    FindPython,
    MakeDir(String),
    IsExecutable(String),
    /// Ask an interpreter whether it has all of these modules.
    HasModules { python: String, modules: Vec<String> },
    Run { program: String, args: Vec<String>, tag: String },
    Exists(String),
    Download { url: String, dest: String },
    /// All is installed: probe once more.
    Finish,
    Fail(String),
}

pub enum SetupActionView {
    FindPython,
    MakeDir(Seq<char>),
    IsExecutable(Seq<char>),
    HasModules { python: Seq<char>, modules: Seq<Seq<char>> },
    Run { program: Seq<char>, args: Seq<Seq<char>>, tag: Seq<char> },
    Exists(Seq<char>),
    Download { url: Seq<char>, dest: Seq<char> },
    Finish,
    Fail(Seq<char>),
}

impl View for SetupAction {
    type V = SetupActionView;

    open spec fn view(&self) -> SetupActionView {
        match self {
            SetupAction::FindPython => SetupActionView::FindPython,
            SetupAction::MakeDir(p) => SetupActionView::MakeDir(p@),
            SetupAction::IsExecutable(p) => SetupActionView::IsExecutable(p@),
            SetupAction::HasModules { python, modules } => SetupActionView::HasModules {
                python: python@,
                modules: modules.deep_view(),
            },
            SetupAction::Run { program, args, tag } => SetupActionView::Run {
                program: program@,
                args: args.deep_view(),
                tag: tag@,
            },
            SetupAction::Exists(p) => SetupActionView::Exists(p@),
            SetupAction::Download { url, dest } => SetupActionView::Download {
                url: url@,
                dest: dest@,
            },
            SetupAction::Finish => SetupActionView::Finish,
            SetupAction::Fail(e) => SetupActionView::Fail(e@),
        }
    }
}

/// What came of the last action.
pub enum SetupEvent {
    Python(Option<String>),
    /// It was done; or else it failed, for this reason.
    Done(Option<String>),
    Answer(bool),
}

/// The kind of event that a stage waits for.
pub open spec fn awaits(stage: Stage, event: SetupEvent) -> bool {
    match stage {
        Stage::Python => event is Python,
        Stage::Venv | Stage::Modules | Stage::Model | Stage::Config => event is Answer,
        Stage::Over => false,
        _ => event is Done,
    }
}

/// A line of progress, under a tag.
pub open spec fn note(tag: Seq<char>, line: Seq<char>) -> Seq<(Seq<char>, Seq<char>)> {
    seq![(tag, line)]
}

/// The arguments that make the environment.
pub open spec fn venv_args(venv: Seq<char>) -> Seq<Seq<char>> {
    seq!["-m"@, "venv"@, venv]
}

/// The arguments that update the installer.
pub open spec fn upgrade_args() -> Seq<Seq<char>> {
    seq![
        "-m"@,
        "pip"@,
        "install"@,
        "--upgrade"@,
        "pip"@,
        "--disable-pip-version-check"@,
        "--no-input"@,
        "--progress-bar"@,
        "off"@,
    ]
}

/// The arguments that install the modules.
pub open spec fn install_args() -> Seq<Seq<char>> {
    seq![
        "-m"@,
        "pip"@,
        "install"@,
        "--disable-pip-version-check"@,
        "--no-input"@,
        "--progress-bar"@,
        "off"@,
        "openai-whisper"@,
        "numpy"@,
        "soundfile"@,
        "kokoro"@,
        "piper-tts"@,
        "num2words"@,
    ]
}

/// The modules that are installed, under the names by which they are imported.
pub open spec fn module_names() -> Seq<Seq<char>> {
    seq!["whisper"@, "numpy"@, "soundfile"@, "kokoro"@, "piper"@, "num2words"@]
}

/// A setup in a home directory, with the interpreter that was found.
#[verifier::ext_equal]
pub struct SetupView {
    pub home: Seq<char>,
    pub python: Seq<char>,
    pub stage: Stage,
}

/// What a step leads to: the setup after it, the lines of progress, and what is
/// done next.
pub struct StepView {
    pub setup: SetupView,
    pub log: Seq<(Seq<char>, Seq<char>)>,
    pub action: SetupActionView,
}

impl SetupView {
    pub open spec fn vox(self) -> Seq<char> {
        under(self.home, ".vox"@)
    }

    pub open spec fn venv(self) -> Seq<char> {
        under(self.vox(), "venv"@)
    }

    pub open spec fn venv_python(self) -> Seq<char> {
        under(self.venv(), "bin/python"@)
    }

    pub open spec fn voices(self) -> Seq<char> {
        under(self.vox(), "voices"@)
    }

    pub open spec fn model(self) -> Seq<char> {
        under(self.voices(), PIPER_BASE@ + ".onnx"@)
    }

    pub open spec fn config(self) -> Seq<char> {
        under(self.voices(), PIPER_BASE@ + ".onnx.json"@)
    }

    pub open spec fn go(
        self,
        stage: Stage,
        log: Seq<(Seq<char>, Seq<char>)>,
        action: SetupActionView,
    ) -> StepView {
        StepView { setup: SetupView { stage, ..self }, log, action }
    }

    pub open spec fn fail(self, log: Seq<(Seq<char>, Seq<char>)>, e: Seq<char>) -> StepView {
        self.go(Stage::Over, log, SetupActionView::Fail(e))
    }

    pub open spec fn upgrade(self) -> StepView {
        self.go(
            Stage::Upgrade,
            note("setup"@, "Mise à jour de pip…"@),
            SetupActionView::Run { program: self.venv_python(), args: upgrade_args(), tag: "pip"@ },
        )
    }

    pub open spec fn finish(self) -> StepView {
        self.go(
            Stage::Over,
            note("setup"@, "Installation terminée ✓"@),
            SetupActionView::Finish,
        )
    }

    /// The step on an event. What is there already is not made again.
    pub open spec fn step(self, event: SetupEvent) -> StepView {
        match (self.stage, event) {
            (Stage::Python, SetupEvent::Python(Some(p))) => StepView {
                setup: SetupView { stage: Stage::Dir, python: p@, ..self },
                log: note("setup"@, "Python : "@ + p@),
                action: SetupActionView::MakeDir(self.vox()),
            },
            (Stage::Python, _) => self.fail(
                note(
                    "setup"@,
                    "Python 3.11+ introuvable — installez-le puis relancez : brew install python@3.11"@,
                ),
                "Python 3.11+ not found"@,
            ),
            (Stage::Dir, SetupEvent::Done(None)) => self.go(
                Stage::Venv,
                Seq::empty(),
                SetupActionView::IsExecutable(self.venv_python()),
            ),
            (Stage::Dir, SetupEvent::Done(Some(e))) => self.fail(Seq::empty(), e@),
            (Stage::Venv, SetupEvent::Answer(true)) => self.go(
                Stage::Modules,
                Seq::empty(),
                SetupActionView::HasModules {
                    python: self.venv_python(),
                    modules: module_names(),
                },
            ),
            (Stage::Modules, SetupEvent::Answer(true)) => self.go(
                Stage::Voices,
                Seq::empty(),
                SetupActionView::MakeDir(self.voices()),
            ),
            (Stage::Modules, _) => self.upgrade(),
            (Stage::Venv, _) => self.go(
                Stage::CreateVenv,
                note("setup"@, "Création de l'environnement virtuel…"@),
                SetupActionView::Run {
                    program: self.python,
                    args: venv_args(self.venv()),
                    tag: "venv"@,
                },
            ),
            (Stage::CreateVenv, SetupEvent::Done(None)) => self.upgrade(),
            (Stage::CreateVenv, SetupEvent::Done(Some(e))) => self.fail(
                note("setup"@, "Échec de création du venv : "@ + e@),
                e@,
            ),
            (Stage::Upgrade, SetupEvent::Done(None)) => self.go(
                Stage::Install,
                note(
                    "setup"@,
                    "Installation de Whisper, Kokoro et Piper (quelques minutes)…"@,
                ),
                SetupActionView::Run {
                    program: self.venv_python(),
                    args: install_args(),
                    tag: "pip"@,
                },
            ),
            (Stage::Upgrade, SetupEvent::Done(Some(e))) => self.fail(
                note("setup"@, "Échec de pip : "@ + e@),
                e@,
            ),
            (Stage::Install, SetupEvent::Done(None)) => self.go(
                Stage::Voices,
                Seq::empty(),
                SetupActionView::MakeDir(self.voices()),
            ),
            (Stage::Install, SetupEvent::Done(Some(e))) => self.fail(
                note("setup"@, "Échec d'installation des dépendances : "@ + e@),
                e@,
            ),
            (Stage::Voices, SetupEvent::Done(None)) => self.go(
                Stage::Model,
                Seq::empty(),
                SetupActionView::Exists(self.model()),
            ),
            (Stage::Voices, SetupEvent::Done(Some(e))) => self.fail(Seq::empty(), e@),
            (Stage::Model, SetupEvent::Answer(true)) => self.go(
                Stage::Config,
                Seq::empty(),
                SetupActionView::Exists(self.config()),
            ),
            (Stage::Model, _) => self.go(
                Stage::FetchModel,
                note("voice"@, "Téléchargement de la voix Piper (63 Mo)…"@),
                SetupActionView::Download { url: PIPER_URL@, dest: self.model() },
            ),
            (Stage::FetchModel, SetupEvent::Done(None)) => self.go(
                Stage::Config,
                note("voice"@, "Voix téléchargée ✓"@),
                SetupActionView::Exists(self.config()),
            ),
            (Stage::Config, SetupEvent::Answer(true)) => self.finish(),
            (Stage::Config, _) => self.go(
                Stage::FetchConfig,
                Seq::empty(),
                SetupActionView::Download { url: PIPER_URL@ + ".json"@, dest: self.config() },
            ),
            (Stage::FetchConfig, SetupEvent::Done(None)) => StepView {
                log: note("voice"@, "Voix téléchargée ✓"@) + self.finish().log,
                ..self.finish()
            },
            (_, SetupEvent::Done(Some(e))) => self.fail(
                note("voice"@, "Échec du téléchargement : "@ + e@),
                e@,
            ),
            _ => self.fail(Seq::empty(), Seq::empty()),
        }
    }
}

/// A setup on its way.
pub struct Setup {
    home: String,
    python: String,
    stage: Stage,
}

impl View for Setup {
    type V = SetupView;

    closed spec fn view(&self) -> SetupView {
        SetupView { home: self.home@, python: self.python@, stage: self.stage }
    }
}

/// What tagged lines say.
pub open spec fn log_view(log: Seq<(String, String)>) -> Seq<(Seq<char>, Seq<char>)> {
    log.map_values(|l: (String, String)| (l.0@, l.1@))
}

/// The lines of progress of a step, and what is done next.
#[derive(Debug, PartialEq)]
pub struct SetupStep {
    pub log: Vec<(String, String)>,
    pub action: SetupAction,
}

fn quiet(action: SetupAction) -> (r: SetupStep)
    ensures
        log_view(r.log@) == Seq::<(Seq<char>, Seq<char>)>::empty(),
        r.action == action,
{
    let log: Vec<(String, String)> = Vec::new();
    assert(log_view(log@) =~= Seq::empty());
    SetupStep { log, action }
}

fn noted(tag: &str, line: String, action: SetupAction) -> (r: SetupStep)
    ensures
        log_view(r.log@) == note(tag@, line@),
        r.action == action,
{
    let ghost words = line@;
    let mut log: Vec<(String, String)> = Vec::new();
    log.push((tag.to_owned(), line));
    assert(log_view(log@) =~= note(tag@, words));
    SetupStep { log, action }
}

fn list_upgrade_args() -> (r: Vec<String>)
    ensures
        r.deep_view() == upgrade_args(),
{
    let mut a: Vec<String> = Vec::new();
    a.push("-m".to_owned());
    a.push("pip".to_owned());
    a.push("install".to_owned());
    a.push("--upgrade".to_owned());
    a.push("pip".to_owned());
    a.push("--disable-pip-version-check".to_owned());
    a.push("--no-input".to_owned());
    a.push("--progress-bar".to_owned());
    a.push("off".to_owned());
    assert(a.deep_view() =~= upgrade_args());
    a
}

fn list_module_names() -> (r: Vec<String>)
    ensures
        r.deep_view() == module_names(),
{
    let mut a: Vec<String> = Vec::new();
    a.push("whisper".to_owned());
    a.push("numpy".to_owned());
    a.push("soundfile".to_owned());
    a.push("kokoro".to_owned());
    a.push("piper".to_owned());
    a.push("num2words".to_owned());
    assert(a.deep_view() =~= module_names());
    a
}

fn list_install_args() -> (r: Vec<String>)
    ensures
        r.deep_view() == install_args(),
{
    let mut a: Vec<String> = Vec::new();
    a.push("-m".to_owned());
    a.push("pip".to_owned());
    a.push("install".to_owned());
    a.push("--disable-pip-version-check".to_owned());
    a.push("--no-input".to_owned());
    a.push("--progress-bar".to_owned());
    a.push("off".to_owned());
    a.push("openai-whisper".to_owned());
    a.push("numpy".to_owned());
    a.push("soundfile".to_owned());
    a.push("kokoro".to_owned());
    a.push("piper-tts".to_owned());
    a.push("num2words".to_owned());
    assert(a.deep_view() =~= install_args());
    a
}

/// Starts a setup: makes the own environment, installs Whisper, Kokoro and Piper
/// into it, and fetches the French voice of Piper. The first thing to do is to find
/// an interpreter.
pub fn run_setup(home: &str) -> (r: (Setup, SetupStep))
    ensures
        r.0@.home == home@,
        r.0@.stage is Python,
        log_view(r.1.log@) == note("setup"@, "Démarrage de l'installation…"@),
        r.1.action is FindPython,
{
    let setup = Setup { home: home.to_owned(), python: String::new(), stage: Stage::Python };
    (setup, noted("setup", "Démarrage de l'installation…".to_owned(), SetupAction::FindPython))
}

impl Setup {
    fn vox(&self) -> (r: String)
        ensures
            r@ == self@.vox(),
    {
        join_path(self.home.as_str(), ".vox")
    }

    fn venv(&self) -> (r: String)
        ensures
            r@ == self@.venv(),
    {
        join_path(self.vox().as_str(), "venv")
    }

    fn venv_python(&self) -> (r: String)
        ensures
            r@ == self@.venv_python(),
    {
        join_path(self.venv().as_str(), "bin/python")
    }

    fn voices(&self) -> (r: String)
        ensures
            r@ == self@.voices(),
    {
        join_path(self.vox().as_str(), "voices")
    }

    fn model(&self) -> (r: String)
        ensures
            r@ == self@.model(),
    {
        join_path(self.voices().as_str(), cat2(PIPER_BASE, ".onnx").as_str())
    }

    fn config(&self) -> (r: String)
        ensures
            r@ == self@.config(),
    {
        join_path(self.voices().as_str(), cat2(PIPER_BASE, ".onnx.json").as_str())
    }

    fn upgrade(&mut self) -> (r: SetupStep)
        ensures
            final(self)@ == old(self)@.upgrade().setup,
            log_view(r.log@) == old(self)@.upgrade().log,
            r.action@ == old(self)@.upgrade().action,
    {
        self.stage = Stage::Upgrade;
        noted(
            "setup",
            "Mise à jour de pip…".to_owned(),
            SetupAction::Run {
                program: self.venv_python(),
                args: list_upgrade_args(),
                tag: "pip".to_owned(),
            },
        )
    }

    fn finish(&mut self) -> (r: SetupStep)
        ensures
            final(self)@ == old(self)@.finish().setup,
            log_view(r.log@) == old(self)@.finish().log,
            r.action@ == old(self)@.finish().action,
    {
        self.stage = Stage::Over;
        noted("setup", "Installation terminée ✓".to_owned(), SetupAction::Finish)
    }

    fn fail(&mut self, tag: &str, line: &str, e: String) -> (r: SetupStep)
        ensures
            final(self)@ == (SetupView { stage: Stage::Over, ..old(self)@ }),
            log_view(r.log@) == note(tag@, line@ + e@),
            r.action@ == SetupActionView::Fail(e@),
    {
        self.stage = Stage::Over;
        let text = cat2(line, e.as_str());
        noted(tag, text, SetupAction::Fail(e))
    }

    fn fail_quietly(&mut self, e: String) -> (r: SetupStep)
        ensures
            final(self)@ == (SetupView { stage: Stage::Over, ..old(self)@ }),
            log_view(r.log@) == Seq::<(Seq<char>, Seq<char>)>::empty(),
            r.action@ == SetupActionView::Fail(e@),
    {
        self.stage = Stage::Over;
        quiet(SetupAction::Fail(e))
    }

    /// Tells whether the setup waits for such an event.
    pub fn takes(&self, event: &SetupEvent) -> (r: bool)
        ensures
            r == awaits(self@.stage, *event),
    {
        match (&self.stage, event) {
            (Stage::Python, SetupEvent::Python(_)) => true,
            (Stage::Python, _) => false,
            (Stage::Venv, SetupEvent::Answer(_)) => true,
            (Stage::Venv, _) => false,
            (Stage::Modules, SetupEvent::Answer(_)) => true,
            (Stage::Modules, _) => false,
            (Stage::Model, SetupEvent::Answer(_)) => true,
            (Stage::Model, _) => false,
            (Stage::Config, SetupEvent::Answer(_)) => true,
            (Stage::Config, _) => false,
            (Stage::Over, _) => false,
            (_, SetupEvent::Done(_)) => true,
            _ => false,
        }
    }

    /// Takes the outcome of the last action in, and tells what is next.
    pub fn step(&mut self, event: SetupEvent) -> (r: SetupStep)
        requires
            awaits(old(self)@.stage, event),
        ensures
            final(self)@ == old(self)@.step(event).setup,
            log_view(r.log@) == old(self)@.step(event).log,
            r.action@ == old(self)@.step(event).action,
    {
        match (&self.stage, event) {
            (Stage::Python, SetupEvent::Python(Some(p))) => {
                let line = cat2("Python : ", p.as_str());
                self.python = p;
                self.stage = Stage::Dir;
                noted("setup", line, SetupAction::MakeDir(self.vox()))
            },
            (Stage::Python, _) => {
                self.stage = Stage::Over;
                noted(
                    "setup",
                    "Python 3.11+ introuvable — installez-le puis relancez : brew install python@3.11".to_owned(),
                    SetupAction::Fail("Python 3.11+ not found".to_owned()),
                )
            },
            (Stage::Dir, SetupEvent::Done(None)) => {
                self.stage = Stage::Venv;
                quiet(SetupAction::IsExecutable(self.venv_python()))
            },
            (Stage::Dir, SetupEvent::Done(Some(e))) => self.fail_quietly(e),
            (Stage::Venv, SetupEvent::Answer(true)) => {
                self.stage = Stage::Modules;
                quiet(
                    SetupAction::HasModules {
                        python: self.venv_python(),
                        modules: list_module_names(),
                    },
                )
            },
            (Stage::Modules, SetupEvent::Answer(true)) => {
                self.stage = Stage::Voices;
                quiet(SetupAction::MakeDir(self.voices()))
            },
            (Stage::Modules, _) => self.upgrade(),
            (Stage::Venv, _) => {
                self.stage = Stage::CreateVenv;
                let mut args: Vec<String> = Vec::new();
                args.push("-m".to_owned());
                args.push("venv".to_owned());
                args.push(self.venv());
                assert(args.deep_view() =~= venv_args(self@.venv()));
                noted(
                    "setup",
                    "Création de l'environnement virtuel…".to_owned(),
                    SetupAction::Run { program: self.python.clone(), args, tag: "venv".to_owned() },
                )
            },
            (Stage::CreateVenv, SetupEvent::Done(None)) => self.upgrade(),
            (Stage::CreateVenv, SetupEvent::Done(Some(e))) => self.fail(
                "setup",
                "Échec de création du venv : ",
                e,
            ),
            (Stage::Upgrade, SetupEvent::Done(None)) => {
                self.stage = Stage::Install;
                noted(
                    "setup",
                    "Installation de Whisper, Kokoro et Piper (quelques minutes)…".to_owned(),
                    SetupAction::Run {
                        program: self.venv_python(),
                        args: list_install_args(),
                        tag: "pip".to_owned(),
                    },
                )
            },
            (Stage::Upgrade, SetupEvent::Done(Some(e))) => self.fail("setup", "Échec de pip : ", e),
            (Stage::Install, SetupEvent::Done(None)) => {
                self.stage = Stage::Voices;
                quiet(SetupAction::MakeDir(self.voices()))
            },
            (Stage::Install, SetupEvent::Done(Some(e))) => self.fail(
                "setup",
                "Échec d'installation des dépendances : ",
                e,
            ),
            (Stage::Voices, SetupEvent::Done(None)) => {
                self.stage = Stage::Model;
                quiet(SetupAction::Exists(self.model()))
            },
            (Stage::Voices, SetupEvent::Done(Some(e))) => self.fail_quietly(e),
            (Stage::Model, SetupEvent::Answer(true)) => {
                self.stage = Stage::Config;
                quiet(SetupAction::Exists(self.config()))
            },
            (Stage::Model, _) => {
                self.stage = Stage::FetchModel;
                noted(
                    "voice",
                    "Téléchargement de la voix Piper (63 Mo)…".to_owned(),
                    SetupAction::Download { url: PIPER_URL.to_owned(), dest: self.model() },
                )
            },
            (Stage::FetchModel, SetupEvent::Done(None)) => {
                self.stage = Stage::Config;
                noted(
                    "voice",
                    "Voix téléchargée ✓".to_owned(),
                    SetupAction::Exists(self.config()),
                )
            },
            (Stage::Config, SetupEvent::Answer(true)) => self.finish(),
            (Stage::Config, _) => {
                self.stage = Stage::FetchConfig;
                quiet(
                    SetupAction::Download { url: cat2(PIPER_URL, ".json"), dest: self.config() },
                )
            },
            (Stage::FetchConfig, SetupEvent::Done(None)) => {
                let mut log: Vec<(String, String)> = Vec::new();
                log.push(("voice".to_owned(), "Voix téléchargée ✓".to_owned()));
                let end = self.finish();
                let ghost closing = log_view(end.log@);
                let mut rest = end.log;
                log.append(&mut rest);
                assert(log_view(log@) =~= note("voice"@, "Voix téléchargée ✓"@) + closing);
                SetupStep { log, action: end.action }
            },
            (_, SetupEvent::Done(Some(e))) => self.fail("voice", "Échec du téléchargement : ", e),
            _ => self.fail_quietly(String::new()),
        }
    }
}

/// What a setup does on these events, one after the other.
pub open spec fn setup_actions(s: SetupView, events: Seq<SetupEvent>) -> Seq<SetupActionView>
    decreases events.len(),
{
    if events.len() == 0 || !awaits(s.stage, events[0]) {
        Seq::empty()
    } else {
        let next = s.step(events[0]);
        seq![next.action] + setup_actions(next.setup, events.skip(1))
    }
}

/// Whether an action makes, installs, upgrades or fetches anything.
pub open spec fn makes_anew(action: SetupActionView) -> bool {
    action is Download || action is Run
}

/// Whether a setup is not in the middle of making something that was missing.
pub open spec fn only_looking(stage: Stage) -> bool {
    !(stage is CreateVenv || stage is Upgrade)
}

/// A setup makes only what is missing: where the answer to every question is that the
/// piece is there, nothing is made, installed, upgraded or fetched.
pub proof fn law_setup_makes_only_what_is_missing(s: SetupView, events: Seq<SetupEvent>, i: int)
    requires
        only_looking(s.stage),
        forall|j: int|
            0 <= j < events.len() ==> #[trigger] events[j] != SetupEvent::Answer(false),
        0 <= i < setup_actions(s, events).len(),
    ensures
        !makes_anew(setup_actions(s, events)[i]),
    decreases events.len(),
{
    assert(events[0] != SetupEvent::Answer(false));
    if i > 0 {
        let rest = events.skip(1);
        assert forall|j: int| 0 <= j < rest.len() implies #[trigger] rest[j]
            != SetupEvent::Answer(false) by {
            assert(rest[j] == events[j + 1]);
        }
        law_setup_makes_only_what_is_missing(s.step(events[0]).setup, rest, i - 1);
    }
}

/// A setup can be run again: where an interpreter is found and everything is in
/// place, it looks at each piece and finishes.
pub proof fn law_a_second_setup_only_looks(s: SetupView, python: String)
    requires
        s.stage is Python,
    ensures
        setup_actions(
            s,
            seq![
                SetupEvent::Python(Some(python)),
                SetupEvent::Done(None),
                SetupEvent::Answer(true),
                SetupEvent::Answer(true),
                SetupEvent::Done(None),
                SetupEvent::Answer(true),
                SetupEvent::Answer(true),
            ],
        ) == seq![
            SetupActionView::MakeDir(s.vox()),
            SetupActionView::IsExecutable(s.venv_python()),
            SetupActionView::HasModules { python: s.venv_python(), modules: module_names() },
            SetupActionView::MakeDir(s.voices()),
            SetupActionView::Exists(s.model()),
            SetupActionView::Exists(s.config()),
            SetupActionView::Finish,
        ],
{
    let e0 = seq![
        SetupEvent::Python(Some(python)),
        SetupEvent::Done(None),
        SetupEvent::Answer(true),
        SetupEvent::Answer(true),
        SetupEvent::Done(None),
        SetupEvent::Answer(true),
        SetupEvent::Answer(true),
    ];
    let s1 = s.step(e0[0]).setup;
    let s2 = s1.step(e0[1]).setup;
    let s3 = s2.step(e0[2]).setup;
    let s4 = s3.step(e0[3]).setup;
    let s5 = s4.step(e0[4]).setup;
    let s6 = s5.step(e0[5]).setup;
    let s7 = s6.step(e0[6]).setup;
    assert(e0.skip(1).skip(1) =~= e0.skip(2));
    assert(e0.skip(2).skip(1) =~= e0.skip(3));
    assert(e0.skip(3).skip(1) =~= e0.skip(4));
    assert(e0.skip(4).skip(1) =~= e0.skip(5));
    assert(e0.skip(5).skip(1) =~= e0.skip(6));
    assert(e0.skip(6).skip(1) =~= e0.skip(7));
    assert(setup_actions(s7, e0.skip(7)) =~= Seq::empty());
    assert(setup_actions(s6, e0.skip(6)) =~= seq![SetupActionView::Finish]);
    assert(setup_actions(s5, e0.skip(5)).len() == 2);
    assert(setup_actions(s4, e0.skip(4)).len() == 3);
    assert(setup_actions(s3, e0.skip(3)).len() == 4);
    assert(setup_actions(s2, e0.skip(2)).len() == 5);
    assert(setup_actions(s1, e0.skip(1)).len() == 6);
}

/// Whatever fails ends the setup with its reason.
pub proof fn law_setup_stops_at_a_failure(s: SetupView, e: String)
    requires
        awaits(s.stage, SetupEvent::Done(Some(e))),
    ensures
        s.step(SetupEvent::Done(Some(e))).action == SetupActionView::Fail(e@),
        s.step(SetupEvent::Done(Some(e))).setup.stage is Over,
{
}

/// How many steps a stage is at most away from the end.
pub open spec fn steps_left(stage: Stage) -> nat {
    match stage {
        Stage::Python => 12,
        Stage::Dir => 11,
        Stage::Venv => 10,
        Stage::Modules => 9,
        Stage::CreateVenv => 8,
        Stage::Upgrade => 7,
        Stage::Install => 6,
        Stage::Voices => 5,
        Stage::Model => 4,
        Stage::FetchModel => 3,
        Stage::Config => 2,
        Stage::FetchConfig => 1,
        Stage::Over => 0,
    }
}

/// Every step brings the setup closer to its end.
pub proof fn law_setup_ends(s: SetupView, event: SetupEvent)
    requires
        awaits(s.stage, event),
    ensures
        steps_left(s.step(event).setup.stage) < steps_left(s.stage),
        s.step(event).setup.stage is Over <==> (s.step(event).action is Finish || s.step(
            event,
        ).action is Fail),
{
}

// ── More laws ────────────────────────────────────────────────────────────────

/// An interpreter is recent enough exactly from version 3.11 on, by the two numbers that it
/// prints, whatever white space is around them.
pub proof fn law_recent_means_three_eleven(a: nat, b: nat, front: Seq<char>, back: Seq<char>)
    requires
        a <= u32::MAX,
        b <= u32::MAX,
        is_blank(front),
        is_blank(back),
    ensures
        is_recent(front + (decimal(a).push('.') + decimal(b)) + back) <==> a > 3 || (a == 3 && b
            >= 11),
{
    law_decimal_reads_back(a);
    law_decimal_reads_back(b);
    let x = decimal(a);
    let y = decimal(b);
    let s = x.push('.') + y;
    assert(is_digit(x[0]));
    assert(s[0] == x[0]);
    assert(is_digit(y[y.len() - 1]));
    assert(s.last() == y.last());
    law_trimming_takes_padding_away(front, s, back);
    let parts = seq![x, y];
    assert forall|k: int, i: int| 0 <= k < parts.len() && 0 <= i < parts[k].len() implies
        !Class::Only('.').holds(#[trigger] parts[k][i]) by {
        if k == 0 {
            assert(is_digit(x[i]));
        } else {
            assert(is_digit(y[i]));
        }
    }
    law_split_undoes_join(parts, '.', Class::Only('.'));
    reveal_with_fuel(joined, 3);
    assert(parts.drop_last() =~= seq![x]);
    assert(joined(parts, seq!['.']) =~= s);
}

/// The interpreter that is picked is the first that fits, however many do not before it.
pub proof fn law_the_first_fit_is_picked(found: Seq<Interpreter>, k: int)
    ensures
        0 <= k < found.len() && found[k].fits() && (forall|j: int|
            0 <= j < k ==> !(#[trigger] found[j]).fits()) ==> first_fit(found) == Some(
            found[k].path@,
        ),
        first_fit(found) is None <==> forall|j: int|
            0 <= j < found.len() ==> !(#[trigger] found[j]).fits(),
    decreases found.len(),
{
    if found.len() > 0 {
        let rest = found.skip(1);
        law_the_first_fit_is_picked(rest, k - 1);
        if 0 < k < found.len() {
            assert(rest[k - 1] == found[k]);
        }
        if forall|j: int| 0 <= j < k ==> !(#[trigger] found[j]).fits() {
            assert forall|j: int| 0 <= j < k - 1 && j < rest.len() implies !(
            #[trigger] rest[j]).fits() by {
                assert(rest[j] == found[j + 1]);
            }
            if 0 < k < found.len() {
                assert(!found[0].fits());
            }
        }
        if forall|j: int| 0 <= j < found.len() ==> !(#[trigger] found[j]).fits() {
            assert(!found[0].fits());
            assert forall|j: int| 0 <= j < rest.len() implies !(#[trigger] rest[j]).fits() by {
                assert(rest[j] == found[j + 1]);
            }
        }
        if first_fit(found) is None {
            assert forall|j: int| 0 <= j < found.len() implies !(#[trigger] found[j]).fits() by {
                if j > 0 {
                    assert(rest[j - 1] == found[j]);
                }
            }
        }
    }
}

/// An interpreter that printed nothing does not fit, and one that did fits by its version.
pub proof fn law_an_interpreter_fits_by_its_version(i: Interpreter)
    ensures
        i.printed is None ==> !i.fits(),
        i.printed matches Some(v) ==> i.fits() == is_recent(v@),
{
}

/// Setup is needed exactly where the environment or one of its three modules is missing.
pub proof fn law_setup_is_needed_where_anything_is_missing(f: ProbeFacts)
    ensures
        needs_setup(f) <==> !f.has_venv || !f.whisper || !f.kokoro || !f.piper,
{
}

/// What is shown of a line is at most the first 200 characters of it, without carriage returns
/// and white space around it, and something is shown of every line that is not blank.
pub proof fn law_a_line_is_shown_where_it_is_not_blank(stripped: Seq<char>)
    ensures
        shown(stripped) is None <==> is_blank(replaced(stripped, Class::Only('\r'), ""@)),
        shown(stripped) matches Some(t) ==> 0 < t.len() <= 200 && begins(
            trimmed(replaced(stripped, Class::Only('\r'), ""@)),
            t,
        ),
{
    let t = trimmed(replaced(stripped, Class::Only('\r'), ""@));
    law_only_blank_texts_trim_to_nothing(replaced(stripped, Class::Only('\r'), ""@));
    assert(t.take(t.len() as int) =~= t);
}

/// Setup works in one place: the environment, its interpreter and the voices lie below `.vox`
/// in the home directory, and the voice is where the daemons look for it.
pub proof fn law_setup_works_below_the_home(s: SetupView)
    requires
        s.home.len() > 0,
        s.home.last() != '/',
    ensures
        s.vox() == s.home + "/.vox"@,
        s.venv() == s.home + "/.vox/venv"@,
        s.venv_python() == s.home + "/.vox/venv/bin/python"@,
        s.voices() == s.home + "/.vox/voices"@,
        s.model() == s.home + "/.vox/voices/fr_FR-siwis-medium.onnx"@,
        s.config() == s.home + "/.vox/voices/fr_FR-siwis-medium.onnx.json"@,
        voice_path(s.home) == s.model(),
{
    reveal_strlit(".vox");
    reveal_strlit("/.vox");
    reveal_strlit("venv");
    reveal_strlit("/.vox/venv");
    reveal_strlit("bin/python");
    reveal_strlit("/.vox/venv/bin/python");
    reveal_strlit("voices");
    reveal_strlit(".vox/voices");
    reveal_strlit("/.vox/voices");
    reveal_strlit("fr_FR-siwis-medium");
    reveal_strlit(".onnx");
    reveal_strlit(".onnx.json");
    reveal_strlit("/.vox/voices/fr_FR-siwis-medium.onnx");
    reveal_strlit("/.vox/voices/fr_FR-siwis-medium.onnx.json");
    let model = PIPER_BASE@ + ".onnx"@;
    let config = PIPER_BASE@ + ".onnx.json"@;
    law_a_joined_path_lies_below_its_base(s.home, ".vox"@);
    assert(s.vox() =~= s.home + "/.vox"@);
    law_a_joined_path_lies_below_its_base(s.vox(), "venv"@);
    assert(s.venv() =~= s.home + "/.vox/venv"@);
    law_a_joined_path_lies_below_its_base(s.venv(), "bin/python"@);
    assert(s.venv_python() =~= s.home + "/.vox/venv/bin/python"@);
    law_a_joined_path_lies_below_its_base(s.vox(), "voices"@);
    assert(s.voices() =~= s.home + "/.vox/voices"@);
    law_a_joined_path_lies_below_its_base(s.home, ".vox/voices"@);
    assert(under(s.home, ".vox/voices"@) =~= s.voices());
    law_a_joined_path_lies_below_its_base(s.voices(), model);
    assert(s.model() =~= s.home + "/.vox/voices/fr_FR-siwis-medium.onnx"@);
    law_a_joined_path_lies_below_its_base(s.voices(), config);
    assert(s.config() =~= s.home + "/.vox/voices/fr_FR-siwis-medium.onnx.json"@);
}

/// What is installed: all three parts of the speech stack, into the own environment.
pub proof fn law_the_speech_stack_is_installed()
    ensures
        install_args().contains("install"@),
        install_args().contains("openai-whisper"@),
        install_args().contains("kokoro"@),
        install_args().contains("piper-tts"@),
        module_names().contains("whisper"@),
        module_names().contains("kokoro"@),
        module_names().contains("piper"@),
        upgrade_args().contains("--upgrade"@),
{
    assert(install_args()[2] == "install"@);
    assert(install_args()[7] == "openai-whisper"@);
    assert(install_args()[10] == "kokoro"@);
    assert(install_args()[11] == "piper-tts"@);
    assert(module_names()[0] == "whisper"@);
    assert(module_names()[3] == "kokoro"@);
    assert(module_names()[4] == "piper"@);
    assert(upgrade_args()[3] == "--upgrade"@);
}

/// A first setup makes everything, in this order: the environment with the interpreter that
/// was found, the installer and the modules with that of the environment, and the voice with
/// its configuration.
pub proof fn law_a_first_setup_makes_everything(s: SetupView, python: String)
    requires
        s.stage is Python,
    ensures
        ({
            let s1 = s.step(SetupEvent::Python(Some(python)));
            let s2 = s1.setup.step(SetupEvent::Done(None));
            let s3 = s2.setup.step(SetupEvent::Answer(false));
            let s4 = s3.setup.step(SetupEvent::Done(None));
            let s5 = s4.setup.step(SetupEvent::Done(None));
            let s6 = s5.setup.step(SetupEvent::Done(None));
            let s7 = s6.setup.step(SetupEvent::Done(None));
            let s8 = s7.setup.step(SetupEvent::Answer(false));
            let s9 = s8.setup.step(SetupEvent::Done(None));
            let s10 = s9.setup.step(SetupEvent::Answer(false));
            let s11 = s10.setup.step(SetupEvent::Done(None));
            &&& s1.action == SetupActionView::MakeDir(s.vox())
            &&& s2.action == SetupActionView::IsExecutable(s.venv_python())
            &&& s3.action matches SetupActionView::Run { program, args, tag } && program == python@
                && args.last() == s.venv()
            &&& s4.action matches SetupActionView::Run { program, args, tag } && program
                == s.venv_python() && args == upgrade_args()
            &&& s5.action matches SetupActionView::Run { program, args, tag } && program
                == s.venv_python() && args == install_args()
            &&& s6.action == SetupActionView::MakeDir(s.voices())
            &&& s7.action == SetupActionView::Exists(s.model())
            &&& s8.action == (SetupActionView::Download { url: PIPER_URL@, dest: s.model() })
            &&& s9.action == SetupActionView::Exists(s.config())
            &&& s10.action == (SetupActionView::Download {
                url: PIPER_URL@ + ".json"@,
                dest: s.config(),
            })
            &&& s11.action is Finish
        }),
{
}

/// Modules that are missing in an environment that is there are installed into it.
pub proof fn law_missing_modules_are_installed(s: SetupView)
    requires
        s.stage is Modules,
    ensures
        s.step(SetupEvent::Answer(false)).action matches SetupActionView::Run { program, args, tag }
            && program == s.venv_python(),
        s.step(SetupEvent::Answer(false)).setup.step(SetupEvent::Done(None)).action matches
            SetupActionView::Run { program, args, tag } && program == s.venv_python() && args
            == install_args(),
{
}

/// The report on a component says whether it is there and its detail.
pub proof fn law_a_report_says_whether_it_is_there(ok: bool, detail: Seq<char>, hint: Seq<char>)
    ensures
        member(component(ok, detail), "ok"@) == Some(JsonTree::Bool(ok)),
        member(component(ok, detail), "detail"@) == Some(JsonTree::Text(detail)),
        tool_detail(true, hint) == "ok"@,
        tool_detail(false, hint) == hint,
{
    reveal_strlit("ok");
    reveal_strlit("detail");
    assert("ok"@.len() == 2 && "detail"@.len() == 6);
    let n = no_members();
    let a = with_member(n, "ok"@, JsonTree::Bool(ok));
    law_an_added_member_is_found(n, "ok"@, JsonTree::Bool(ok), "detail"@);
    law_an_added_member_is_found(a, "detail"@, JsonTree::Text(detail), "ok"@);
}

/// The report has every component under its own name: whether it was found, and where it is or
/// how to get it. A module counts as there only where the environment is.
pub proof fn law_every_component_is_reported(f: ProbeFacts, home: Seq<char>)
    ensures
        member(components(f, home), "ffmpeg"@) == Some(
            component(f.ffmpeg, tool_detail(f.ffmpeg, "brew install ffmpeg"@)),
        ),
        member(components(f, home), "espeakNg"@) == Some(
            component(f.espeak, tool_detail(f.espeak, "brew install espeak-ng"@)),
        ),
        member(components(f, home), "ollama"@) == Some(
            component(f.ollama, tool_detail(f.ollama, "brew install ollama"@)),
        ),
        member(components(f, home), "venv"@) == Some(
            component(f.has_venv, under(home, ".vox/venv/bin/python"@)),
        ),
        member(components(f, home), "whisper"@) == Some(
            component(f.has_venv && f.whisper, "openai-whisper"@),
        ),
        member(components(f, home), "kokoro"@) == Some(
            component(f.has_venv && f.kokoro, "kokoro"@),
        ),
        member(components(f, home), "piper"@) == Some(
            component(f.has_venv && f.piper, "piper-tts"@),
        ),
        member(components(f, home), "piperVoice"@) == Some(component(f.voice, voice_path(home))),
        f.python matches Some(p) ==> member(components(f, home), "python"@) == Some(
            component(true, p@),
        ),
        f.python is None ==> member(components(f, home), "python"@) == Some(
            component(false, "brew install python@3.11"@),
        ),
{
    reveal_strlit("python");
    reveal_strlit("ffmpeg");
    reveal_strlit("espeakNg");
    reveal_strlit("ollama");
    reveal_strlit("venv");
    reveal_strlit("whisper");
    reveal_strlit("kokoro");
    reveal_strlit("piper");
    reveal_strlit("piperVoice");
    assert("python"@.len() == 6 && "ffmpeg"@.len() == 6 && "espeakNg"@.len() == 8
        && "ollama"@.len() == 6 && "venv"@.len() == 4 && "whisper"@.len() == 7 && "kokoro"@.len()
        == 6 && "piper"@.len() == 5 && "piperVoice"@.len() == 10);
    assert("python"@[0] != "ffmpeg"@[0] && "python"@[0] != "ollama"@[0] && "python"@[0]
        != "kokoro"@[0] && "ffmpeg"@[0] != "ollama"@[0] && "ffmpeg"@[0] != "kokoro"@[0]
        && "ollama"@[0] != "kokoro"@[0]);
    let v0 = component(
        f.python is Some,
        match f.python {
            Some(p) => p@,
            None => "brew install python@3.11"@,
        },
    );
    let v1 = component(f.ffmpeg, tool_detail(f.ffmpeg, "brew install ffmpeg"@));
    let v2 = component(f.espeak, tool_detail(f.espeak, "brew install espeak-ng"@));
    let v3 = component(f.ollama, tool_detail(f.ollama, "brew install ollama"@));
    let v4 = component(f.has_venv, under(home, ".vox/venv/bin/python"@));
    let v5 = component(f.has_venv && f.whisper, "openai-whisper"@);
    let v6 = component(f.has_venv && f.kokoro, "kokoro"@);
    let v7 = component(f.has_venv && f.piper, "piper-tts"@);
    let v8 = component(f.voice, voice_path(home));
    let t0 = with_member(no_members(), "python"@, v0);
    let t1 = with_member(t0, "ffmpeg"@, v1);
    let t2 = with_member(t1, "espeakNg"@, v2);
    let t3 = with_member(t2, "ollama"@, v3);
    let t4 = with_member(t3, "venv"@, v4);
    let t5 = with_member(t4, "whisper"@, v5);
    let t6 = with_member(t5, "kokoro"@, v6);
    let t7 = with_member(t6, "piper"@, v7);
    lemma_keys_stay(no_members(), "python"@, v0);
    lemma_keys_stay(t0, "ffmpeg"@, v1);
    lemma_keys_stay(t1, "espeakNg"@, v2);
    lemma_keys_stay(t2, "ollama"@, v3);
    lemma_keys_stay(t3, "venv"@, v4);
    lemma_keys_stay(t4, "whisper"@, v5);
    lemma_keys_stay(t5, "kokoro"@, v6);
    lemma_keys_stay(t6, "piper"@, v7);
    lemma_keys_stay(t7, "piperVoice"@, v8);
}

/// The report that is handed out holds the components and whether setup is needed.
pub proof fn law_the_report_is_complete(f: &ProbeFacts, home: &str, r: Json)
    requires
        call_ensures(probe, (f, home), r),
    ensures
        member(r@, "components"@) == Some(components(*f, home@)),
        member(r@, "needsSetup"@) == Some(
            JsonTree::Bool(!f.has_venv || !f.whisper || !f.kokoro || !f.piper),
        ),
{
    reveal_strlit("components");
    reveal_strlit("needsSetup");
    assert("components"@[0] != "needsSetup"@[0]);
    lemma_keys_stay(no_members(), "components"@, components(*f, home@));
    lemma_keys_stay(
        with_member(no_members(), "components"@, components(*f, home@)),
        "needsSetup"@,
        JsonTree::Bool(needs_setup(*f)),
    );
}

/// Progress is told in steps of five percent or more, each with its number.
pub proof fn law_progress_is_told_in_steps(last: u32, pct: u32, r: Option<String>)
    requires
        last <= pct,
        call_ensures(progress_line, (last, pct), r),
    ensures
        r is Some <==> pct >= last + 5,
        r matches Some(line) ==> in_turn(line@, seq![decimal(pct as nat)]),
{
    let none = Seq::<Seq<char>>::empty();
    let n = decimal(pct as nat);
    lemma_in_turn_next("… "@, none, Seq::empty(), n);
    assert(none.push(n) =~= seq![n]);
    assert("… "@ + Seq::<char>::empty() =~= "… "@);
    lemma_in_turn_more("… "@ + n, "%"@, seq![n]);
}

/// Each stage waits for the outcome of what it asked for: which interpreter there is, whether a
/// piece is there, or whether something could be made; and a setup that is over waits for
/// nothing.
pub proof fn law_each_stage_waits_for_its_outcome(event: SetupEvent, python: Option<String>, ok: bool, e: Option<String>)
    ensures
        awaits(Stage::Python, SetupEvent::Python(python)),
        awaits(Stage::Venv, SetupEvent::Answer(ok)),
        awaits(Stage::Modules, SetupEvent::Answer(ok)),
        awaits(Stage::Model, SetupEvent::Answer(ok)),
        awaits(Stage::Config, SetupEvent::Answer(ok)),
        awaits(Stage::Dir, SetupEvent::Done(e)),
        awaits(Stage::CreateVenv, SetupEvent::Done(e)),
        awaits(Stage::Upgrade, SetupEvent::Done(e)),
        awaits(Stage::Install, SetupEvent::Done(e)),
        awaits(Stage::Voices, SetupEvent::Done(e)),
        awaits(Stage::FetchModel, SetupEvent::Done(e)),
        awaits(Stage::FetchConfig, SetupEvent::Done(e)),
        !awaits(Stage::Over, event),
{
}

/// A setup that runs does what its steps call for: it begins with the search for an
/// interpreter, takes what it waits for, and hands the next action out.
pub proof fn law_a_setup_does_what_its_steps_call_for(
    home: &str,
    start: (Setup, SetupStep),
    setup: &mut Setup,
    event: SetupEvent,
    r: SetupStep,
    asked: &Setup,
    takes: bool,
    found: &Vec<Interpreter>,
    picked: Option<String>,
)
    requires
        call_ensures(run_setup, (home,), start),
        call_ensures(Setup::step, (setup, event), r),
        call_ensures(Setup::takes, (asked, &event), takes),
        call_ensures(find_python, (found,), picked),
    ensures
        start.0@.home == home@,
        start.0@.stage is Python,
        start.1.action is FindPython,
        r.action@ == old(setup)@.step(event).action,
        final(setup)@ == old(setup)@.step(event).setup,
        takes == awaits(asked@.stage, event),
        picked.deep_view() == first_fit(found@),
{
}

} // verus!
