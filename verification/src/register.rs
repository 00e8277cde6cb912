//! Registering the driver DLL's COM classes: which DLL to register, and how the checks
//! after registering are judged.  The caller performs each step and reports its outcome.
use vstd::prelude::*;
use crate::i18n::Lang;
use crate::text::{chars_of, push_str, string_of};

verus! {

/// Where the registration flow stands.
#[derive(Clone, Copy, PartialEq, Eq, Structural, Debug)]
pub enum RegisterStage {
    /// Waiting for which candidate DLL files exist.
    Locating,
    /// No candidate exists: waiting for the DLL path of an existing binding.
    AwaitingBinding,
    /// Waiting for the result of registering the DLL.
    Registering,
    /// Waiting for the CLSID binding to be read back.
    ReadingBack,
    /// Waiting for the check of the audio engine's APO registration key.
    CheckingEngine,
    /// Finished.
    Done,
}

/// The next thing to do.
pub enum RegisterStep {
    /// Report which of the candidate DLL files exist.
    CheckCandidates,
    /// Report the DLL path of the existing CLSID binding, if there is one.
    ReadBinding,
    /// Register the DLL at this path and report the result.
    Register { dll: String },
    /// Read back the CLSID binding.
    ReadBackBinding,
    /// Check that this key of the audio engine's APO registrations exists.
    CheckEngine { key: String },
    /// Stop with this result.
    Finish { result: Result<(), String> },
}

/// Lines to print, then the step to perform.
pub struct RegisterAction {
    pub print: Vec<String>,
    pub step: RegisterStep,
}

/// How reading back the CLSID binding went.
pub enum ReadBack {
    /// The binding's DLL path.
    Read(String),
    /// The key opened but its value could not be read.
    ReadFailed(String),
    /// The key did not open.
    OpenFailed(String),
}

/// The outcome of the step last asked for.
pub enum RegisterEvent {
    /// For each candidate DLL path, in order, whether the file exists.
    Candidates { paths: Vec<String>, exists: Vec<bool> },
    /// The DLL path of the existing binding (`None` when there is no binding or it could
    /// not be read).
    Binding(Option<String>),
    /// The registration's result code and its printed form.
    Registered { hr: i32, hr_text: String },
    BindingReadBack(ReadBack),
    /// Whether the audio engine key exists (else the error text).
    EngineKey(Result<(), String>),
}

/// The registration flow: the stage, the DLL chosen, the first candidate (named in the
/// warning when there is no DLL), the CLSID and the language of messages.
pub struct RegisterFlow {
    stage: RegisterStage,
    dll: String,
    first_candidate: String,
    clsid: String,
    lang: Lang,
}

pub struct RegisterFlowView {
    pub stage: RegisterStage,
    pub dll: Seq<char>,
    pub first_candidate: Seq<char>,
    pub clsid: Seq<char>,
    pub lang: Lang,
}

impl View for RegisterFlow {
    type V = RegisterFlowView;

    closed spec fn view(&self) -> RegisterFlowView {
        RegisterFlowView {
            stage: self.stage,
            dll: self.dll@,
            first_candidate: self.first_candidate@,
            clsid: self.clsid@,
            lang: self.lang,
        }
    }
}

pub enum StepView {
    CheckCandidates,
    ReadBinding,
    Register { dll: Seq<char> },
    ReadBackBinding,
    CheckEngine { key: Seq<char> },
    Finish { result: Result<(), Seq<char>> },
}

pub enum EventView {
    Candidates { paths: Seq<Seq<char>>, exists: Seq<bool> },
    Binding(Option<Seq<char>>),
    Registered { hr: i32, hr_text: Seq<char> },
    Read(Seq<char>),
    ReadFailed(Seq<char>),
    OpenFailed(Seq<char>),
    EngineKey(Result<(), Seq<char>>),
}

pub open spec fn string_views(v: Seq<String>) -> Seq<Seq<char>> {
    v.map_values(|s: String| s@)
}

impl RegisterStep {
    pub open spec fn view(&self) -> StepView {
        match self {
            RegisterStep::CheckCandidates => StepView::CheckCandidates,
            RegisterStep::ReadBinding => StepView::ReadBinding,
            RegisterStep::Register { dll } => StepView::Register { dll: dll@ },
            RegisterStep::ReadBackBinding => StepView::ReadBackBinding,
            RegisterStep::CheckEngine { key } => StepView::CheckEngine { key: key@ },
            RegisterStep::Finish { result } => StepView::Finish {
                result: match result {
                    Ok(()) => Ok(()),
                    Err(e) => Err(e@),
                },
            },
        }
    }
}

impl RegisterEvent {
    pub open spec fn view(&self) -> EventView {
        match self {
            RegisterEvent::Candidates { paths, exists } => EventView::Candidates {
                paths: string_views(paths@),
                exists: exists@,
            },
            RegisterEvent::Binding(b) => EventView::Binding(
                match b {
                    Some(p) => Some(p@),
                    None => None,
                },
            ),
            RegisterEvent::Registered { hr, hr_text } => EventView::Registered {
                hr: *hr,
                hr_text: hr_text@,
            },
            RegisterEvent::BindingReadBack(ReadBack::Read(p)) => EventView::Read(p@),
            RegisterEvent::BindingReadBack(ReadBack::ReadFailed(e)) => EventView::ReadFailed(e@),
            RegisterEvent::BindingReadBack(ReadBack::OpenFailed(e)) => EventView::OpenFailed(e@),
            RegisterEvent::EngineKey(r) => EventView::EngineKey(
                match r {
                    Ok(()) => Ok(()),
                    Err(e) => Err(e@),
                },
            ),
        }
    }
}

pub open spec fn tr(lang: Lang, zh: Seq<char>, en: Seq<char>) -> Seq<char> {
    if lang == Lang::En {
        en
    } else {
        zh
    }
}

/// The audio engine's registration key of the CLSID.
pub open spec fn engine_key(clsid: Seq<char>) -> Seq<char> {
    "AudioEngine\\AudioProcessingObjects\\"@ + clsid
}

/// The first existing candidate path.
pub open spec fn first_existing(paths: Seq<Seq<char>>, exists: Seq<bool>) -> Option<Seq<char>>
    decreases paths.len(),
{
    if paths.len() == 0 || exists.len() == 0 {
        None
    } else if exists[0] {
        Some(paths[0])
    } else {
        first_existing(paths.drop_first(), exists.drop_first())
    }
}

pub open spec fn not_found_line(first: Seq<char>, lang: Lang) -> Seq<char> {
    tr(
        lang,
        "  ⚠ 未找到 "@ + first + "（跳过自动注册——已由安装器/regsvr32 注册则无碍）"@,
        "  ⚠ "@ + first
            + " not found (skipping auto-register - no problem if already registered by installer/regsvr32)"@,
    )
}

/// What the flow does on an event: the next stage, DLL and first candidate, the lines to
/// print and the step.  An event that does not fit the stage finishes the flow with no
/// result change (`Ok`), and nothing happens once it is done.
pub open spec fn transition(s: RegisterFlowView, e: EventView) -> (
    RegisterFlowView,
    Seq<Seq<char>>,
    StepView,
) {
    let lang = s.lang;
    let done = RegisterFlowView { stage: RegisterStage::Done, ..s };
    match (s.stage, e) {
        (RegisterStage::Locating, EventView::Candidates { paths, exists }) => {
            let first = if paths.len() > 0 {
                paths[0]
            } else {
                seq![]
            };
            match first_existing(paths, exists) {
                Some(dll) => (
                    RegisterFlowView { stage: RegisterStage::Registering, dll, first_candidate: first, ..s },
                    seq![],
                    StepView::Register { dll },
                ),
                None => (
                    RegisterFlowView { stage: RegisterStage::AwaitingBinding, first_candidate: first, ..s },
                    seq![],
                    StepView::ReadBinding,
                ),
            }
        },
        (RegisterStage::AwaitingBinding, EventView::Binding(b)) => match b {
            Some(p) => if p.len() > 0 {
                (
                    RegisterFlowView { stage: RegisterStage::Registering, dll: p, ..s },
                    seq![],
                    StepView::Register { dll: p },
                )
            } else {
                (done, seq![not_found_line(s.first_candidate, lang)], StepView::Finish { result: Ok(()) })
            },
            None => (done, seq![not_found_line(s.first_candidate, lang)], StepView::Finish { result: Ok(()) }),
        },
        (RegisterStage::Registering, EventView::Registered { hr, hr_text }) => if hr == 0 {
            (
                RegisterFlowView { stage: RegisterStage::ReadingBack, ..s },
                seq![tr(lang, "  ✓ 已刷新全局 APO 注册："@ + s.dll, "  ✓ Global APO registration refreshed: "@ + s.dll)],
                StepView::ReadBackBinding,
            )
        } else {
            (
                done,
                seq![],
                StepView::Finish {
                    result: Err(tr(lang, "driver 自动注册失败："@ + hr_text, "Driver auto-registration failed: "@ + hr_text)),
                },
            )
        },
        (RegisterStage::ReadingBack, EventView::Read(p)) => (
            RegisterFlowView { stage: RegisterStage::CheckingEngine, ..s },
            seq![tr(lang, "  ✓ CLSID→DLL 绑定确认："@ + p, "  ✓ CLSID->DLL binding confirmed: "@ + p)],
            StepView::CheckEngine { key: engine_key(s.clsid) },
        ),
        (RegisterStage::ReadingBack, EventView::ReadFailed(err)) => (
            done,
            seq![],
            StepView::Finish {
                result: Err(tr(lang, "CLSID 绑定回读失败："@ + err, "CLSID binding read-back failed: "@ + err)),
            },
        ),
        (RegisterStage::ReadingBack, EventView::OpenFailed(err)) => (
            done,
            seq![],
            StepView::Finish {
                result: Err(tr(lang, "CLSID 绑定验证失败："@ + err, "CLSID binding verification failed: "@ + err)),
            },
        ),
        (RegisterStage::CheckingEngine, EventView::EngineKey(r)) => match r {
            Ok(()) => (
                done,
                seq![
                    tr(
                        lang,
                        "  ✓ AudioEngine APO 注册键确认："@ + engine_key(s.clsid),
                        "  ✓ AudioEngine APO registration confirmed: "@ + engine_key(s.clsid),
                    ),
                ],
                StepView::Finish { result: Ok(()) },
            ),
            Err(err) => (
                done,
                seq![],
                StepView::Finish {
                    result: Err(
                        tr(
                            lang,
                            "AudioEngine APO 注册键缺失："@ + engine_key(s.clsid) + "（"@ + err + "）"@,
                            "AudioEngine APO registration missing: "@ + engine_key(s.clsid) + " ("@ + err
                                + ")"@,
                        ),
                    ),
                },
            ),
        },
        _ => (done, seq![], StepView::Finish { result: Ok(()) }),
    }
}

fn lines_of(v: Vec<char>) -> (r: Vec<String>)
    ensures
        string_views(r@) == seq![v@],
{
    let mut out: Vec<String> = Vec::new();
    out.push(string_of(&v));
    assert(string_views(out@) =~= seq![v@]);
    out
}

fn cat(a: &str, b: &str) -> (r: Vec<char>)
    ensures
        r@ == a@ + b@,
{
    let mut out = chars_of(a);
    push_str(&mut out, b);
    out
}

impl RegisterFlow {
    /// A flow for the CLSID (as its registry key names it), printing in `lang`.
    pub fn new(clsid: &str, lang: Lang) -> (r: Self)
        ensures
            r@.stage == RegisterStage::Locating,
            r@.clsid == clsid@,
            r@.lang == lang,
            r@.dll == Seq::<char>::empty(),
            r@.first_candidate == Seq::<char>::empty(),
    {
        RegisterFlow {
            stage: RegisterStage::Locating,
            dll: String::new(),
            first_candidate: String::new(),
            clsid: clsid.to_owned(),
            lang,
        }
    }

    /// The first step: look for the candidate DLL files.
    pub fn start(&self) -> (r: RegisterAction)
        ensures
            string_views(r.print@) == Seq::<Seq<char>>::empty(),
            r.step.view() == StepView::CheckCandidates,
    {
        let print: Vec<String> = Vec::new();
        assert(string_views(print@) =~= Seq::<Seq<char>>::empty());
        RegisterAction { print, step: RegisterStep::CheckCandidates }
    }

    /// Takes the outcome of the last step and says what to do next.
    pub fn step(&mut self, event: RegisterEvent) -> (r: RegisterAction)
        ensures
            (final(self)@, string_views(r.print@), r.step.view()) == transition(old(self)@, event.view()),
    {
        let lang = self.lang;
        let ghost s = self@;
        let ghost ev = event.view();
        let empty: Vec<String> = Vec::new();
        assert(string_views(empty@) =~= Seq::<Seq<char>>::empty());
        match (self.stage, event) {
            (RegisterStage::Locating, RegisterEvent::Candidates { paths, exists }) => {
                let ghost pv = string_views(paths@);
                let first = if paths.len() > 0 {
                    paths[0].clone()
                } else {
                    String::new()
                };
                let mut i: usize = 0;
                let mut found: Option<usize> = None;
                assert(pv.skip(0) =~= pv);
                assert(exists@.skip(0) =~= exists@);
                while i < paths.len() && i < exists.len()
                    invariant_except_break
                        found is None,
                    invariant
                        i <= paths.len(),
                        i <= exists.len(),
                        pv == string_views(paths@),
                        first_existing(pv, exists@) == first_existing(pv.skip(i as int), exists@.skip(i as int)),
                    ensures
                        match found {
                            Some(k) => k < paths.len() && k < exists.len() && first_existing(pv, exists@) == Some(pv[k as int]),
                            None => first_existing(pv, exists@) is None,
                        },
                    decreases paths.len() - i,
                {
                    assert(pv.skip(i as int).drop_first() =~= pv.skip(i + 1));
                    assert(exists@.skip(i as int).drop_first() =~= exists@.skip(i + 1));
                    if exists[i] {
                        assert(pv.skip(i as int)[0] == pv[i as int]);
                        assert(exists@.skip(i as int)[0] == exists@[i as int]);
                        found = Some(i);
                        break;
                    }
                    i += 1;
                }
                self.first_candidate = first;
                match found {
                    Some(k) => {
                        let dll = paths[k].clone();
                        self.dll = paths[k].clone();
                        self.stage = RegisterStage::Registering;
                        RegisterAction { print: empty, step: RegisterStep::Register { dll } }
                    },
                    None => {
                        self.stage = RegisterStage::AwaitingBinding;
                        RegisterAction { print: empty, step: RegisterStep::ReadBinding }
                    },
                }
            },
            (RegisterStage::AwaitingBinding, RegisterEvent::Binding(b)) => {
                match b {
                    Some(p) => {
                        if p.as_str().unicode_len() > 0 {
                            self.dll = p.clone();
                            self.stage = RegisterStage::Registering;
                            return RegisterAction { print: empty, step: RegisterStep::Register { dll: p } };
                        }
                    },
                    None => {},
                }
                self.stage = RegisterStage::Done;
                let line = if lang == Lang::En {
                    let mut l = cat("  ⚠ ", self.first_candidate.as_str());
                    push_str(
                        &mut l,
                        " not found (skipping auto-register - no problem if already registered by installer/regsvr32)",
                    );
                    l
                } else {
                    let mut l = cat("  ⚠ 未找到 ", self.first_candidate.as_str());
                    push_str(&mut l, "（跳过自动注册——已由安装器/regsvr32 注册则无碍）");
                    l
                };
                RegisterAction { print: lines_of(line), step: RegisterStep::Finish { result: Ok(()) } }
            },
            (RegisterStage::Registering, RegisterEvent::Registered { hr, hr_text }) => {
                if hr == 0 {
                    self.stage = RegisterStage::ReadingBack;
                    let line = if lang == Lang::En {
                        cat("  ✓ Global APO registration refreshed: ", self.dll.as_str())
                    } else {
                        cat("  ✓ 已刷新全局 APO 注册：", self.dll.as_str())
                    };
                    RegisterAction { print: lines_of(line), step: RegisterStep::ReadBackBinding }
                } else {
                    self.stage = RegisterStage::Done;
                    let m = if lang == Lang::En {
                        cat("Driver auto-registration failed: ", hr_text.as_str())
                    } else {
                        cat("driver 自动注册失败：", hr_text.as_str())
                    };
                    RegisterAction { print: empty, step: RegisterStep::Finish { result: Err(string_of(&m)) } }
                }
            },
            (RegisterStage::ReadingBack, RegisterEvent::BindingReadBack(rb)) => {
                match rb {
                    ReadBack::Read(p) => {
                        self.stage = RegisterStage::CheckingEngine;
                        let line = if lang == Lang::En {
                            cat("  ✓ CLSID->DLL binding confirmed: ", p.as_str())
                        } else {
                            cat("  ✓ CLSID→DLL 绑定确认：", p.as_str())
                        };
                        let key = cat("AudioEngine\\AudioProcessingObjects\\", self.clsid.as_str());
                        RegisterAction {
                            print: lines_of(line),
                            step: RegisterStep::CheckEngine { key: string_of(&key) },
                        }
                    },
                    ReadBack::ReadFailed(err) => {
                        self.stage = RegisterStage::Done;
                        let m = if lang == Lang::En {
                            cat("CLSID binding read-back failed: ", err.as_str())
                        } else {
                            cat("CLSID 绑定回读失败：", err.as_str())
                        };
                        RegisterAction { print: empty, step: RegisterStep::Finish { result: Err(string_of(&m)) } }
                    },
                    ReadBack::OpenFailed(err) => {
                        self.stage = RegisterStage::Done;
                        let m = if lang == Lang::En {
                            cat("CLSID binding verification failed: ", err.as_str())
                        } else {
                            cat("CLSID 绑定验证失败：", err.as_str())
                        };
                        RegisterAction { print: empty, step: RegisterStep::Finish { result: Err(string_of(&m)) } }
                    },
                }
            },
            (RegisterStage::CheckingEngine, RegisterEvent::EngineKey(r)) => {
                self.stage = RegisterStage::Done;
                let key = cat("AudioEngine\\AudioProcessingObjects\\", self.clsid.as_str());
                match r {
                    Ok(()) => {
                        let mut line = if lang == Lang::En {
                            chars_of("  ✓ AudioEngine APO registration confirmed: ")
                        } else {
                            chars_of("  ✓ AudioEngine APO 注册键确认：")
                        };
                        push_str(&mut line, string_of(&key).as_str());
                        RegisterAction { print: lines_of(line), step: RegisterStep::Finish { result: Ok(()) } }
                    },
                    Err(err) => {
                        let mut m = if lang == Lang::En {
                            chars_of("AudioEngine APO registration missing: ")
                        } else {
                            chars_of("AudioEngine APO 注册键缺失：")
                        };
                        push_str(&mut m, string_of(&key).as_str());
                        if lang == Lang::En {
                            push_str(&mut m, " (");
                            push_str(&mut m, err.as_str());
                            push_str(&mut m, ")");
                        } else {
                            push_str(&mut m, "（");
                            push_str(&mut m, err.as_str());
                            push_str(&mut m, "）");
                        }
                        RegisterAction { print: empty, step: RegisterStep::Finish { result: Err(string_of(&m)) } }
                    },
                }
            },
            _ => {
                self.stage = RegisterStage::Done;
                RegisterAction { print: empty, step: RegisterStep::Finish { result: Ok(()) } }
            },
        }
    }
}

pub open spec fn stage_rank(st: RegisterStage) -> int {
    match st {
        RegisterStage::Locating => 0,
        RegisterStage::AwaitingBinding => 1,
        RegisterStage::Registering => 2,
        RegisterStage::ReadingBack => 3,
        RegisterStage::CheckingEngine => 4,
        RegisterStage::Done => 5,
    }
}

/// The registration flow only moves forward: every event before the end takes it to a
/// later stage, so it ends after at most five events; it asks to finish exactly when it
/// reaches the end, and a failure is reported only from registering or from a check.
pub proof fn law_register_flow_moves_forward(s: RegisterFlowView, e: EventView)
    requires
        s.stage != RegisterStage::Done,
    ensures
        ({
            let (t, _, step) = transition(s, e);
            &&& stage_rank(t.stage) > stage_rank(s.stage)
            &&& (step is Finish <==> t.stage == RegisterStage::Done)
            &&& (step matches StepView::Finish { result: Err(_) } ==> (
                s.stage == RegisterStage::Registering || s.stage == RegisterStage::ReadingBack
                    || s.stage == RegisterStage::CheckingEngine))
        }),
{
}

} // verus!
