//! `install --verify`: the mode order, pipe reports, scoring, and the retry decisions.
//!
//! Writing the registry, restarting the audio service and running the test pipe are the
//! caller's work; this module decides which mode to try next and what to report.
use vstd::prelude::*;
use crate::json::{json_str_field, json_text_field};
use crate::protocol::InstallProgressEvent;
use crate::text::{chars_of, dec, push_dec, push_str, string_of};

verus! {

/// The three slot layouts an install can use.
#[derive(Clone, Copy, PartialEq, Eq, Structural, Debug)]
pub enum InstallMode {
    LfxGfx,
    SfxMfx,
    SfxEfx,
}

pub open spec fn mode_name(m: InstallMode) -> Seq<char> {
    match m {
        InstallMode::LfxGfx => "LFX_GFX"@,
        InstallMode::SfxMfx => "SFX_MFX"@,
        InstallMode::SfxEfx => "SFX_EFX"@,
    }
}

/// The mode name used in events.
pub fn mode_str(m: InstallMode) -> (r: &'static str)
    ensures
        r@ == mode_name(m),
{
    match m {
        InstallMode::LfxGfx => "LFX_GFX",
        InstallMode::SfxMfx => "SFX_MFX",
        InstallMode::SfxEfx => "SFX_EFX",
    }
}

/// The fallback order after the preferred mode.
pub open spec fn fallback_order() -> Seq<InstallMode> {
    seq![InstallMode::SfxEfx, InstallMode::SfxMfx, InstallMode::LfxGfx]
}

/// The preferred mode first, then the others in fallback order.
pub open spec fn mode_order_spec(preferred: InstallMode) -> Seq<InstallMode> {
    seq![preferred] + fallback_order().filter(|m: InstallMode| m != preferred)
}

/// `mode_order_spec` written out for each preferred mode.
proof fn lemma_mode_order_cases(preferred: InstallMode)
    ensures
        mode_order_spec(preferred) == (match preferred {
            InstallMode::LfxGfx => seq![InstallMode::LfxGfx, InstallMode::SfxEfx, InstallMode::SfxMfx],
            InstallMode::SfxMfx => seq![InstallMode::SfxMfx, InstallMode::SfxEfx, InstallMode::LfxGfx],
            InstallMode::SfxEfx => seq![InstallMode::SfxEfx, InstallMode::SfxMfx, InstallMode::LfxGfx],
        }),
{
    reveal_with_fuel(Seq::<_>::filter, 4);
    let fo = fallback_order();
    assert(fo.drop_last().drop_last().drop_last() =~= Seq::<InstallMode>::empty());
    let o = mode_order_spec(preferred);
    match preferred {
        InstallMode::LfxGfx => {
            assert(o =~= seq![InstallMode::LfxGfx, InstallMode::SfxEfx, InstallMode::SfxMfx]);
        },
        InstallMode::SfxMfx => {
            assert(o =~= seq![InstallMode::SfxMfx, InstallMode::SfxEfx, InstallMode::LfxGfx]);
        },
        InstallMode::SfxEfx => {
            assert(o =~= seq![InstallMode::SfxEfx, InstallMode::SfxMfx, InstallMode::LfxGfx]);
        },
    }
}

/// The order in which modes are tried.
pub fn mode_order(preferred: InstallMode) -> (r: Vec<InstallMode>)
    ensures
        r@ == mode_order_spec(preferred),
{
    proof {
        lemma_mode_order_cases(preferred);
    }
    let v = match preferred {
        InstallMode::LfxGfx => vec![InstallMode::LfxGfx, InstallMode::SfxEfx, InstallMode::SfxMfx],
        InstallMode::SfxMfx => vec![InstallMode::SfxMfx, InstallMode::SfxEfx, InstallMode::LfxGfx],
        InstallMode::SfxEfx => vec![InstallMode::SfxEfx, InstallMode::SfxMfx, InstallMode::LfxGfx],
    };
    assert(v@ =~= mode_order_spec(preferred));
    v
}

/// Every mode is tried exactly once, the preferred one first.
pub proof fn law_mode_order_is_a_permutation(preferred: InstallMode)
    ensures
        mode_order_spec(preferred).len() == 3,
        mode_order_spec(preferred)[0] == preferred,
        forall|m: InstallMode| #[trigger] mode_order_spec(preferred).contains(m),
        forall|i: int, j: int|
            0 <= i < j < 3 ==> mode_order_spec(preferred)[i] != mode_order_spec(preferred)[j],
{
    lemma_mode_order_cases(preferred);
    let o = mode_order_spec(preferred);
    assert forall|m: InstallMode| #[trigger] o.contains(m) by {
        match m {
            InstallMode::LfxGfx => {
                assert(o[0] == m || o[1] == m || o[2] == m);
            },
            InstallMode::SfxMfx => {
                assert(o[0] == m || o[1] == m || o[2] == m);
            },
            InstallMode::SfxEfx => {
                assert(o[0] == m || o[1] == m || o[2] == m);
            },
        }
    }
}


// ---------------------------------------------------------------------------
// Pipe reports
// ---------------------------------------------------------------------------

/// What the APO instances reported over the test pipe.
pub struct PipeReport {
    pub premix_init: bool,
    pub postmix_init: bool,
    pub child_premix: bool,
    pub child_postmix: bool,
    pub messages: u32,
}

impl PipeReport {
    pub fn new() -> (r: Self)
        ensures
            !r.premix_init && !r.postmix_init && !r.child_premix && !r.child_postmix,
            r.messages == 0,
    {
        PipeReport {
            premix_init: false,
            postmix_init: false,
            child_premix: false,
            child_postmix: false,
            messages: 0,
        }
    }
}

impl Default for PipeReport {
    fn default() -> (r: Self)
        ensures
            !r.premix_init && !r.postmix_init && !r.child_premix && !r.child_postmix,
            r.messages == 0,
    {
        PipeReport::new()
    }
}

/// The flags after one message with the given `stage` and `phase` (absent fields read as
/// empty): `initialize` sets the stage's init flag, `child_apo` its child flag.
pub open spec fn flags_after(r: PipeReport, stage: Seq<char>, phase: Seq<char>) -> (bool, bool, bool, bool) {
    let pre = stage == "premix"@;
    let post = stage == "postmix"@;
    let init = phase == "initialize"@;
    let child = phase == "child_apo"@;
    (
        r.premix_init || (pre && init),
        r.postmix_init || (post && init),
        r.child_premix || (pre && child),
        r.child_postmix || (post && child),
    )
}

pub open spec fn flags_of(r: PipeReport) -> (bool, bool, bool, bool) {
    (r.premix_init, r.postmix_init, r.child_premix, r.child_postmix)
}

pub open spec fn field_or_empty(v: Option<Seq<char>>) -> Seq<char> {
    match v {
        Some(s) => s,
        None => Seq::empty(),
    }
}

fn eq_lit(a: &Vec<char>, b: &str) -> (r: bool)
    ensures
        r == (a@ == b@),
{
    let x = chars_of(b);
    crate::text::seq_eq(a, &x)
}

impl PipeReport {
    /// Records one message whose `stage` and `phase` fields were already read.
    pub fn apply_stage_phase(&mut self, stage: &str, phase: &str)
        ensures
            flags_of(*final(self)) == flags_after(*old(self), stage@, phase@),
            final(self).messages == old(self).messages,
    {
        let st = chars_of(stage);
        let ph = chars_of(phase);
        let pre = eq_lit(&st, "premix");
        let post = eq_lit(&st, "postmix");
        let init = eq_lit(&ph, "initialize");
        let child = eq_lit(&ph, "child_apo");
        self.premix_init = self.premix_init || (pre && init);
        self.postmix_init = self.postmix_init || (post && init);
        self.child_premix = self.child_premix || (pre && child);
        self.child_postmix = self.child_postmix || (post && child);
    }
}

/// What one message records: an `initialize` message of a stage sets that stage's init
/// flag, a `child_apo` message its child flag; a flag once set stays set, and any other
/// message leaves every flag as it was.
pub proof fn law_stage_phase_flags(r: PipeReport, stage: Seq<char>, phase: Seq<char>)
    ensures
        flags_after(r, "premix"@, "initialize"@).0,
        flags_after(r, "postmix"@, "initialize"@).1,
        flags_after(r, "premix"@, "child_apo"@).2,
        flags_after(r, "postmix"@, "child_apo"@).3,
        r.premix_init ==> flags_after(r, stage, phase).0,
        r.postmix_init ==> flags_after(r, stage, phase).1,
        r.child_premix ==> flags_after(r, stage, phase).2,
        r.child_postmix ==> flags_after(r, stage, phase).3,
        flags_after(r, stage, phase).0 ==> r.premix_init || (stage == "premix"@ && phase == "initialize"@),
        flags_after(r, stage, phase).1 ==> r.postmix_init || (stage == "postmix"@ && phase == "initialize"@),
        flags_after(r, stage, phase).2 ==> r.child_premix || (stage == "premix"@ && phase == "child_apo"@),
        flags_after(r, stage, phase).3 ==> r.child_postmix || (stage == "postmix"@ && phase == "child_apo"@),
{
}

/// Counts one pipe message and records its `stage`/`phase` (a JSON object line).  Lines
/// that do not parse only count.
pub fn parse_pipe_message(line: &str, report: &mut PipeReport)
    requires
        old(report).messages < u32::MAX,
    ensures
        final(report).messages == old(report).messages + 1,
        flags_of(*final(report)) == flags_after(
            *old(report),
            field_or_empty(json_text_field(line@, "stage"@)),
            field_or_empty(json_text_field(line@, "phase"@)),
        ),
{
    report.messages = report.messages + 1;
    let stage = json_str_field(line, "stage");
    let phase = json_str_field(line, "phase");
    let st = match &stage {
        Some(s) => s.as_str(),
        None => "",
    };
    let ph = match &phase {
        Some(p) => p.as_str(),
        None => "",
    };
    proof {
        reveal_strlit("");
    }
    assert(st@ == field_or_empty(json_text_field(line@, "stage"@)));
    assert(ph@ == field_or_empty(json_text_field(line@, "phase"@)));
    let ghost mid = *report;
    assert(flags_of(mid) == flags_of(*old(report)));
    report.apply_stage_phase(st, ph);
}

// ---------------------------------------------------------------------------
// Scores
// ---------------------------------------------------------------------------

/// The full score: 33 for a render device, 22 for a capture device (no PostMix there).
pub open spec fn max_score(is_capture: bool) -> int {
    if is_capture {
        22
    } else {
        33
    }
}

/// PreMix init 20, PreMix child 2, PostMix init 10, PostMix child 1.  A child counts as
/// passed when none was expected; capture devices score no PostMix points.
pub open spec fn score_spec(r: PipeReport, is_capture: bool, expected_premix: bool, expected_postmix: bool) -> int {
    let premix: int = if r.premix_init { 20 } else { 0 };
    let premix_child: int = if !expected_premix || r.child_premix { 2 } else { 0 };
    let postmix: int = if !is_capture && r.postmix_init { 10 } else { 0 };
    let postmix_child: int = if !is_capture && (!expected_postmix || r.child_postmix) { 1 } else { 0 };
    premix + premix_child + postmix + postmix_child
}

/// Scores one mode's pipe report.
pub fn score_of(report: &PipeReport, is_capture: bool, expected_premix: bool, expected_postmix: bool) -> (s: u32)
    ensures
        s == score_spec(*report, is_capture, expected_premix, expected_postmix),
{
    let mut s: u32 = 0;
    if report.premix_init {
        s += 20;
    }
    if !expected_premix || report.child_premix {
        s += 2;
    }
    if !is_capture {
        if report.postmix_init {
            s += 10;
        }
        if !expected_postmix || report.child_postmix {
            s += 1;
        }
    }
    s
}

/// A score never exceeds the full score, and it is full exactly when PreMix initialised,
/// the expected PreMix child loaded and, on render devices, PostMix and its expected
/// child did too.
pub proof fn law_score_is_full_exactly_when_everything_loaded(
    r: PipeReport,
    is_capture: bool,
    expected_premix: bool,
    expected_postmix: bool,
)
    ensures
        score_spec(r, is_capture, expected_premix, expected_postmix) <= max_score(is_capture),
        score_spec(r, is_capture, expected_premix, expected_postmix) == max_score(is_capture)
            <==> (r.premix_init && (!expected_premix || r.child_premix) && (is_capture || (
        r.postmix_init && (!expected_postmix || r.child_postmix)))),
{
}


// ---------------------------------------------------------------------------
// Mode attempts
// ---------------------------------------------------------------------------

/// The largest of some scores, 0 for none.
pub open spec fn best_of(s: Seq<int>) -> int
    decreases s.len(),
{
    if s.len() == 0 {
        0
    } else {
        let b = best_of(s.drop_last());
        if s.last() > b {
            s.last()
        } else {
            b
        }
    }
}

/// The first index whose score is `v`, or -1.
pub open spec fn first_reaching(s: Seq<int>, v: int) -> int
    decreases s.len(),
{
    if s.len() == 0 {
        -1
    } else {
        let f = first_reaching(s.drop_last(), v);
        if f >= 0 {
            f
        } else if s.last() == v {
            s.len() - 1
        } else {
            -1
        }
    }
}

proof fn lemma_best_of_reached(s: Seq<int>)
    requires
        best_of(s) > 0,
    ensures
        0 <= first_reaching(s, best_of(s)) < s.len(),
    decreases s.len(),
{
    if s.len() > 0 {
        let b = best_of(s.drop_last());
        if s.last() > b {
            if first_reaching(s.drop_last(), s.last()) >= 0 {
                lemma_first_reaching_bounds(s.drop_last(), s.last());
            }
        } else {
            lemma_best_of_reached(s.drop_last());
        }
    }
}

proof fn lemma_first_reaching_bounds(s: Seq<int>, v: int)
    ensures
        -1 <= first_reaching(s, v) < s.len(),
        first_reaching(s, v) >= 0 ==> s[first_reaching(s, v)] == v,
    decreases s.len(),
{
    if s.len() > 0 {
        lemma_first_reaching_bounds(s.drop_last(), v);
    }
}

proof fn lemma_first_reaching_first(s: Seq<int>, v: int)
    ensures
        first_reaching(s, v) >= 0 ==> forall|j: int| 0 <= j < first_reaching(s, v) ==> s[j] != v,
        first_reaching(s, v) < 0 ==> forall|j: int| 0 <= j < s.len() ==> s[j] != v,
    decreases s.len(),
{
    if s.len() > 0 {
        lemma_first_reaching_first(s.drop_last(), v);
        lemma_first_reaching_bounds(s.drop_last(), v);
        assert forall|j: int| 0 <= j < s.len() - 1 implies s.drop_last()[j] == s[j] by {}
    }
}

proof fn lemma_best_of_bounds(s: Seq<int>)
    ensures
        best_of(s) >= 0,
        forall|i: int| 0 <= i < s.len() ==> s[i] <= best_of(s),
    decreases s.len(),
{
    if s.len() > 0 {
        lemma_best_of_bounds(s.drop_last());
        assert forall|i: int| 0 <= i < s.len() - 1 implies s.drop_last()[i] == s[i] by {}
    }
}

/// Attempt `k` scored above zero, no attempt scored more, and none before it scored as much.
pub open spec fn is_best_attempt(scores: Seq<int>, k: int) -> bool {
    &&& 0 <= k < scores.len()
    &&& scores[k] > 0
    &&& forall|i: int| 0 <= i < scores.len() ==> #[trigger] scores[i] <= scores[k]
    &&& forall|j: int| 0 <= j < k ==> #[trigger] scores[j] < scores[k]
}

/// The progress of `install --verify` over its modes.
pub struct VerifyRun {
    modes: Vec<InstallMode>,
    tried: usize,
    is_capture: bool,
    best_score: u32,
    best_mode: Option<InstallMode>,
    attempts: u32,
    awaiting: bool,
    succeeded: bool,
    scores: Ghost<Seq<int>>,
}

/// The `test` event reporting that a mode was tested.
pub open spec fn is_test_event(e: InstallProgressEvent, m: InstallMode) -> bool {
    e matches InstallProgressEvent::Test { mode, pipe } && mode@ == mode_name(m) && pipe is None
}

/// The `complete` event of a successful install.
pub open spec fn is_success_event(e: InstallProgressEvent, m: InstallMode, score: int, attempts: int) -> bool {
    e matches InstallProgressEvent::Complete { success, mode, score: sc, attempts: at, best_mode, best_score }
        && success && mode is Some && mode->0@ == mode_name(m) && sc == Some(score as u32) && at
        == attempts && best_mode is None && best_score is None
}

/// The `retry` event when moving from one mode to the next.
pub open spec fn is_retry_event(e: InstallProgressEvent, from: InstallMode, to: InstallMode, score: int, max: int) -> bool {
    e matches InstallProgressEvent::Retry { from: f, to: t, reason } && f@ == mode_name(from) && t@
        == mode_name(to) && reason is Some && reason->0@ == "score "@ + dec(score as nat) + " < "@
        + dec(max as nat)
}

/// The `complete` event when every tried mode failed.
pub open spec fn is_failure_event(e: InstallProgressEvent, best_mode: Option<InstallMode>, best_score: int, attempts: int) -> bool {
    e matches InstallProgressEvent::Complete { success, mode, score, attempts: at, best_mode: bm, best_score: bs }
        && !success && mode is None && score is None && at == attempts && bs == Some(
        best_score as u32,
    ) && match best_mode {
        Some(m) => bm is Some && bm->0@ == mode_name(m),
        None => bm is None,
    }
}

impl VerifyRun {
    /// The modes in the order they are tried.
    pub closed spec fn modes(&self) -> Seq<InstallMode> {
        self.modes@
    }

    /// How many modes were begun.
    pub closed spec fn tried(&self) -> int {
        self.tried as int
    }

    pub closed spec fn is_capture(&self) -> bool {
        self.is_capture
    }

    /// The scores recorded so far, one per finished attempt.
    pub closed spec fn scores(&self) -> Seq<int> {
        self.scores@
    }

    /// Whether a mode was begun and its score is awaited.
    pub closed spec fn awaiting(&self) -> bool {
        self.awaiting
    }

    /// Whether some mode reached the full score.
    pub closed spec fn succeeded(&self) -> bool {
        self.succeeded
    }

    pub closed spec fn best_score(&self) -> int {
        self.best_score as int
    }

    pub closed spec fn best_mode(&self) -> Option<InstallMode> {
        self.best_mode
    }

    pub closed spec fn attempts(&self) -> int {
        self.attempts as int
    }

    /// What holds throughout: the best score is the largest recorded score and its mode the
    /// first one that reached it; attempts count the modes begun; no recorded score before
    /// the last was full.
    pub closed spec fn wf(&self) -> bool {
        &&& self.modes@.len() == 3
        &&& self.tried <= self.modes@.len()
        &&& self.attempts as int == self.tried as int
        &&& self.scores@.len() == if self.awaiting {
            self.tried - 1
        } else {
            self.tried as int
        }
        &&& self.awaiting ==> self.tried >= 1
        &&& self.awaiting ==> !self.succeeded
        &&& self.best_score as int == best_of(self.scores@)
        &&& self.best_mode == if best_of(self.scores@) > 0 {
            Some(self.modes@[first_reaching(self.scores@, best_of(self.scores@))])
        } else {
            None
        }
        &&& self.succeeded == (self.scores@.len() > 0 && self.scores@.last() == max_score(
            self.is_capture,
        ))
        &&& forall|i: int|
            0 <= i < self.scores@.len() - 1 ==> #[trigger] self.scores@[i] != max_score(
                self.is_capture,
            )
        &&& forall|i: int| 0 <= i < self.scores@.len() ==> 0 <= #[trigger] self.scores@[i] <= u32::MAX
    }

    /// A run over `mode_order(preferred)` for a render or capture device.
    pub fn new(preferred: InstallMode, is_capture: bool) -> (r: Self)
        ensures
            r.wf(),
            r.modes() == mode_order_spec(preferred),
            r.is_capture() == is_capture,
            r.tried() == 0,
            r.scores() == Seq::<int>::empty(),
            !r.awaiting(),
            !r.succeeded(),
    {
        proof {
            lemma_mode_order_cases(preferred);
        }
        VerifyRun {
            modes: mode_order(preferred),
            tried: 0,
            is_capture,
            best_score: 0,
            best_mode: None,
            attempts: 0,
            awaiting: false,
            succeeded: false,
            scores: Ghost(Seq::empty()),
        }
    }

    /// Begins the next mode, if any is left: returns it with its `install_write` event.
    pub fn next_attempt(&mut self) -> (r: Option<(InstallMode, InstallProgressEvent)>)
        requires
            old(self).wf(),
            !old(self).awaiting(),
            !old(self).succeeded(),
        ensures
            final(self).wf(),
            final(self).modes() == old(self).modes(),
            final(self).is_capture() == old(self).is_capture(),
            final(self).scores() == old(self).scores(),
            !final(self).succeeded(),
            match r {
                Some((m, e)) => {
                    &&& old(self).tried() < 3
                    &&& m == old(self).modes()[old(self).tried()]
                    &&& final(self).tried() == old(self).tried() + 1
                    &&& final(self).awaiting()
                    &&& e matches InstallProgressEvent::InstallWrite { mode } && mode@ == mode_name(m)
                },
                None => old(self).tried() == 3 && final(self).tried() == 3 && !final(self).awaiting(),
            },
    {
        if self.tried < self.modes.len() {
            let m = self.modes[self.tried];
            self.tried = self.tried + 1;
            self.attempts = self.attempts + 1;
            self.awaiting = true;
            let name = chars_of(mode_str(m));
            Some((m, InstallProgressEvent::InstallWrite { mode: string_of(&name) }))
        } else {
            None
        }
    }

    /// Records the score of the mode begun last.  Returns whether the install succeeded
    /// (the score is full) and the events to report: `test`, then `complete` on success or
    /// `retry` towards the next mode when one is left.
    pub fn record_score(&mut self, score: u32) -> (r: (bool, Vec<InstallProgressEvent>))
        requires
            old(self).wf(),
            old(self).awaiting(),
        ensures
            final(self).wf(),
            final(self).modes() == old(self).modes(),
            final(self).is_capture() == old(self).is_capture(),
            final(self).tried() == old(self).tried(),
            final(self).scores() == old(self).scores().push(score as int),
            !final(self).awaiting(),
            r.0 == (score as int == max_score(old(self).is_capture())),
            final(self).succeeded() == r.0,
            ({
                let m = old(self).modes()[old(self).tried() - 1];
                let ev = r.1@;
                &&& ev.len() >= 1
                &&& is_test_event(ev[0], m)
                &&& r.0 ==> ev.len() == 2 && is_success_event(ev[1], m, score as int, old(self).tried())
                &&& !r.0 && old(self).tried() < 3 ==> ev.len() == 2 && is_retry_event(
                    ev[1],
                    m,
                    old(self).modes()[old(self).tried()],
                    score as int,
                    max_score(old(self).is_capture()),
                )
                &&& !r.0 && old(self).tried() == 3 ==> ev.len() == 1
            }),
    {
        let m = self.modes[self.tried - 1];
        let max: u32 = if self.is_capture {
            22
        } else {
            33
        };
        let ghost old_scores = self.scores@;
        proof {
            lemma_best_of_bounds(old_scores);
            if best_of(old_scores) > 0 {
                lemma_best_of_reached(old_scores);
            }
        }
        if score > self.best_score {
            self.best_score = score;
            self.best_mode = Some(m);
        }
        self.awaiting = false;
        self.scores = Ghost(old_scores.push(score as int));
        proof {
            let s2 = old_scores.push(score as int);
            assert(s2.drop_last() =~= old_scores);
            if best_of(old_scores) > 0 {
                lemma_first_reaching_bounds(old_scores, best_of(old_scores));
            }
            if score as int > best_of(old_scores) {
                if first_reaching(old_scores, score as int) >= 0 {
                    lemma_best_of_bounds(old_scores);
                    lemma_first_reaching_bounds(old_scores, score as int);
                }
            }
        }
        let succeeded = score == max;
        self.succeeded = succeeded;
        proof {
            let s2 = old_scores.push(score as int);
            assert forall|i: int| 0 <= i < s2.len() - 1 implies #[trigger] s2[i] != max_score(
                self.is_capture,
            ) by {
                assert(s2[i] == old_scores[i]);
            }
        }
        let mut events: Vec<InstallProgressEvent> = Vec::new();
        let name = chars_of(mode_str(m));
        events.push(InstallProgressEvent::Test { mode: string_of(&name), pipe: None });
        if succeeded {
            events.push(
                InstallProgressEvent::Complete {
                    success: true,
                    mode: Some(string_of(&name)),
                    score: Some(score),
                    attempts: self.attempts,
                    best_mode: None,
                    best_score: None,
                },
            );
        } else if self.tried < self.modes.len() {
            let next = self.modes[self.tried];
            let to = chars_of(mode_str(next));
            let mut reason: Vec<char> = Vec::new();
            push_str(&mut reason, "score ");
            push_dec(&mut reason, score as u64);
            push_str(&mut reason, " < ");
            push_dec(&mut reason, max as u64);
            events.push(
                InstallProgressEvent::Retry {
                    from: string_of(&name),
                    to: string_of(&to),
                    reason: Some(string_of(&reason)),
                },
            );
        }
        (succeeded, events)
    }

    /// The best score is the highest score recorded, and the best mode is the mode of the
    /// earliest attempt that reached it; there is none while no attempt scored above zero.
    /// Score `i` is that of the attempt with `modes()[i]`: one score per finished attempt.
    pub proof fn law_best_mode_kept(&self)
        requires
            self.wf(),
        ensures
            self.best_score() == best_of(self.scores()),
            forall|i: int| 0 <= i < self.scores().len() ==> 0 <= #[trigger] self.scores()[i] <= self.best_score(),
            self.tried() <= self.modes().len(),
            self.scores().len() == if self.awaiting() {
                self.tried() - 1
            } else {
                self.tried()
            },
            match self.best_mode() {
                Some(m) => exists|k: int| is_best_attempt(self.scores(), k) && self.modes()[k] == m,
                None => forall|i: int| 0 <= i < self.scores().len() ==> #[trigger] self.scores()[i] == 0,
            },
    {
        let s = self.scores@;
        lemma_best_of_bounds(s);
        if best_of(s) > 0 {
            lemma_best_of_reached(s);
            let k = first_reaching(s, best_of(s));
            lemma_first_reaching_bounds(s, best_of(s));
            lemma_first_reaching_first(s, best_of(s));
            assert(is_best_attempt(s, k));
        }
    }

    /// The `complete` event reported when no mode reached the full score.
    pub fn failure_event(&self) -> (e: InstallProgressEvent)
        requires
            self.wf(),
        ensures
            is_failure_event(e, self.best_mode(), self.best_score(), self.attempts()),
    {
        let best_mode = match self.best_mode {
            Some(m) => {
                let n = chars_of(mode_str(m));
                Some(string_of(&n))
            },
            None => None,
        };
        InstallProgressEvent::Complete {
            success: false,
            mode: None,
            score: None,
            attempts: self.attempts,
            best_mode,
            best_score: Some(self.best_score),
        }
    }

    /// What is left installed once no mode reached the full score: the configuration of
    /// the best-scoring mode, or, where no mode scored at all, nothing.
    pub fn failure_action(&self) -> (r: FailureAction)
        requires
            self.wf(),
        ensures
            match r {
                FailureAction::KeepMode(m) => self.best_mode() == Some(m) && exists|k: int|
                    is_best_attempt(self.scores(), k) && self.modes()[k] == m,
                FailureAction::RollBack => self.best_mode() is None && forall|i: int|
                    0 <= i < self.scores().len() ==> #[trigger] self.scores()[i] == 0,
            },
    {
        proof {
            self.law_best_mode_kept();
        }
        match self.best_mode {
            Some(m) => FailureAction::KeepMode(m),
            None => FailureAction::RollBack,
        }
    }
}

/// The decision after every mode failed verification.
#[derive(Clone, Copy, PartialEq, Eq, Structural, Debug)]
pub enum FailureAction {
    /// Write this mode's configuration again and keep it.
    KeepMode(InstallMode),
    /// Remove the install.
    RollBack,
}

/// The `phase` event for a step of the install; phases are reported only to a run that
/// keeps a progress file.
pub fn phase_event(name: &str, has_progress_file: bool) -> (r: Option<InstallProgressEvent>)
    ensures
        match r {
            Some(e) => has_progress_file && (e matches InstallProgressEvent::Phase { name: n } && n@
                == name@),
            None => !has_progress_file,
        },
{
    if has_progress_file {
        let n = chars_of(name);
        Some(InstallProgressEvent::Phase { name: string_of(&n) })
    } else {
        None
    }
}

} // verus!
