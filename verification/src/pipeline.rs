//! The steps of one conversion: running the engine, checking and verifying
//! the temporary result, committing it under a free name, and the passes of
//! a size target. Each step is decided here from what the last piece of
//! process or file work reported.
use vstd::prelude::*;
use crate::engine::{engine_kind, engine_kind_spec, EngineKind};
use crate::text::{all_ws, char_is_ws, chars_of, is_ws, owned, push_str, str_eq};

verus! {

/// Where a conversion stands.
#[derive(Debug, Clone, Copy, PartialEq, Eq, Structural)]
pub enum ConvertStage {
    /// The log is open and the temporary file reserved.
    Ready,
    /// The engine runs.
    Converting,
    /// The temporary result is to be measured.
    Checking,
    /// The temporary result is to be verified.
    Verifying,
    /// The temporary result is to be committed.
    Committing,
    /// The result is committed.
    Done,
    /// The conversion failed.
    Failed,
}

/// What the last piece of work reported.
#[derive(Debug, Clone, Copy, PartialEq, Eq, Structural)]
pub enum ConvertEvent {
    /// The conversion may begin.
    Started,
    /// The engine ended, successfully or not.
    EngineExited(bool),
    /// The size of the temporary result (0 where there is none).
    TempSize(u64),
    /// The verification of the temporary result passed or failed.
    Verified(bool),
    /// The result was committed.
    Committed,
}

/// Why a conversion failed.
#[derive(Debug, Clone, Copy, PartialEq, Eq, Structural)]
pub enum ConvertFailure {
    UnsupportedEngine,
    EngineFailed,
    EmptyResult,
    VerificationFailed,
    OutOfOrder,
}

/// The next piece of work.
#[derive(Debug, Clone, Copy, PartialEq, Eq, Structural)]
pub enum ConvertAction {
    /// Run this engine into the temporary file.
    RunEngine(EngineKind),
    /// Measure the temporary result.
    CheckTemp,
    /// Verify the temporary result as this engine's output.
    Verify(EngineKind),
    /// Commit the temporary result atomically under a free name.
    Persist,
    /// Record `OUTPUT_COMMITTED` and `RESULT=verified`.
    Finish,
    /// Stop with this failure.
    Fail(ConvertFailure),
}

/// One step of a conversion: the engine runs only for a supported engine;
/// the result is measured only after the engine succeeded; an empty result
/// fails; a non-empty one is verified where results are verified; it is
/// committed only after that; and the run ends once it is committed.
pub open spec fn convert_step_spec(
    verify_results: bool,
    engine: Seq<char>,
    stage: ConvertStage,
    event: ConvertEvent,
) -> (ConvertStage, ConvertAction) {
    match (stage, event) {
        (ConvertStage::Ready, ConvertEvent::Started) => match engine_kind_spec(engine) {
            Some(k) => (ConvertStage::Converting, ConvertAction::RunEngine(k)),
            None => (ConvertStage::Failed, ConvertAction::Fail(ConvertFailure::UnsupportedEngine)),
        },
        (ConvertStage::Converting, ConvertEvent::EngineExited(ok)) => if ok {
            (ConvertStage::Checking, ConvertAction::CheckTemp)
        } else {
            (ConvertStage::Failed, ConvertAction::Fail(ConvertFailure::EngineFailed))
        },
        (ConvertStage::Checking, ConvertEvent::TempSize(n)) => if n == 0 {
            (ConvertStage::Failed, ConvertAction::Fail(ConvertFailure::EmptyResult))
        } else if verify_results {
            match engine_kind_spec(engine) {
                Some(k) => (ConvertStage::Verifying, ConvertAction::Verify(k)),
                None => (ConvertStage::Failed, ConvertAction::Fail(ConvertFailure::UnsupportedEngine)),
            }
        } else {
            (ConvertStage::Committing, ConvertAction::Persist)
        },
        (ConvertStage::Verifying, ConvertEvent::Verified(ok)) => if ok {
            (ConvertStage::Committing, ConvertAction::Persist)
        } else {
            (ConvertStage::Failed, ConvertAction::Fail(ConvertFailure::VerificationFailed))
        },
        (ConvertStage::Committing, ConvertEvent::Committed) => (
            ConvertStage::Done,
            ConvertAction::Finish,
        ),
        _ => (ConvertStage::Failed, ConvertAction::Fail(ConvertFailure::OutOfOrder)),
    }
}

pub fn convert_step(
    verify_results: bool,
    engine: &str,
    stage: ConvertStage,
    event: ConvertEvent,
) -> (r: (ConvertStage, ConvertAction))
    ensures
        r == convert_step_spec(verify_results, engine@, stage, event),
{
    match (stage, event) {
        (ConvertStage::Ready, ConvertEvent::Started) => match engine_kind(engine) {
            Some(k) => (ConvertStage::Converting, ConvertAction::RunEngine(k)),
            None => (ConvertStage::Failed, ConvertAction::Fail(ConvertFailure::UnsupportedEngine)),
        },
        (ConvertStage::Converting, ConvertEvent::EngineExited(ok)) => if ok {
            (ConvertStage::Checking, ConvertAction::CheckTemp)
        } else {
            (ConvertStage::Failed, ConvertAction::Fail(ConvertFailure::EngineFailed))
        },
        (ConvertStage::Checking, ConvertEvent::TempSize(n)) => if n == 0 {
            (ConvertStage::Failed, ConvertAction::Fail(ConvertFailure::EmptyResult))
        } else if verify_results {
            match engine_kind(engine) {
                Some(k) => (ConvertStage::Verifying, ConvertAction::Verify(k)),
                None => (ConvertStage::Failed, ConvertAction::Fail(ConvertFailure::UnsupportedEngine)),
            }
        } else {
            (ConvertStage::Committing, ConvertAction::Persist)
        },
        (ConvertStage::Verifying, ConvertEvent::Verified(ok)) => if ok {
            (ConvertStage::Committing, ConvertAction::Persist)
        } else {
            (ConvertStage::Failed, ConvertAction::Fail(ConvertFailure::VerificationFailed))
        },
        (ConvertStage::Committing, ConvertEvent::Committed) => (
            ConvertStage::Done,
            ConvertAction::Finish,
        ),
        _ => (ConvertStage::Failed, ConvertAction::Fail(ConvertFailure::OutOfOrder)),
    }
}

/// The engine that a conversion runs, and the one whose output it verifies,
/// is the profile's engine: `ffmpeg` runs and verifies as ffmpeg, `magick`
/// as ImageMagick, and any other engine fails as unsupported before
/// anything runs.
pub proof fn conversion_runs_the_profile_engine(verify_results: bool, engine: Seq<char>, size: u64)
    requires
        size > 0,
    ensures
        engine == "ffmpeg"@ ==> convert_step_spec(verify_results, engine, ConvertStage::Ready, ConvertEvent::Started)
            == (ConvertStage::Converting, ConvertAction::RunEngine(EngineKind::Ffmpeg)),
        engine == "magick"@ ==> convert_step_spec(verify_results, engine, ConvertStage::Ready, ConvertEvent::Started)
            == (ConvertStage::Converting, ConvertAction::RunEngine(EngineKind::Magick)),
        engine != "ffmpeg"@ && engine != "magick"@ ==> convert_step_spec(
            verify_results,
            engine,
            ConvertStage::Ready,
            ConvertEvent::Started,
        ) == (ConvertStage::Failed, ConvertAction::Fail(ConvertFailure::UnsupportedEngine)),
        verify_results && engine == "ffmpeg"@ ==> convert_step_spec(
            verify_results,
            engine,
            ConvertStage::Checking,
            ConvertEvent::TempSize(size),
        ) == (ConvertStage::Verifying, ConvertAction::Verify(EngineKind::Ffmpeg)),
        verify_results && engine == "magick"@ ==> convert_step_spec(
            verify_results,
            engine,
            ConvertStage::Checking,
            ConvertEvent::TempSize(size),
        ) == (ConvertStage::Verifying, ConvertAction::Verify(EngineKind::Magick)),
{
    reveal_strlit("ffmpeg");
    reveal_strlit("magick");
    assert("ffmpeg"@[1] != "magick"@[1]);
}

/// The stage a conversion reaches from `Ready` through these reports.
pub open spec fn stage_after(
    verify_results: bool,
    engine: Seq<char>,
    events: Seq<ConvertEvent>,
) -> ConvertStage
    decreases events.len(),
{
    if events.len() == 0 {
        ConvertStage::Ready
    } else {
        convert_step_spec(
            verify_results,
            engine,
            stage_after(verify_results, engine, events.drop_last()),
            events.last(),
        ).0
    }
}

/// A report of a non-empty temporary result.
pub open spec fn is_nonempty_size(e: ConvertEvent) -> bool {
    e matches ConvertEvent::TempSize(n) && n > 0
}

/// Some report says the temporary result was non-empty.
pub open spec fn result_nonempty(events: Seq<ConvertEvent>) -> bool {
    exists|i: int| 0 <= i < events.len() && #[trigger] is_nonempty_size(events[i])
}

proof fn lemma_push_keeps(events: Seq<ConvertEvent>, e: ConvertEvent)
    ensures
        forall|x: ConvertEvent| events.contains(x) ==> #[trigger] events.push(e).contains(x),
        events.push(e).contains(e),
        result_nonempty(events) ==> result_nonempty(events.push(e)),
        is_nonempty_size(e) ==> result_nonempty(events.push(e)),
{
    let p = events.push(e);
    assert forall|x: ConvertEvent| events.contains(x) implies #[trigger] p.contains(x) by {
        let j = choose|j: int| 0 <= j < events.len() && events[j] == x;
        assert(p[j] == x);
    }
    assert(p[events.len() as int] == e);
    if result_nonempty(events) {
        let j = choose|j: int| 0 <= j < events.len() && #[trigger] is_nonempty_size(events[j]);
        assert(p[j] == events[j]);
        assert(is_nonempty_size(p[j]));
    }
    if is_nonempty_size(e) {
        assert(is_nonempty_size(p[events.len() as int]));
    }
}

/// What the reports so far hold at each stage: from `Checking` on, the
/// engine succeeded; from `Verifying` on, the result was non-empty; at
/// `Committing` and `Done`, a verified run also passed its verification.
proof fn lemma_stage_history(verify_results: bool, engine: Seq<char>, events: Seq<ConvertEvent>)
    ensures
        ({
            let s = stage_after(verify_results, engine, events);
            &&& (s == ConvertStage::Checking || s == ConvertStage::Verifying || s
                == ConvertStage::Committing || s == ConvertStage::Done) ==> events.contains(
                ConvertEvent::EngineExited(true),
            )
            &&& (s == ConvertStage::Verifying || s == ConvertStage::Committing || s
                == ConvertStage::Done) ==> result_nonempty(events)
            &&& (s == ConvertStage::Committing || s == ConvertStage::Done) && verify_results
                ==> events.contains(ConvertEvent::Verified(true))
        }),
    decreases events.len(),
{
    if events.len() > 0 {
        let prev = events.drop_last();
        let e = events.last();
        lemma_stage_history(verify_results, engine, prev);
        lemma_push_keeps(prev, e);
        assert(prev.push(e) =~= events);
    }
}

/// A result is committed (`Persist`), and the run finished (`Finish`), only
/// after the engine succeeded, the temporary result was found non-empty,
/// and, where results are verified, the verification passed.
pub proof fn commit_only_after_checks(
    verify_results: bool,
    engine: Seq<char>,
    events: Seq<ConvertEvent>,
    event: ConvertEvent,
)
    requires
        ({
            let a = convert_step_spec(
                verify_results,
                engine,
                stage_after(verify_results, engine, events),
                event,
            ).1;
            a == ConvertAction::Persist || a == ConvertAction::Finish
        }),
    ensures
        events.push(event).contains(ConvertEvent::EngineExited(true)),
        result_nonempty(events.push(event)),
        verify_results ==> events.push(event).contains(ConvertEvent::Verified(true)),
{
    lemma_stage_history(verify_results, engine, events);
    lemma_push_keeps(events, event);
}

/// The engine's result checks: for ffmpeg output an `ffprobe` of duration
/// and size, then a full decode; for ImageMagick output an `identify`.
pub open spec fn verification_spec(kind: EngineKind, output: Seq<char>) -> Seq<
    (Seq<char>, Seq<Seq<char>>),
> {
    match kind {
        EngineKind::Ffmpeg => seq![
            (
                "ffprobe"@,
                seq![
                    "-v"@,
                    "error"@,
                    "-show_entries"@,
                    "format=duration,size"@,
                    "-of"@,
                    "default=noprint_wrappers=1"@,
                    output,
                ],
            ),
            (
                "ffmpeg"@,
                seq![
                    "-hide_banner"@,
                    "-nostdin"@,
                    "-loglevel"@,
                    "error"@,
                    "-xerror"@,
                    "-i"@,
                    output,
                    "-map"@,
                    "0:v?"@,
                    "-map"@,
                    "0:a?"@,
                    "-f"@,
                    "null"@,
                    "-"@,
                ],
            ),
        ],
        EngineKind::Magick => seq![("magick"@, seq!["identify"@, "-quiet"@, output])],
    }
}

pub open spec fn commands_view(c: Seq<(String, Vec<String>)>) -> Seq<(Seq<char>, Seq<Seq<char>>)> {
    c.map_values(|x: (String, Vec<String>)| (x.0@, x.1.deep_view()))
}

/// The programs and arguments that check an engine's result; none for an
/// engine that is not supported.
pub fn verification_commands(engine: &str, output: &str) -> (r: Option<Vec<(String, Vec<String>)>>)
    ensures
        r is None <==> engine_kind_spec(engine@) is None,
        r matches Some(c) ==> commands_view(c@) == verification_spec(
            engine_kind_spec(engine@)->0,
            output@,
        ),
{
    match engine_kind(engine) {
        Some(EngineKind::Ffmpeg) => {
            let mut probe_args: Vec<String> = Vec::new();
            probe_args.push(owned("-v"));
            probe_args.push(owned("error"));
            probe_args.push(owned("-show_entries"));
            probe_args.push(owned("format=duration,size"));
            probe_args.push(owned("-of"));
            probe_args.push(owned("default=noprint_wrappers=1"));
            probe_args.push(owned(output));
            let mut decode_args: Vec<String> = Vec::new();
            decode_args.push(owned("-hide_banner"));
            decode_args.push(owned("-nostdin"));
            decode_args.push(owned("-loglevel"));
            decode_args.push(owned("error"));
            decode_args.push(owned("-xerror"));
            decode_args.push(owned("-i"));
            decode_args.push(owned(output));
            decode_args.push(owned("-map"));
            decode_args.push(owned("0:v?"));
            decode_args.push(owned("-map"));
            decode_args.push(owned("0:a?"));
            decode_args.push(owned("-f"));
            decode_args.push(owned("null"));
            decode_args.push(owned("-"));
            let ghost spec = verification_spec(EngineKind::Ffmpeg, output@);
            assert(probe_args.deep_view() =~= spec[0].1);
            assert(decode_args.deep_view() =~= spec[1].1);
            let mut c: Vec<(String, Vec<String>)> = Vec::new();
            c.push((owned("ffprobe"), probe_args));
            c.push((owned("ffmpeg"), decode_args));
            assert(commands_view(c@) =~= spec);
            Some(c)
        },
        Some(EngineKind::Magick) => {
            let mut args: Vec<String> = Vec::new();
            args.push(owned("identify"));
            args.push(owned("-quiet"));
            args.push(owned(output));
            let ghost spec = verification_spec(EngineKind::Magick, output@);
            assert(args.deep_view() =~= spec[0].1);
            let mut c: Vec<(String, Vec<String>)> = Vec::new();
            c.push((owned("magick"), args));
            assert(commands_view(c@) =~= spec);
            Some(c)
        },
        None => None,
    }
}

/// The step of the checks whose output must not be blank.
pub fn is_probe_step(program: &str) -> (r: bool)
    ensures
        r == (program@ == "ffprobe"@),
{
    str_eq(program, "ffprobe")
}

/// Whether a check passed: its program succeeded and, for the `ffprobe`
/// step, printed something other than whitespace.
pub fn check_passed(probe_step: bool, status_ok: bool, stdout: &str) -> (r: bool)
    ensures
        r == (status_ok && (probe_step ==> !all_ws(stdout@))),
{
    if !status_ok {
        return false;
    }
    if !probe_step {
        return true;
    }
    let cs = chars_of(stdout);
    let mut i: usize = 0;
    while i < cs.len()
        invariant
            i <= cs.len(),
            cs@ == stdout@,
            status_ok,
            probe_step,
            forall|j: int| 0 <= j < i ==> is_ws(#[trigger] cs@[j]),
        decreases cs.len() - i,
    {
        if !char_is_ws(cs[i]) {
            assert(!is_ws(stdout@[i as int]));
            assert(!all_ws(stdout@));
            return true;
        }
        i = i + 1;
    }
    false
}

/// The error of a failed check.
pub open spec fn check_failure_spec(program: Seq<char>, output: Seq<char>) -> Seq<char> {
    if program == "ffprobe"@ {
        "ffprobe не подтвердил результат: "@ + output
    } else if program == "ffmpeg"@ {
        "полное декодирование результата завершилось с ошибкой"@
    } else {
        "ImageMagick не подтвердил результат: "@ + output
    }
}

pub fn check_failure_message(program: &str, output: &str) -> (r: String)
    ensures
        r@ == check_failure_spec(program@, output@),
{
    if str_eq(program, "ffprobe") {
        let mut r = owned("ffprobe не подтвердил результат: ");
        push_str(&mut r, output);
        r
    } else if str_eq(program, "ffmpeg") {
        owned("полное декодирование результата завершилось с ошибкой")
    } else {
        let mut r = owned("ImageMagick не подтвердил результат: ");
        push_str(&mut r, output);
        r
    }
}

/// How many names beside the requested one a commit tries.
pub const PERSIST_NAMES: u32 = 10000;

/// What an attempt to commit under a name reported.
#[derive(Debug, Clone, Copy, PartialEq, Eq, Structural)]
pub enum PersistOutcome {
    Saved,
    AlreadyExists,
    Failed,
}

/// What a commit does next.
#[derive(Debug, Clone, Copy, PartialEq, Eq, Structural)]
pub enum PersistAction {
    /// The result is committed.
    Done,
    /// Try the name `persist_candidate(requested, i)`.
    TryIndex(u32),
    /// Every name was taken.
    GiveUp,
    /// The commit failed.
    Fail,
}

/// A commit replaces the requested file where `overwrite` is set; else it
/// never replaces a file and tries the next name while the one tried
/// exists, up to `PERSIST_NAMES` names.
pub open spec fn persist_next_spec(overwrite: bool, index: u32, outcome: PersistOutcome) -> PersistAction {
    match outcome {
        PersistOutcome::Saved => PersistAction::Done,
        PersistOutcome::Failed => PersistAction::Fail,
        PersistOutcome::AlreadyExists => if overwrite {
            PersistAction::Fail
        } else if index + 1 < PERSIST_NAMES {
            PersistAction::TryIndex((index + 1) as u32)
        } else {
            PersistAction::GiveUp
        },
    }
}

pub fn persist_next(overwrite: bool, index: u32, outcome: PersistOutcome) -> (r: PersistAction)
    ensures
        r == persist_next_spec(overwrite, index, outcome),
{
    match outcome {
        PersistOutcome::Saved => PersistAction::Done,
        PersistOutcome::Failed => PersistAction::Fail,
        PersistOutcome::AlreadyExists => if overwrite {
            PersistAction::Fail
        } else if index < PERSIST_NAMES - 1 {
            PersistAction::TryIndex(index + 1)
        } else {
            PersistAction::GiveUp
        },
    }
}

/// How many passes a size target gets.
pub const TARGET_PASSES: u32 = 5;

/// What follows a pass of a size target.
#[derive(Debug, Clone, Copy, PartialEq, Eq, Structural)]
pub enum TargetStep {
    /// The pass failed; its status is the result.
    Stop,
    /// The result fits the target.
    Accept,
    /// The result is too large; another pass follows at a lower rate.
    Retry,
    /// The last pass is done and the result is too large.
    Exhausted,
}

pub open spec fn target_step_spec(pass: u32, succeeded: bool, actual: u64, target: u64) -> TargetStep {
    if !succeeded {
        TargetStep::Stop
    } else if actual <= target {
        TargetStep::Accept
    } else if pass < TARGET_PASSES {
        TargetStep::Retry
    } else {
        TargetStep::Exhausted
    }
}

/// Decides after pass `pass` (counted from 1) of a size target, given the
/// size of its result in bytes.
pub fn target_step(pass: u32, succeeded: bool, actual: u64, target: u64) -> (r: TargetStep)
    ensures
        r == target_step_spec(pass, succeeded, actual, target),
{
    if !succeeded {
        TargetStep::Stop
    } else if actual <= target {
        TargetStep::Accept
    } else if pass < TARGET_PASSES {
        TargetStep::Retry
    } else {
        TargetStep::Exhausted
    }
}

/// Whether a result of `actual` bytes misses a target of `target` bytes.
pub fn exceeds_target(actual: u64, target: u64) -> (r: bool)
    ensures
        r == (actual > target),
{
    actual > target
}

} // verus!
