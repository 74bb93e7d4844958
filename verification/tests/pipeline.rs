use media_studio::engine::{
    fallback_retry_args, hardware_used_line, is_render_node, EngineKind, HardwareNote,
};
use media_studio::model::Config;
use media_studio::pipeline::{
    check_failure_message, check_passed, convert_step, exceeds_target, is_probe_step, persist_next,
    target_step, verification_commands, ConvertAction, ConvertEvent, ConvertFailure, ConvertStage,
    PersistAction, PersistOutcome, TargetStep,
};
use media_studio::profiles::HardwareBackend;

fn run(verify: bool, engine: &str, events: &[ConvertEvent]) -> Vec<(ConvertStage, ConvertAction)> {
    let mut stage = ConvertStage::Ready;
    let mut out = Vec::new();
    for event in events {
        let step = convert_step(verify, engine, stage, *event);
        stage = step.0;
        out.push(step);
    }
    out
}

#[test]
fn conversion_commits_only_after_checks() {
    let steps = run(
        true,
        "ffmpeg",
        &[
            ConvertEvent::Started,
            ConvertEvent::EngineExited(true),
            ConvertEvent::TempSize(10),
            ConvertEvent::Verified(true),
            ConvertEvent::Committed,
        ],
    );
    assert_eq!(
        steps.iter().map(|s| s.1).collect::<Vec<_>>(),
        vec![
            ConvertAction::RunEngine(EngineKind::Ffmpeg),
            ConvertAction::CheckTemp,
            ConvertAction::Verify(EngineKind::Ffmpeg),
            ConvertAction::Persist,
            ConvertAction::Finish,
        ]
    );
    let unverified = run(false, "magick", &[ConvertEvent::Started, ConvertEvent::EngineExited(true), ConvertEvent::TempSize(1)]);
    assert_eq!(unverified[2].1, ConvertAction::Persist);
    let empty = run(true, "ffmpeg", &[ConvertEvent::Started, ConvertEvent::EngineExited(true), ConvertEvent::TempSize(0)]);
    assert_eq!(empty[2], (ConvertStage::Failed, ConvertAction::Fail(ConvertFailure::EmptyResult)));
    let failed = run(true, "ffmpeg", &[ConvertEvent::Started, ConvertEvent::EngineExited(false)]);
    assert_eq!(failed[1].1, ConvertAction::Fail(ConvertFailure::EngineFailed));
    let bad = run(true, "ffmpeg", &[ConvertEvent::Started, ConvertEvent::EngineExited(true), ConvertEvent::TempSize(5), ConvertEvent::Verified(false)]);
    assert_eq!(bad[3].1, ConvertAction::Fail(ConvertFailure::VerificationFailed));
    assert_eq!(run(true, "gimp", &[ConvertEvent::Started])[0].1, ConvertAction::Fail(ConvertFailure::UnsupportedEngine));
    assert_eq!(run(true, "ffmpeg", &[ConvertEvent::Committed])[0].1, ConvertAction::Fail(ConvertFailure::OutOfOrder));
}

#[test]
fn verification_checks() {
    let c = verification_commands("ffmpeg", "/t.mp4").unwrap();
    assert_eq!(c.len(), 2);
    assert_eq!(c[0].0, "ffprobe");
    assert_eq!(c[0].1.last().unwrap(), "/t.mp4");
    assert_eq!(c[1].0, "ffmpeg");
    assert_eq!(c[1].1[6], "/t.mp4");
    let m = verification_commands("magick", "/t.png").unwrap();
    assert_eq!(m, vec![("magick".to_string(), vec!["identify".to_string(), "-quiet".to_string(), "/t.png".to_string()])]);
    assert!(verification_commands("gimp", "/t").is_none());
    assert!(is_probe_step("ffprobe"));
    assert!(!is_probe_step("ffmpeg"));
    assert!(check_passed(true, true, "duration=1\n"));
    assert!(!check_passed(true, true, " \n"));
    assert!(check_passed(false, true, ""));
    assert!(!check_passed(false, false, "x"));
    assert_eq!(check_failure_message("ffprobe", "/t.mp4"), "ffprobe не подтвердил результат: /t.mp4");
    assert_eq!(check_failure_message("ffmpeg", "/t.mp4"), "полное декодирование результата завершилось с ошибкой");
    assert_eq!(check_failure_message("magick", "/t.png"), "ImageMagick не подтвердил результат: /t.png");
}

#[test]
fn commit_names_and_size_passes() {
    assert_eq!(persist_next(false, 0, PersistOutcome::AlreadyExists), PersistAction::TryIndex(1));
    assert_eq!(persist_next(false, 9999, PersistOutcome::AlreadyExists), PersistAction::GiveUp);
    assert_eq!(persist_next(true, 0, PersistOutcome::AlreadyExists), PersistAction::Fail);
    assert_eq!(persist_next(false, 3, PersistOutcome::Saved), PersistAction::Done);
    assert_eq!(persist_next(false, 3, PersistOutcome::Failed), PersistAction::Fail);
    assert_eq!(target_step(1, false, 0, 10), TargetStep::Stop);
    assert_eq!(target_step(1, true, 10, 10), TargetStep::Accept);
    assert_eq!(target_step(4, true, 11, 10), TargetStep::Retry);
    assert_eq!(target_step(5, true, 11, 10), TargetStep::Exhausted);
    assert!(exceeds_target(11, 10));
    assert!(!exceeds_target(10, 10));
}

#[test]
fn hardware_markers_and_fallback() {
    let used = HardwareNote::Selected(HardwareBackend::Vaapi, "/dev/dri/renderD128".to_string());
    assert_eq!(hardware_used_line(&used, true), Some("HARDWARE_USED=VAAPI ENCODER=h264_vaapi".to_string()));
    assert_eq!(hardware_used_line(&used, false), None);
    let nv = HardwareNote::Selected(HardwareBackend::Nvenc, "nvidia:nvenc".to_string());
    assert_eq!(hardware_used_line(&nv, true), Some("HARDWARE_USED=NVENC ENCODER=h264_nvenc".to_string()));
    assert_eq!(hardware_used_line(&HardwareNote::Fallback(HardwareBackend::Nvenc), true), None);
    assert_eq!(used.log_line(), Some("HARDWARE=VAAPI selected DEVICE=/dev/dri/renderD128".to_string()));
    let config = Config::built_in();
    let nvenc = config.profiles.get("video_mp4_nvenc").unwrap();
    assert_eq!(fallback_retry_args(nvenc, &Vec::new()), nvenc.fallback_args);
    let mut target = nvenc.copied();
    target.target_size_mb = Some(50);
    let requested: Vec<String> = ["-b:v", "900k", "-maxrate", "900k", "-bufsize", "1800k", "-b:a", "128k"]
        .iter()
        .map(|s| s.to_string())
        .collect();
    let retry = fallback_retry_args(&target, &requested);
    assert!(retry.starts_with(&nvenc.fallback_args));
    assert!(retry.ends_with(&requested));
    assert!(is_render_node("/dev/dri/renderD128", true));
    assert!(!is_render_node("/dev/null", true));
    assert!(!is_render_node("/dev/dri/renderD128", false));
}
