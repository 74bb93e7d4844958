use media_studio::jobs::{
    check_job_id, core_tools, doctor_failure_message, doctor_missing, done_message,
    ensure_watch_id, failed_job_message, final_details, format_error, job_log_header,
    job_started_message, log_reports_fallback, partial_message, preflight_verdict, prepare_job,
    profile_list_line, require_profile, selected_profile, should_enqueue, watch_folder_line,
    watch_not_found_message, JobError, JobTally, PreflightError,
};
use media_studio::model::{Config, WatchFolder};

#[test]
fn profiles_are_required_by_name() {
    let config = Config::built_in();
    assert!(require_profile(&config, "video_mp4").is_ok());
    let e = require_profile(&config, "nope").unwrap_err();
    assert!(e.message().starts_with("неизвестный профиль `nope`. Доступны: audio_flac, audio_mp3, "));
    assert!(e.message().ends_with(", video_webm_av1"));
    let p = selected_profile(&config, "video_mp4", Some(50)).unwrap();
    assert_eq!(p.target_size_mb, Some(50));
    let q = selected_profile(&config, "video_mp4_400mb", None).unwrap();
    assert_eq!(q.target_size_mb, Some(400));
}

#[test]
fn job_preparation_errors() {
    let config = Config::built_in();
    assert!(check_job_id("1-2").is_ok());
    let bad = check_job_id("../1").unwrap_err();
    assert!(matches!(bad, JobError::InvalidJobId));
    assert_eq!(bad.message(), "некорректный идентификатор задачи");
    let none = prepare_job(&config, "1-2", "video_mp4", 0, None).unwrap_err();
    assert_eq!(none.message(), "задача 1-2 не содержит входных файлов");
    let unknown = prepare_job(&config, "1-2", "nope", 0, None).unwrap_err();
    assert!(matches!(unknown, JobError::UnknownProfile(_)));
    let ok = prepare_job(&config, "1-2", "audio_mp3", 2, Some(9)).unwrap();
    assert_eq!(ok.target_size_mb, Some(9));
}

#[test]
fn job_outcome_and_reports() {
    let mut t = JobTally::new();
    assert_eq!(t.state(), "completed");
    t.record_success("/o/a.mp4");
    t.record_success("/o/b.mp4");
    assert_eq!(t.first_output.as_deref(), Some("/o/a.mp4"));
    assert_eq!(t.state(), "completed");
    assert_eq!(
        done_message(&t, "Видео → MP4 (H.264)", true, "/s/jobs/1-2.log"),
        "Видео → MP4 (H.264): обработано 2 файл(ов). Первый результат: /o/a.mp4. Аппаратное ускорение недоступно, использован software fallback. Лог: /s/jobs/1-2.log"
    );
    t.record_failure();
    assert_eq!(t.state(), "partial");
    assert_eq!(partial_message(&t, "/l"), "Успешно: 2, ошибок: 1. Подробности: /l");
    assert_eq!(failed_job_message(&t), "задача завершена с ошибками: успешно 2, ошибок 1");
    let details = final_details(&t, "video_mp4", "/l", false);
    assert_eq!(details[1], ("ok".to_string(), "2".to_string()));
    assert_eq!(details[4], ("hardware_fallback".to_string(), "false".to_string()));
    let mut f = JobTally::new();
    f.record_failure();
    assert_eq!(f.state(), "failed");
    assert_eq!(done_message(&JobTally::new(), "L", false, "/l"), "L: обработано 0 файл(ов). Лог: /l");
    assert_eq!(job_log_header("1-2", "video_mp4", "L"), "JOB_ID=1-2\nPROFILE=video_mp4\nLABEL=L\n");
    assert_eq!(job_started_message("1-2", "L"), "Запущена задача 1-2: L");
    assert!(log_reports_fallback("x\nHARDWARE_FALLBACK=software AFTER_STATUS=1\n"));
    assert!(!log_reports_fallback("HARDWARE=VAAPI selected"));
}

#[test]
fn watch_decisions_and_lines() {
    assert!(ensure_watch_id("cam").is_ok());
    let e = ensure_watch_id("a b").unwrap_err();
    assert!(e.message().starts_with("id watch-folder должен содержать только"));
    assert_eq!(watch_not_found_message("cam"), "watch-folder не найден: cam");
    let f = WatchFolder {
        id: "cam".to_string(),
        source: "/in".to_string(),
        destination: "/out".to_string(),
        profile: "video_mp4".to_string(),
        recursive: false,
        enabled: true,
        settle_seconds: 3,
    };
    assert_eq!(watch_folder_line(&f), "cam\t/in -> /out\tprofile=video_mp4\tenabled=true\trecursive=false");
    let config = Config::built_in();
    assert_eq!(
        profile_list_line("image_webp", config.profiles.get("image_webp").unwrap()),
        "image_webp\tИзображения\tИзображение → WebP\tengine=magick\text=.webp"
    );
    assert!(should_enqueue(false, 3, 3, false));
    assert!(!should_enqueue(false, 2, 3, false));
    assert!(!should_enqueue(true, 10, 3, false));
    assert!(!should_enqueue(false, 10, 3, true));
}

#[test]
fn install_preflight() {
    let tools = core_tools();
    assert_eq!(tools.len(), 5);
    let missing = preflight_verdict(&tools, &vec![true, false, true, true, false], true, true).unwrap_err();
    assert!(matches!(&missing, PreflightError::Missing(m) if m.len() == 2));
    assert_eq!(missing.message(), "нельзя установить Media Studio: отсутствуют ffprobe, kbuildsycoca6");
    let no_dialog = preflight_verdict(&tools, &vec![true; 5], false, false).unwrap_err();
    assert_eq!(
        no_dialog.message(),
        "нельзя установить Media Studio: нужен zenity или kdialog для расширенного меню"
    );
    assert!(preflight_verdict(&tools, &vec![true; 5], false, true).is_ok());
    let report = doctor_missing(&tools, &vec![false, true, true, true, true], false);
    assert_eq!(report, vec!["ffmpeg".to_string(), "zenity|kdialog".to_string()]);
    assert_eq!(doctor_failure_message(&report), "не хватает обязательных инструментов: ffmpeg, zenity|kdialog");
}

#[test]
fn long_errors_are_cut() {
    assert_eq!(format_error("short"), "short");
    let long = "x".repeat(1300);
    let cut = format_error(&long);
    assert_eq!(cut.len(), 1200 + '…'.len_utf8());
    assert!(cut.ends_with('…'));
    let exact = "я".repeat(600);
    assert_eq!(format_error(&exact), exact);
    let cyr = "я".repeat(700);
    assert_eq!(format_error(&cyr), format!("{}…", "я".repeat(600)));
}

#[test]
fn a_job_completes_only_without_failures() {
    let mut t = JobTally::new();
    assert!(t.completed());
    t.record_success("/out/a.mp4");
    assert!(t.completed());
    assert_eq!(t.state(), "completed");
    t.record_failure();
    assert!(!t.completed());
    assert_eq!(t.state(), "partial");
    let mut f = JobTally::new();
    f.record_failure();
    assert!(!f.completed());
    assert_eq!(f.state(), "failed");
}
