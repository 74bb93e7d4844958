use media_studio::model::Config;
use media_studio::ui::{
    choose_advanced, headless_setting, kdialog_menu_args, notifications_enabled_for,
    parse_kdialog_choice, parse_target_size, parse_zenity_answer, split_at_char, yesno_answer,
    zenity_form_args, ChooseError, DialogBackend,
};

#[test]
fn headless_mode_always_disables_notifications() {
    assert!(!notifications_enabled_for(true, true, true));
    assert!(!notifications_enabled_for(true, true, false));
    assert!(!notifications_enabled_for(true, false, true));
}

#[test]
fn graphical_session_enables_notifications() {
    assert!(notifications_enabled_for(false, true, false));
    assert!(notifications_enabled_for(false, false, true));
}

#[test]
fn missing_graphical_session_disables_notifications() {
    assert!(!notifications_enabled_for(false, false, false));
}

#[test]
fn headless_values() {
    assert!(headless_setting(Some(" TRUE ")));
    assert!(headless_setting(Some("1")));
    assert!(headless_setting(Some("On")));
    assert!(headless_setting(Some("yes")));
    assert!(!headless_setting(Some("0")));
    assert!(!headless_setting(Some("")));
    assert!(!headless_setting(None));
}

#[test]
fn dialog_backend_choice() {
    assert_eq!(choose_advanced(true, true).unwrap(), DialogBackend::Zenity);
    assert_eq!(choose_advanced(false, true).unwrap(), DialogBackend::Kdialog);
    let e = choose_advanced(false, false).unwrap_err();
    assert!(matches!(e, ChooseError::NoBackend));
    assert_eq!(e.message(), "не найден рабочий dialog backend: установите zenity или kdialog");
    assert_eq!(ChooseError::Cancelled.message(), "Операция отменена: профиль не выбран.");
}

#[test]
fn zenity_form_lists_every_profile() {
    let config = Config::built_in();
    let args = zenity_form_args(&config);
    assert_eq!(args.len(), 21);
    assert_eq!(args[0], "--forms");
    assert_eq!(args[13], "--combo-values");
    let values: Vec<&str> = args[14].split('|').collect();
    assert_eq!(values.len(), config.profiles.len());
    assert_eq!(values[0], "audio_flac — Аудио / Аудио → FLAC");
}

#[test]
fn zenity_answer_is_read() {
    let config = Config::built_in();
    let s = parse_zenity_answer(&config, "video_mp4 — Видео / Видео → MP4 (H.264)| 400 |TRUE|false\n").unwrap();
    assert_eq!(s.profile, "video_mp4");
    assert_eq!(s.target_size_mb, Some(400));
    assert!(s.overwrite);
    assert!(!s.hardware_fallback);
    let short = parse_zenity_answer(&config, "audio_mp3").unwrap();
    assert_eq!(short.target_size_mb, None);
    assert!(!short.overwrite);
    assert!(short.hardware_fallback);
    let zero = parse_zenity_answer(&config, "audio_mp3|0|x").unwrap();
    assert_eq!(zero.target_size_mb, None);
    let e = parse_zenity_answer(&config, "nope — x|1").unwrap_err();
    assert_eq!(e.message(), "Диалог вернул неизвестный профиль: nope");
}

#[test]
fn kdialog_menu_and_answers() {
    let config = Config::built_in();
    let args = kdialog_menu_args(&config);
    assert_eq!(args.len(), 4 + 2 * config.profiles.len());
    assert_eq!(args[2], "--menu");
    assert_eq!(args[4], "audio_flac");
    assert_eq!(args[5], "Аудио — Аудио → FLAC");
    assert_eq!(parse_kdialog_choice(&config, " image_webp\n").unwrap(), "image_webp");
    assert!(matches!(parse_kdialog_choice(&config, "  "), Err(ChooseError::UnknownProfile(p)) if p.is_empty()));
    assert_eq!(parse_target_size(" 25\n"), Some(25));
    assert_eq!(parse_target_size("0"), None);
    assert_eq!(parse_target_size("x"), None);
    assert!(yesno_answer(Some(0)).unwrap());
    assert!(!yesno_answer(Some(1)).unwrap());
    let e = yesno_answer(None).unwrap_err();
    assert_eq!(e.message(), "Операция отменена пользователем.");
    assert!(yesno_answer(Some(2)).is_err());
}

#[test]
fn splitting_at_a_character() {
    assert_eq!(split_at_char("a|b||c", '|'), vec!["a", "b", "", "c"]);
    assert_eq!(split_at_char("", '|'), vec![""]);
}
