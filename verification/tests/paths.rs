use media_studio::model::Config;
use media_studio::paths::{
    config_path, home_dir, installed_binary_path, job_log_path, job_status_path, job_status_text,
    legacy_service_menu_path, normalize_path_arg, output_path, percent_decode, persist_candidate,
    service_menu_dir, service_menu_paths, state_dir, systemd_user_dir, temp_path_for, valid_job_id,
    watch_service_path, watch_unit_name_of,
};

#[test]
fn file_url_is_decoded() {
    assert_eq!(normalize_path_arg("file:///tmp/with%20space.mkv"), "/tmp/with space.mkv");
}

#[test]
fn output_path_does_not_equal_input() {
    let config = Config::built_in();
    let profile = config.profiles.get("video_mp4").expect("profile");
    let input = "/tmp/example.mp4";
    let taken = |p: &str| std::path::Path::new(p).exists();
    assert_ne!(output_path(input, profile, None, false, taken), input);
}

#[test]
fn output_names_step_past_taken_ones() {
    let config = Config::built_in();
    let profile = config.profiles.get("video_mp4").unwrap();
    assert_eq!(output_path("/v/clip.mkv", profile, None, false, |_: &str| false), "/v/clip.mp4");
    assert_eq!(
        output_path("/v/clip.mkv", profile, Some("/out"), false, |_: &str| false),
        "/out/clip.mp4"
    );
    assert_eq!(
        output_path("/v/clip.mkv", profile, None, false, |p: &str| p == "/v/clip.mp4" || p == "/v/clip.converted-1.mp4"),
        "/v/clip.converted-2.mp4"
    );
    assert_eq!(output_path("/v/clip.mp4", profile, None, true, |_: &str| true), "/v/clip.converted-1.mp4");
    assert_eq!(
        output_path("/v/clip.mkv", profile, None, false, |_: &str| true),
        "/v/clip.converted-overflow.mp4"
    );
    let strip = config.profiles.get("strip_audio").unwrap();
    assert_eq!(output_path("/v/CLIP.MKV", strip, None, false, |_: &str| false), "/v/CLIP.mkv");
    assert_eq!(output_path("/v/a.mkv", strip, None, false, |p: &str| p == "/v/a.mkv"), "/v/a.no-audio-1.mkv");
}

#[test]
fn percent_decoding() {
    assert_eq!(percent_decode("a%41b"), "aAb");
    assert_eq!(percent_decode("%zz%4"), "%zz%4");
    assert_eq!(percent_decode("%D0%B2"), "в");
    assert_eq!(percent_decode("%FF"), "\u{FFFD}");
    assert_eq!(normalize_path_arg("file://localhost/a%20b"), "/a b");
    assert_eq!(normalize_path_arg("/plain%20name"), "/plain%20name");
}

#[test]
fn locations_under_home_and_xdg() {
    assert_eq!(home_dir(Some("/home/u"), Some("/cwd")), "/home/u");
    assert_eq!(home_dir(None, Some("/cwd")), "/cwd");
    assert_eq!(home_dir(None, None), ".");
    assert_eq!(config_path(None, "/home/u"), "/home/u/.config/media-studio/config.toml");
    assert_eq!(config_path(Some("/x"), "/home/u"), "/x/media-studio/config.toml");
    assert_eq!(state_dir(None, "/home/u"), "/home/u/.local/state/media-studio");
    assert_eq!(installed_binary_path("/home/u"), "/home/u/.local/bin/media-studio");
    let menus = service_menu_dir(None, "/home/u");
    assert_eq!(menus, "/home/u/.local/share/kio/servicemenus");
    assert_eq!(
        service_menu_paths(&menus),
        vec![
            "/home/u/.local/share/kio/servicemenus/media-studio-video.desktop".to_string(),
            "/home/u/.local/share/kio/servicemenus/media-studio-audio.desktop".to_string(),
            "/home/u/.local/share/kio/servicemenus/media-studio-image.desktop".to_string(),
        ]
    );
    assert_eq!(legacy_service_menu_path(&menus), "/home/u/.local/share/kio/servicemenus/media-studio.desktop");
    let units = systemd_user_dir(None, "/home/u");
    assert_eq!(units, "/home/u/.config/systemd/user");
    assert_eq!(watch_service_path(&units, "cam"), "/home/u/.config/systemd/user/media-studio-watch-cam.service");
    assert_eq!(watch_unit_name_of("cam"), "media-studio-watch-cam.service");
}

#[test]
fn job_files() {
    assert!(valid_job_id("123-456"));
    assert!(!valid_job_id(""));
    assert!(!valid_job_id("a/b"));
    assert!(!valid_job_id(&"1".repeat(97)));
    assert_eq!(job_log_path("/s", "1-2"), "/s/jobs/1-2.log");
    assert_eq!(job_status_path("/s", "1-2"), "/s/jobs/1-2.status");
    let details = vec![("profile".to_string(), "video_mp4".to_string()), ("ok".to_string(), "1".to_string())];
    assert_eq!(job_status_text("running", &details), "state=running\nprofile=video_mp4\nok=1\n");
    assert_eq!(temp_path_for("/s/jobs/1-2.status", 77), "/s/jobs/1-2.77.tmp");
}

#[test]
fn persist_names() {
    assert_eq!(persist_candidate("/o/a.mp4", 0), "/o/a.mp4");
    assert_eq!(persist_candidate("/o/a.mp4", 3), "/o/a-3.mp4");
    assert_eq!(persist_candidate("/o/noext", 1), "/o/noext-1.bin");
}

#[test]
fn results_never_replace_the_input() {
    let config = Config::built_in();
    let profile = config.profiles.get("video_mp4").unwrap();
    let input = "/v/x.converted-1.mp4";
    let out = output_path(input, profile, None, false, |p: &str| p != input);
    assert_eq!(out, "/v/x.converted-1.converted-overflow.mp4");
    assert_ne!(out, input);
    let again = output_path(input, profile, None, true, |_: &str| false);
    assert_eq!(again, "/v/x.converted-1.converted-1.mp4");
}

#[test]
fn file_urls_without_escapes_are_their_paths() {
    assert_eq!(normalize_path_arg("file:///tmp/Видео/a b.mkv"), "/tmp/Видео/a b.mkv");
    assert_eq!(percent_decode("plain — текст"), "plain — текст");
}
