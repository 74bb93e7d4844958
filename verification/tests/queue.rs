use media_studio::queue::{
    cancel_unit, enqueue_args, format_job_id, inherited_environment_args, is_conversion_unit,
    job_unit, queue_listing, queued_message, vaapi_environment_arg, CancelError, EnqueueRequest,
};

#[test]
fn queue_filter_excludes_watch_units() {
    assert!(is_conversion_unit("media-studio-123-456.service"));
    assert!(!is_conversion_unit("media-studio-watch-camera.service"));
}

#[test]
fn queue_vaapi_environment_argument_is_exact() {
    assert_eq!(
        vaapi_environment_arg(Some("/dev/dri/renderD128")),
        Some("--setenv=MEDIA_STUDIO_VAAPI_DEVICE=/dev/dri/renderD128".to_string())
    );
    assert_eq!(vaapi_environment_arg(None), None);
}

#[test]
fn queue_propagates_user_data_environment_keys() {
    let args = inherited_environment_args(Some("/home/u"), Some("/cfg"), None, Some("/state"));
    for (key, set) in [("HOME", true), ("XDG_CONFIG_HOME", true), ("XDG_DATA_HOME", false), ("XDG_STATE_HOME", true)] {
        if set {
            assert!(args.iter().any(|arg| arg.starts_with(&format!("--setenv={key}="))));
        }
    }
    assert_eq!(
        args,
        vec![
            "--setenv=HOME=/home/u".to_string(),
            "--setenv=XDG_CONFIG_HOME=/cfg".to_string(),
            "--setenv=XDG_STATE_HOME=/state".to_string(),
        ]
    );
}

fn request(files: Vec<String>) -> EnqueueRequest {
    EnqueueRequest {
        executable: "/bin/ms".to_string(),
        profile: "video_mp4".to_string(),
        target_size_mb: Some(400),
        hardware_fallback: true,
        vaapi_device: Some("/dev/dri/renderD128".to_string()),
        output_dir: None,
        overwrite: true,
        files,
    }
}

#[test]
fn systemd_run_command_line() {
    let env = vec!["--setenv=HOME=/h".to_string()];
    let args = enqueue_args(&request(vec!["/a.mkv".to_string()]), "1-2", &env).unwrap();
    let expected: Vec<String> = [
        "--user", "--collect", "--unit", "media-studio-1-2.service", "--description",
        "Media Studio conversion", "--nice", "5", "--no-block", "--quiet", "--setenv=HOME=/h",
        "--setenv=MEDIA_STUDIO_VAAPI_DEVICE=/dev/dri/renderD128", "/bin/ms", "run", "--job-id", "1-2",
        "--profile", "video_mp4", "--hardware-fallback", "true", "--target-size-mb", "400",
        "--overwrite", "--", "/a.mkv",
    ]
    .iter()
    .map(|s| s.to_string())
    .collect();
    assert_eq!(args, expected);
    let refused = enqueue_args(&request(Vec::new()), "1-2", &env).unwrap_err();
    assert_eq!(refused.message(), "в Dolphin ничего не выбрано. Выберите хотя бы один медиафайл.");
}

#[test]
fn made_job_ids_can_be_listed_and_cancelled() {
    let id = format_job_id(1_700_000_000_123, 4242);
    assert_eq!(id, "1700000000123-4242");
    let unit = job_unit(&id);
    assert_eq!(unit, "media-studio-1700000000123-4242.service");
    assert!(is_conversion_unit(&unit));
    assert_eq!(cancel_unit(&id).unwrap(), unit);
    assert_eq!(cancel_unit(&unit).unwrap(), unit);
    assert_eq!(queued_message(&id, 2), "Задача 1700000000123-4242 добавлена в очередь: 2 файл(ов)");
}

#[test]
fn watch_units_are_not_cancelled_as_jobs() {
    let e = cancel_unit("media-studio-watch-cam.service").unwrap_err();
    assert!(matches!(e, CancelError::WatchUnit));
    let bad = cancel_unit("../x").unwrap_err();
    assert!(matches!(bad, CancelError::InvalidJobId));
    assert!(!e.message().is_empty());
    assert!(!bad.message().is_empty());
}

#[test]
fn listing_keeps_only_job_units() {
    let units = "media-studio-1-2.service loaded active running Media Studio conversion\r\nmedia-studio-watch-cam.service loaded active running x\n  \nmedia-studio-3-4.service loaded inactive dead y";
    assert_eq!(
        queue_listing(units),
        "media-studio-1-2.service loaded active running Media Studio conversion\nmedia-studio-3-4.service loaded inactive dead y"
    );
    assert_eq!(queue_listing(""), "Очередь Media Studio пуста.");
}
