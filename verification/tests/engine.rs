use media_studio::engine::{
    check_tools, effective_audio_kbps, engine_kind, expanded_args, ffmpeg_args, hardware_device,
    hardware_diagnostics, magick_args, parse_encoder_listing, preserve_rate_flags, replace_placeholder,
    required_tool_names, select_hardware_args, target_args, target_bytes, temp_file_suffix,
    vaapi_device_candidate, EngineKind, HardwareNote, ToolError,
};
use media_studio::model::Config;
use media_studio::profiles::HardwareBackend;

fn strings(v: &[&str]) -> Vec<String> {
    v.iter().map(|s| s.to_string()).collect()
}

#[test]
fn encoder_listing_requires_exact_encoder_token() {
    let listing = " V..... h264_vaapi           H.264/AVC (VAAPI)\n V..... h264_nvenc           NVIDIA NVENC H.264 encoder";
    assert!(parse_encoder_listing(listing, "h264_vaapi"));
    assert!(parse_encoder_listing(listing, "h264_nvenc"));
    assert!(!parse_encoder_listing(listing, "h264"));
}

#[test]
fn placeholder_replacement_is_exact() {
    let args = vec![
        "-vaapi_device".to_string(),
        "{vaapi_device}".to_string(),
        "{vaapi_device}-suffix".to_string(),
    ];
    let replaced = replace_placeholder(&args, "{vaapi_device}", "/dev/dri/renderD129");
    assert_eq!(replaced[1], "/dev/dri/renderD129");
    assert_eq!(replaced[2], "{vaapi_device}-suffix");
}

#[test]
fn expanded_args_fill_input_and_output() {
    let args = strings(&["{input}", "-o", "x{output}y"]);
    assert_eq!(
        expanded_args(&args, "/in.mkv", "/out.mp4"),
        strings(&["/in.mkv", "-o", "x/out.mp4y"])
    );
}

#[test]
fn rate_flags_are_carried_to_fallback() {
    let base = strings(&["-c:v", "libx264"]);
    let requested = strings(&["-b:v", "900k", "-maxrate", "900k", "-bufsize", "1800k", "-b:a", "128k"]);
    assert_eq!(
        preserve_rate_flags(&base, &requested),
        strings(&["-c:v", "libx264", "-b:v", "900k", "-maxrate", "900k", "-bufsize", "1800k", "-b:a", "128k"])
    );
    let dangling = strings(&["-b:v"]);
    assert_eq!(preserve_rate_flags(&base, &dangling), base);
}

#[test]
fn target_args_replace_quality_and_rates() {
    let base = strings(&["-c:v", "libx264", "-crf", "23", "-b:v", "2M", "-b:a", "160k", "-movflags", "+faststart"]);
    assert_eq!(
        target_args(&base, "900", "128", "1800"),
        strings(&[
            "-c:v", "libx264", "-b:a", "128k", "-movflags", "+faststart", "-b:v", "900k",
            "-maxrate", "900k", "-bufsize", "1800k",
        ])
    );
}

#[test]
fn target_size_arithmetic() {
    assert_eq!(target_bytes(400), 400_000_000);
    assert_eq!(target_bytes(u64::MAX), u64::MAX);
    assert_eq!(effective_audio_kbps(0), 128);
    assert_eq!(effective_audio_kbps(96), 96);
}

#[test]
fn engine_names() {
    assert_eq!(engine_kind("ffmpeg"), Some(EngineKind::Ffmpeg));
    assert_eq!(engine_kind("magick"), Some(EngineKind::Magick));
    assert_eq!(engine_kind("gimp"), None);
    assert_eq!(temp_file_suffix("/tmp/a.mp4"), ".part.mp4");
    assert_eq!(temp_file_suffix("/tmp/noext"), ".part.tmp");
}

#[test]
fn ffmpeg_and_magick_command_lines() {
    let args = strings(&["-c:v", "libx264"]);
    let f = ffmpeg_args(4, "/in.mkv", "/tmp/t.mp4", &args);
    assert_eq!(&f[..6], &strings(&["-hide_banner", "-nostdin", "-y", "-loglevel", "error", "-i"])[..]);
    assert_eq!(f[6], "/in.mkv");
    assert_eq!(f.last().unwrap(), "/tmp/t.mp4");
    assert!(f.contains(&"4".to_string()));
    let m = magick_args("/in.png", "/tmp/t.webp", &strings(&["-quality", "82"]));
    assert_eq!(m, strings(&["/in.png", "-quality", "82", "/tmp/t.webp"]));
    let with_output = strings(&["{input}", "-resize", "10", "{output}"]);
    let m2 = magick_args("/in.png", "/tmp/t.png", &with_output);
    assert_eq!(m2, strings(&["/in.png", "-resize", "10", "/tmp/t.png"]));
}

#[test]
fn hardware_device_choice() {
    assert_eq!(
        hardware_device(HardwareBackend::Vaapi, Some("/dev/dri/renderD128".to_string()), true, true),
        Some("/dev/dri/renderD128".to_string())
    );
    assert_eq!(hardware_device(HardwareBackend::Vaapi, Some("/dev/x".to_string()), false, true), None);
    assert_eq!(hardware_device(HardwareBackend::Vaapi, None, true, true), None);
    assert_eq!(hardware_device(HardwareBackend::Nvenc, None, false, true), Some("nvidia:nvenc".to_string()));
    assert_eq!(hardware_device(HardwareBackend::Nvenc, None, true, false), None);
    assert_eq!(
        vaapi_device_candidate(None, Some("/dev/dri/renderD129".to_string()), Some("/dev/dri/renderD128".to_string())),
        Some("/dev/dri/renderD129".to_string())
    );
    assert_eq!(
        vaapi_device_candidate(Some("/e".to_string()), Some("/c".to_string()), None),
        Some("/e".to_string())
    );
    assert_eq!(
        hardware_diagnostics(Some("/dev/dri/renderD128"), true, false),
        strings(&["vaapi: OK (/dev/dri/renderD128)", "nvenc: MISSING (h264_nvenc unavailable)"])
    );
}

#[test]
fn hardware_selection_and_fallback() {
    let config = Config::built_in();
    let vaapi = config.profiles.get("video_mp4_vaapi").unwrap();
    let chosen = select_hardware_args(&config, vaapi, vaapi.args.clone(), Some("/dev/dri/renderD129".to_string()))
        .unwrap();
    assert!(chosen.args.contains(&"/dev/dri/renderD129".to_string()));
    assert!(matches!(chosen.note, HardwareNote::Selected(HardwareBackend::Vaapi, _)));
    let fallback = select_hardware_args(&config, vaapi, vaapi.args.clone(), None).unwrap();
    assert_eq!(fallback.args, vaapi.fallback_args);
    assert!(matches!(fallback.note, HardwareNote::Fallback(HardwareBackend::Vaapi)));
    let mut strict = Config::built_in();
    strict.hardware_fallback = false;
    let refused = select_hardware_args(&strict, vaapi, vaapi.args.clone(), None).unwrap_err();
    assert_eq!(
        refused.message(),
        "аппаратный профиль VAAPI недоступен: проверьте encoder и устройство; включите hardware_fallback или исправьте конфигурацию"
    );
    let soft = config.profiles.get("video_mp4").unwrap();
    let plain = select_hardware_args(&config, soft, soft.args.clone(), None).unwrap();
    assert!(matches!(plain.note, HardwareNote::Software));
    assert_eq!(plain.args, soft.args);
}

#[test]
fn tool_check_verdicts() {
    let config = Config::built_in();
    let mp4 = config.profiles.get("video_mp4").unwrap();
    let tools = required_tool_names(Some(mp4));
    assert_eq!(tools, strings(&["ffmpeg", "ffprobe", "systemd-run"]));
    assert_eq!(required_tool_names(None), strings(&["ffmpeg", "ffprobe", "systemd-run", "magick"]));
    let missing = check_tools(&tools, true, false, &vec![true, false, true]).unwrap_err();
    assert_eq!(
        missing.message(),
        "не найден обязательный инструмент `ffprobe`. Установите пакет и повторите запуск."
    );
    let no_dialog = check_tools(&tools, false, false, &vec![true, true, true]).unwrap_err();
    assert!(matches!(no_dialog, ToolError::NoDialog));
    assert_eq!(no_dialog.message(), "не найден zenity или kdialog для пользовательских окон");
    assert!(check_tools(&tools, false, true, &vec![true, true, true]).is_ok());
}

#[test]
fn render_node_discovery_picks_the_first_render_node() {
    let entries = vec![
        ("/dev/dri/renderD129".to_string(), true),
        ("/dev/dri/card0".to_string(), true),
        ("/dev/dri/renderD128".to_string(), false),
        ("/dev/dri/renderD130".to_string(), true),
    ];
    assert_eq!(media_studio::engine::pick_render_node(&entries), Some("/dev/dri/renderD129".to_string()));
    let none = vec![("/dev/dri/card0".to_string(), true), ("/dev/dri/renderD128".to_string(), false)];
    assert_eq!(media_studio::engine::pick_render_node(&none), None);
    assert_eq!(media_studio::pathname::file_name_of("/dev/dri/renderD128"), Some("renderD128".to_string()));
}
