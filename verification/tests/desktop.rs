use media_studio::desktop::{
    desktop_quote, is_media_path, is_watch_unit_file_name, legacy_menu_names, service_menus,
    systemd_quote, watch_unit_text,
};
use media_studio::paths::watch_unit_name_of;

#[test]
fn menu_quotes_executable() {
    let menus = service_menus("/tmp/media studio");
    assert_eq!(menus.len(), 3);
    assert!(menus[0].contains("Exec=\"/tmp/media studio\" enqueue"));
    assert!(menus[0].contains("MimeType=video/*;"));
    assert!(menus[1].contains("MimeType=audio/*;"));
    assert!(menus[2].contains("MimeType=image/*;"));
    assert!(!menus[2].contains("video_mp4"));
    assert!(!menus[1].contains("image_webp"));
}

#[test]
fn watch_unit_quotes_binary_path() {
    assert_eq!(systemd_quote("/tmp/media studio/bin"), "\"/tmp/media studio/bin\"");
}

#[test]
fn quoting_escapes_backslash_and_quote() {
    assert_eq!(desktop_quote("/a\"b\\c"), "\"/a\\\"b\\\\c\"");
}

#[test]
fn menu_layout() {
    let menus = service_menus("/bin/ms");
    assert!(menus[1].starts_with("[Desktop Entry]\nType=Service\n"));
    assert!(menus[1].contains("\nActions=mp3;flac;opus;advanced;inspect;\n"));
    assert!(menus[1].contains(
        "\n[Desktop Action flac]\nName=Audio → FLAC\nName[ru]=Аудио → FLAC\nIcon=audio-x-generic\nExec=\"/bin/ms\" enqueue --profile audio_flac %F\n"
    ));
    assert!(menus[2].ends_with("Exec=\"/bin/ms\" inspect %F\n"));
}

#[test]
fn watch_unit_file() {
    assert_eq!(
        watch_unit_text("cam", "/home/u/.local/bin/media-studio", None),
        "[Unit]\nDescription=Media Studio watch-folder cam\nAfter=graphical-session.target\n\n[Service]\nExecStart=\"/home/u/.local/bin/media-studio\" watch-run --id cam\nRestart=always\nRestartSec=4\n\n[Install]\nWantedBy=default.target\n"
    );
    assert_eq!(
        watch_unit_text("cam", "/home/u/.local/bin/media-studio", Some("/dev/dri/renderD128")),
        "[Unit]\nDescription=Media Studio watch-folder cam\nAfter=graphical-session.target\n\n[Service]\nEnvironment=MEDIA_STUDIO_VAAPI_DEVICE=\"/dev/dri/renderD128\"\nExecStart=\"/home/u/.local/bin/media-studio\" watch-run --id cam\nRestart=always\nRestartSec=4\n\n[Install]\nWantedBy=default.target\n"
    );
    assert!(is_watch_unit_file_name(&watch_unit_name_of("cam")));
    assert!(!is_watch_unit_file_name("media-studio-1-2.service"));
    assert!(!is_watch_unit_file_name("media-studio-watch-cam.timer"));
}

#[test]
fn media_files() {
    assert!(is_media_path("/v/a.MKV"));
    assert!(is_media_path("/v/b.ogx"));
    assert!(!is_media_path("/v/c.txt"));
    assert!(!is_media_path("/v/mkv"));
    assert!(!is_media_path("/v/.mp4"));
    assert_eq!(legacy_menu_names().len(), 6);
    assert_eq!(legacy_menu_names()[0], "media-studio.desktop");
}
