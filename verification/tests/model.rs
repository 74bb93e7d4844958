use media_studio::builtin::make_profile;
use media_studio::model::{valid_watch_id, Config, ConfigError, WatchFolder, CURRENT_SCHEMA};
use media_studio::profiles::{HardwareBackend, ProfileMap};

fn folder(id: &str, profile: &str) -> WatchFolder {
    WatchFolder {
        id: id.to_string(),
        source: "/in".to_string(),
        destination: "/out".to_string(),
        profile: profile.to_string(),
        recursive: true,
        enabled: true,
        settle_seconds: 3,
    }
}

#[test]
fn built_in_config_is_valid() {
    let config = Config::built_in();
    config.validate().map_err(|e| e.message()).expect("built-in config must validate");
    assert!(config.profiles.len() >= 10);
}

#[test]
fn built_in_profiles_cover_requested_features() {
    let config = Config::built_in();
    assert_eq!(config.schema, CURRENT_SCHEMA);
    assert_eq!(config.profiles.get("video_mp4_400mb").unwrap().target_size_mb, Some(400));
    assert!(matches!(
        config.profiles.get("video_mp4_vaapi").unwrap().hardware,
        Some(HardwareBackend::Vaapi)
    ));
    assert!(matches!(
        config.profiles.get("video_mp4_nvenc").unwrap().hardware,
        Some(HardwareBackend::Nvenc)
    ));
    assert!(config
        .profiles
        .get("video_mp4_vaapi")
        .unwrap()
        .args
        .windows(2)
        .any(|pair| pair == ["-vaapi_device", "{vaapi_device}"]));
}

#[test]
fn watch_ids_are_safe_for_unit_names() {
    assert!(valid_watch_id("camera_01"));
    assert!(valid_watch_id("archive-2026"));
    assert!(!valid_watch_id("../escape"));
    assert!(!valid_watch_id("with space"));
    assert!(!valid_watch_id(""));
}

#[test]
fn watch_id_length_limit() {
    assert!(valid_watch_id(&"a".repeat(64)));
    assert!(!valid_watch_id(&"a".repeat(65)));
}

#[test]
fn every_validation_error_is_reported() {
    let mut c = Config::built_in();
    c.schema = 7;
    assert!(matches!(c.validate(), Err(ConfigError::UnsupportedSchema(7))));
    assert_eq!(c.validate().unwrap_err().message(), "неподдерживаемая версия конфигурации: 7");

    let mut c = Config::built_in();
    c.ffmpeg_threads = 0;
    assert_eq!(c.validate().unwrap_err().message(), "ffmpeg_threads должен быть больше нуля");

    let mut c = Config::built_in();
    c.default_profile = "nope".to_string();
    assert_eq!(c.validate().unwrap_err().message(), "default_profile не найден: nope");

    let mut c = Config::built_in();
    c.vaapi_device = Some("dev/dri".to_string());
    assert_eq!(c.validate().unwrap_err().message(), "vaapi_device должен быть абсолютным путём: dev/dri");

    let mut c = Config::built_in();
    c.profiles.insert(" ".to_string(), make_profile("L", "C", "ffmpeg", "mp4", "s", Vec::new()));
    assert_eq!(c.validate().unwrap_err().message(), "пустой идентификатор профиля");

    let mut c = Config::built_in();
    c.profiles.insert("a_blank".to_string(), make_profile("  ", "C", "ffmpeg", "mp4", "s", Vec::new()));
    assert_eq!(c.validate().unwrap_err().message(), "пустая метка профиля a_blank");

    let mut c = Config::built_in();
    c.profiles.insert("a_gimp".to_string(), make_profile("L", "C", "gimp", "png", "s", Vec::new()));
    assert_eq!(c.validate().unwrap_err().message(), "неподдерживаемый engine у профиля a_gimp: gimp");

    let mut c = Config::built_in();
    let mut p = make_profile("L", "C", "ffmpeg", "mp4", "s", Vec::new());
    p.target_size_mb = Some(0);
    c.profiles.insert("a_zero".to_string(), p);
    assert_eq!(c.validate().unwrap_err().message(), "target_size_mb должен быть больше нуля у профиля a_zero");

    let mut c = Config::built_in();
    c.watch_folders.push(folder("bad id", "video_mp4"));
    assert_eq!(c.validate().unwrap_err().message(), "некорректный id watch-folder: bad id");

    let mut c = Config::built_in();
    c.watch_folders.push(folder("cam", "missing"));
    assert_eq!(
        c.validate().unwrap_err().message(),
        "watch-folder cam ссылается на неизвестный профиль missing"
    );
}

#[test]
fn upgrade_keeps_user_profiles_and_adds_built_ins() {
    let mut c = Config::built_in();
    c.schema = 1;
    c.hardware_fallback = false;
    let mut profiles = ProfileMap::new();
    profiles.insert("video_mp4".to_string(), make_profile("Mine", "Видео", "ffmpeg", "mp4", "mine", Vec::new()));
    c.profiles = profiles;
    c.upgrade();
    assert_eq!(c.schema, CURRENT_SCHEMA);
    assert!(c.hardware_fallback);
    assert_eq!(c.profiles.get("video_mp4").unwrap().label, "Mine");
    assert!(c.profiles.get("image_webp").is_some());
    assert_eq!(c.profiles.len(), Config::built_in().profiles.len());
    let before = c.profiles.ids();
    c.upgrade();
    assert_eq!(c.profiles.ids(), before);
    assert!(c.validate().is_ok());
}

#[test]
fn load_without_a_file_gives_the_built_in_config() {
    let c = Config::load(None).unwrap();
    assert_eq!(c.default_profile, "video_mp4");
    assert_eq!(c.profiles.len(), Config::built_in().profiles.len());
    let mut old = Config::built_in();
    old.schema = 1;
    old.ffmpeg_threads = 0;
    assert_eq!(Config::load(Some(old)).unwrap_err().message(), "ffmpeg_threads должен быть больше нуля");
}

#[test]
fn watch_folder_edits() {
    let mut c = Config::built_in();
    c.upsert_watch_folder(folder("cam", "video_mp4"));
    c.upsert_watch_folder(folder("other", "audio_mp3"));
    c.upsert_watch_folder(folder("cam", "audio_opus"));
    assert_eq!(c.watch_folders.len(), 2);
    assert!(c.validate().is_ok());
    assert_eq!(c.watch_folders[0].id, "other");
    assert_eq!(c.watch_folders[1].profile, "audio_opus");
    assert_eq!(c.watch_folder_index("cam"), Some(1));
    assert_eq!(c.set_watch_enabled("cam", false), Some(1));
    assert!(!c.find_watch_folder("cam").unwrap().enabled);
    assert_eq!(c.set_watch_enabled("none", false), None);
    assert!(c.validate().is_ok());
    assert!(c.remove_watch_folder("cam"));
    assert!(!c.remove_watch_folder("cam"));
    assert!(c.validate().is_ok());
    assert_eq!(c.watch_folders.len(), 1);
    assert!(c.find_watch_folder("cam").is_none());
}

#[test]
fn profile_map_stays_sorted_and_reads_back_writes() {
    let mut m = ProfileMap::new();
    m.insert("b".to_string(), make_profile("B", "C", "ffmpeg", "mp4", "b", Vec::new()));
    m.insert("a".to_string(), make_profile("A", "C", "ffmpeg", "mp4", "a", Vec::new()));
    m.insert("b".to_string(), make_profile("B2", "C", "ffmpeg", "mp4", "b", Vec::new()));
    assert_eq!(m.ids(), vec!["a".to_string(), "b".to_string()]);
    assert_eq!(m.get("b").unwrap().label, "B2");
    assert!(m.contains_key("a"));
    assert!(!m.contains_key("c"));
    m.insert_if_absent("a".to_string(), make_profile("A2", "C", "ffmpeg", "mp4", "a", Vec::new()));
    assert_eq!(m.get("a").unwrap().label, "A");
}

#[test]
fn defaults_of_optional_fields() {
    assert!(media_studio::model::default_true());
    assert_eq!(media_studio::model::default_settle_seconds(), 3);
    assert_eq!(HardwareBackend::Vaapi.label(), "VAAPI");
    assert_eq!(HardwareBackend::Nvenc.label(), "NVENC");
}
