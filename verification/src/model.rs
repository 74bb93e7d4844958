//! The configuration: its schema, its checks, its upgrade from older
//! schemas, and the edits that watch-folder commands make to it.
use vstd::prelude::*;
use crate::builtin::{builtin_audio_flac, builtin_audio_mp3, builtin_audio_opus, builtin_extract_audio_opus, builtin_image_avif, builtin_image_jpeg, builtin_image_resize_1080, builtin_image_webp, builtin_profile_map, builtin_profiles, builtin_remux_mkv, builtin_strip_audio, builtin_video_mp4, builtin_video_mp4_400mb, builtin_video_mp4_h265, builtin_video_mp4_hq, builtin_video_mp4_max_400mb, builtin_video_mp4_nvenc, builtin_video_mp4_vaapi, builtin_video_webm_av1};
use crate::profiles::{entries_map, lemma_entries_map_at, sorted_entries, ProfileMap, ProfileView};
use crate::text::{
    all_ws, char_is_ascii_alnum, char_is_ws, chars_of, decimal, decimal_string, is_ascii_alnum,
    is_ws, owned, push_str, str_eq,
};

verus! {

/// The schema version that this program writes and accepts.
pub const CURRENT_SCHEMA: u32 = 2;

/// A directory whose media files are converted as they appear.
#[derive(Debug)]
pub struct WatchFolder {
    pub id: String,
    pub source: String,
    pub destination: String,
    pub profile: String,
    pub recursive: bool,
    pub enabled: bool,
    pub settle_seconds: u64,
}

pub struct WatchFolderView {
    pub id: Seq<char>,
    pub source: Seq<char>,
    pub destination: Seq<char>,
    pub profile: Seq<char>,
    pub recursive: bool,
    pub enabled: bool,
    pub settle_seconds: u64,
}

impl View for WatchFolder {
    type V = WatchFolderView;

    open spec fn view(&self) -> WatchFolderView {
        WatchFolderView {
            id: self.id@,
            source: self.source@,
            destination: self.destination@,
            profile: self.profile@,
            recursive: self.recursive,
            enabled: self.enabled,
            settle_seconds: self.settle_seconds,
        }
    }
}

impl WatchFolder {
    /// A field-by-field copy.
    pub fn copied(&self) -> (r: WatchFolder)
        ensures
            r@ == self@,
    {
        WatchFolder {
            id: self.id.clone(),
            source: self.source.clone(),
            destination: self.destination.clone(),
            profile: self.profile.clone(),
            recursive: self.recursive,
            enabled: self.enabled,
            settle_seconds: self.settle_seconds,
        }
    }
}

pub open spec fn folders_view(s: Seq<WatchFolder>) -> Seq<WatchFolderView> {
    s.map_values(|f: WatchFolder| f@)
}

/// The whole configuration.
#[derive(Debug)]
pub struct Config {
    pub schema: u32,
    pub default_profile: String,
    pub verify_results: bool,
    pub ffmpeg_threads: u32,
    pub hardware_fallback: bool,
    pub vaapi_device: Option<String>,
    pub profiles: ProfileMap,
    pub watch_folders: Vec<WatchFolder>,
}

/// What is wrong with a configuration.
#[derive(Debug)]
pub enum ConfigError {
    UnsupportedSchema(u32),
    ZeroThreads,
    UnknownDefaultProfile(String),
    RelativeVaapiDevice(String),
    EmptyProfileId,
    EmptyProfileLabel(String),
    UnsupportedEngine(String, String),
    ZeroTargetSize(String),
    InvalidWatchId(String),
    UnknownWatchProfile(String, String),
}

pub enum ConfigProblem {
    UnsupportedSchema(u32),
    ZeroThreads,
    UnknownDefaultProfile(Seq<char>),
    RelativeVaapiDevice(Seq<char>),
    EmptyProfileId,
    EmptyProfileLabel(Seq<char>),
    UnsupportedEngine(Seq<char>, Seq<char>),
    ZeroTargetSize(Seq<char>),
    InvalidWatchId(Seq<char>),
    UnknownWatchProfile(Seq<char>, Seq<char>),
}

impl View for ConfigError {
    type V = ConfigProblem;

    open spec fn view(&self) -> ConfigProblem {
        match self {
            ConfigError::UnsupportedSchema(s) => ConfigProblem::UnsupportedSchema(*s),
            ConfigError::ZeroThreads => ConfigProblem::ZeroThreads,
            ConfigError::UnknownDefaultProfile(p) => ConfigProblem::UnknownDefaultProfile(p@),
            ConfigError::RelativeVaapiDevice(d) => ConfigProblem::RelativeVaapiDevice(d@),
            ConfigError::EmptyProfileId => ConfigProblem::EmptyProfileId,
            ConfigError::EmptyProfileLabel(i) => ConfigProblem::EmptyProfileLabel(i@),
            ConfigError::UnsupportedEngine(i, e) => ConfigProblem::UnsupportedEngine(i@, e@),
            ConfigError::ZeroTargetSize(i) => ConfigProblem::ZeroTargetSize(i@),
            ConfigError::InvalidWatchId(i) => ConfigProblem::InvalidWatchId(i@),
            ConfigError::UnknownWatchProfile(i, p) => ConfigProblem::UnknownWatchProfile(i@, p@),
        }
    }
}

/// The text that reports a configuration problem.
pub open spec fn problem_message(p: ConfigProblem) -> Seq<char> {
    match p {
        ConfigProblem::UnsupportedSchema(s) => "неподдерживаемая версия конфигурации: "@ + decimal(
            s as nat,
        ),
        ConfigProblem::ZeroThreads => "ffmpeg_threads должен быть больше нуля"@,
        ConfigProblem::UnknownDefaultProfile(d) => "default_profile не найден: "@ + d,
        ConfigProblem::RelativeVaapiDevice(d) => "vaapi_device должен быть абсолютным путём: "@ + d,
        ConfigProblem::EmptyProfileId => "пустой идентификатор профиля"@,
        ConfigProblem::EmptyProfileLabel(i) => "пустая метка профиля "@ + i,
        ConfigProblem::UnsupportedEngine(i, e) => "неподдерживаемый engine у профиля "@ + i + ": "@
            + e,
        ConfigProblem::ZeroTargetSize(i) => "target_size_mb должен быть больше нуля у профиля "@ + i,
        ConfigProblem::InvalidWatchId(i) => "некорректный id watch-folder: "@ + i,
        ConfigProblem::UnknownWatchProfile(i, p) => "watch-folder "@ + i
            + " ссылается на неизвестный профиль "@ + p,
    }
}

impl ConfigError {
    /// The message shown to the user.
    pub fn message(&self) -> (r: String)
        ensures
            r@ == problem_message(self@),
    {
        match self {
            ConfigError::UnsupportedSchema(s) => {
                let mut r = owned("неподдерживаемая версия конфигурации: ");
                let n = decimal_string(*s as u64);
                push_str(&mut r, n.as_str());
                r
            },
            ConfigError::ZeroThreads => owned("ffmpeg_threads должен быть больше нуля"),
            ConfigError::UnknownDefaultProfile(d) => {
                let mut r = owned("default_profile не найден: ");
                push_str(&mut r, d.as_str());
                r
            },
            ConfigError::RelativeVaapiDevice(d) => {
                let mut r = owned("vaapi_device должен быть абсолютным путём: ");
                push_str(&mut r, d.as_str());
                r
            },
            ConfigError::EmptyProfileId => owned("пустой идентификатор профиля"),
            ConfigError::EmptyProfileLabel(i) => {
                let mut r = owned("пустая метка профиля ");
                push_str(&mut r, i.as_str());
                r
            },
            ConfigError::UnsupportedEngine(i, e) => {
                let mut r = owned("неподдерживаемый engine у профиля ");
                push_str(&mut r, i.as_str());
                push_str(&mut r, ": ");
                push_str(&mut r, e.as_str());
                r
            },
            ConfigError::ZeroTargetSize(i) => {
                let mut r = owned("target_size_mb должен быть больше нуля у профиля ");
                push_str(&mut r, i.as_str());
                r
            },
            ConfigError::InvalidWatchId(i) => {
                let mut r = owned("некорректный id watch-folder: ");
                push_str(&mut r, i.as_str());
                r
            },
            ConfigError::UnknownWatchProfile(i, p) => {
                let mut r = owned("watch-folder ");
                push_str(&mut r, i.as_str());
                push_str(&mut r, " ссылается на неизвестный профиль ");
                push_str(&mut r, p.as_str());
                r
            },
        }
    }
}

/// A character allowed in a watch-folder identifier.
pub open spec fn is_id_char(c: char) -> bool {
    is_ascii_alnum(c) || c == '-' || c == '_'
}

/// Identifiers of watch folders become parts of systemd unit names: one to
/// 64 characters, each an ASCII letter or digit, `-` or `_`.
pub open spec fn valid_watch_id_spec(id: Seq<char>) -> bool {
    &&& 0 < id.len() <= 64
    &&& forall|i: int| 0 <= i < id.len() ==> is_id_char(#[trigger] id[i])
}

/// Whether the identifier is one to `max` characters from `[A-Za-z0-9_-]`.
pub fn id_chars_within(id: &str, max: usize) -> (r: bool)
    ensures
        r == (0 < id@.len() <= max && forall|i: int| 0 <= i < id@.len() ==> is_id_char(
            #[trigger] id@[i],
        )),
{
    let cs = chars_of(id);
    if cs.len() == 0 || cs.len() > max {
        return false;
    }
    let mut i: usize = 0;
    while i < cs.len()
        invariant
            i <= cs.len(),
            cs@ == id@,
            forall|j: int| 0 <= j < i ==> is_id_char(#[trigger] cs@[j]),
        decreases cs.len() - i,
    {
        let c = cs[i];
        if !(char_is_ascii_alnum(c) || c == '-' || c == '_') {
            return false;
        }
        i = i + 1;
    }
    true
}

/// Whether a watch-folder identifier is safe for a unit name.
pub fn valid_watch_id(id: &str) -> (r: bool)
    ensures
        r == valid_watch_id_spec(id@),
{
    id_chars_within(id, 64)
}

/// Whether a string is empty or whitespace only (`s.trim().is_empty()`).
pub fn is_blank(s: &str) -> (r: bool)
    ensures
        r == all_ws(s@),
{
    let cs = chars_of(s);
    let mut i: usize = 0;
    while i < cs.len()
        invariant
            i <= cs.len(),
            cs@ == s@,
            forall|j: int| 0 <= j < i ==> is_ws(#[trigger] cs@[j]),
        decreases cs.len() - i,
    {
        if !char_is_ws(cs[i]) {
            return false;
        }
        i = i + 1;
    }
    true
}

/// The first problem of one profile, in the order the checks are made.
pub open spec fn profile_problem(id: Seq<char>, p: ProfileView) -> Option<ConfigProblem> {
    if all_ws(id) {
        Some(ConfigProblem::EmptyProfileId)
    } else if all_ws(p.label) {
        Some(ConfigProblem::EmptyProfileLabel(id))
    } else if !(p.engine == "ffmpeg"@ || p.engine == "magick"@) {
        Some(ConfigProblem::UnsupportedEngine(id, p.engine))
    } else if p.target_size_mb == Some(0u64) {
        Some(ConfigProblem::ZeroTargetSize(id))
    } else {
        None
    }
}

/// The first problem among the profiles from index `i` on.
pub open spec fn first_profile_problem(e: Seq<(Seq<char>, ProfileView)>, i: int) -> Option<
    ConfigProblem,
>
    decreases e.len() - i,
{
    if i < 0 || i >= e.len() {
        None
    } else {
        match profile_problem(e[i].0, e[i].1) {
            Some(p) => Some(p),
            None => first_profile_problem(e, i + 1),
        }
    }
}

/// The first problem of one watch folder.
pub open spec fn folder_problem(f: WatchFolderView, profiles: Map<Seq<char>, ProfileView>) -> Option<
    ConfigProblem,
> {
    if !valid_watch_id_spec(f.id) {
        Some(ConfigProblem::InvalidWatchId(f.id))
    } else if !profiles.contains_key(f.profile) {
        Some(ConfigProblem::UnknownWatchProfile(f.id, f.profile))
    } else {
        None
    }
}

/// The first problem among the watch folders from index `i` on.
pub open spec fn first_folder_problem(
    s: Seq<WatchFolderView>,
    profiles: Map<Seq<char>, ProfileView>,
    i: int,
) -> Option<ConfigProblem>
    decreases s.len() - i,
{
    if i < 0 || i >= s.len() {
        None
    } else {
        match folder_problem(s[i], profiles) {
            Some(p) => Some(p),
            None => first_folder_problem(s, profiles, i + 1),
        }
    }
}

/// The result of checking a configuration: the first problem found, checking
/// the schema, the thread count, the default profile, the VAAPI device path,
/// each profile in identifier order, then each watch folder in order.
pub open spec fn validate_spec(
    schema: u32,
    threads: u32,
    default_profile: Seq<char>,
    vaapi_device: Option<Seq<char>>,
    profiles: Seq<(Seq<char>, ProfileView)>,
    folders: Seq<WatchFolderView>,
) -> Result<(), ConfigProblem> {
    if schema != CURRENT_SCHEMA {
        Err(ConfigProblem::UnsupportedSchema(schema))
    } else if threads == 0 {
        Err(ConfigProblem::ZeroThreads)
    } else if !entries_map(profiles).contains_key(default_profile) {
        Err(ConfigProblem::UnknownDefaultProfile(default_profile))
    } else if vaapi_device is Some && !(vaapi_device->0.len() > 0 && vaapi_device->0[0] == '/') {
        Err(ConfigProblem::RelativeVaapiDevice(vaapi_device->0))
    } else {
        match first_profile_problem(profiles, 0) {
            Some(p) => Err(p),
            None => match first_folder_problem(folders, entries_map(profiles), 0) {
                Some(p) => Err(p),
                None => Ok(()),
            },
        }
    }
}

pub open spec fn opt_view(o: Option<String>) -> Option<Seq<char>> {
    match o {
        Some(s) => Some(s@),
        None => None,
    }
}

pub open spec fn validate_config(c: Config) -> Result<(), ConfigProblem> {
    validate_spec(
        c.schema,
        c.ffmpeg_threads,
        c.default_profile@,
        opt_view(c.vaapi_device),
        c.profiles@,
        folders_view(c.watch_folders@),
    )
}

/// Keeps the watch folders whose identifier differs from `id`, in order.
pub open spec fn without_id(s: Seq<WatchFolderView>, id: Seq<char>) -> Seq<WatchFolderView>
    decreases s.len(),
{
    if s.len() == 0 {
        s
    } else if s.last().id == id {
        without_id(s.drop_last(), id)
    } else {
        without_id(s.drop_last(), id).push(s.last())
    }
}

/// The index of the first watch folder with this identifier.
pub open spec fn first_with_id(s: Seq<WatchFolderView>, id: Seq<char>) -> Option<int> {
    if exists|i: int| 0 <= i < s.len() && #[trigger] s[i].id == id {
        Some(
            choose|i: int|
                0 <= i < s.len() && #[trigger] s[i].id == id && forall|j: int|
                    0 <= j < i ==> #[trigger] s[j].id != id,
        )
    } else {
        None
    }
}

proof fn lemma_first_with_id(s: Seq<WatchFolderView>, id: Seq<char>, i: int)
    requires
        0 <= i < s.len(),
        s[i].id == id,
        forall|j: int| 0 <= j < i ==> #[trigger] s[j].id != id,
    ensures
        first_with_id(s, id) == Some(i),
{
    let k = choose|k: int|
        0 <= k < s.len() && #[trigger] s[k].id == id && forall|j: int|
            0 <= j < k ==> #[trigger] s[j].id != id;
    assert(0 <= k < s.len() && s[k].id == id && forall|j: int| 0 <= j < k ==> #[trigger] s[j].id != id);
    if k < i {
    } else if k > i {
    }
}

/// The folder with an edited `enabled` flag.
pub open spec fn with_enabled(f: WatchFolderView, enabled: bool) -> WatchFolderView {
    WatchFolderView { enabled, ..f }
}

/// What `upgrade` makes of a configuration: one of the current schema is
/// kept as it is; an older one gets the current schema, hardware fallback,
/// and every built-in profile whose identifier it does not define, and keeps
/// the rest.
pub open spec fn upgrade_of(before: Config, after: Config) -> bool {
    if before.schema >= CURRENT_SCHEMA {
        after == before
    } else {
        &&& after.schema == CURRENT_SCHEMA
        &&& after.hardware_fallback
        &&& after.profiles.map() == builtin_profiles().union_prefer_right(before.profiles.map())
        &&& after.default_profile == before.default_profile
        &&& after.verify_results == before.verify_results
        &&& after.ffmpeg_threads == before.ffmpeg_threads
        &&& after.vaapi_device == before.vaapi_device
        &&& after.watch_folders == before.watch_folders
    }
}

/// Every built-in profile passes the profile checks.
proof fn lemma_builtin_profiles_pass()
    ensures
        forall|k: Seq<char>| #[trigger] builtin_profiles().contains_key(k) ==> profile_problem(
            k,
            builtin_profiles()[k],
        ) is None,
{
        reveal_strlit("video_mp4");
        reveal_strlit("Видео → MP4 (H.264)");
        assert(!crate::text::is_ws("video_mp4"@[0]) && !crate::text::is_ws("Видео → MP4 (H.264)"@[0]));
        assert(profile_problem("video_mp4"@, builtin_video_mp4()) is None);
        reveal_strlit("video_mp4_hq");
        reveal_strlit("Видео → MP4 (H.264 HQ)");
        assert(!crate::text::is_ws("video_mp4_hq"@[0]) && !crate::text::is_ws("Видео → MP4 (H.264 HQ)"@[0]));
        assert(profile_problem("video_mp4_hq"@, builtin_video_mp4_hq()) is None);
        reveal_strlit("video_mp4_h265");
        reveal_strlit("Видео → MP4 (H.265)");
        assert(!crate::text::is_ws("video_mp4_h265"@[0]) && !crate::text::is_ws("Видео → MP4 (H.265)"@[0]));
        assert(profile_problem("video_mp4_h265"@, builtin_video_mp4_h265()) is None);
        reveal_strlit("video_mp4_400mb");
        reveal_strlit("Видео → MP4 (до 400 МБ)");
        assert(!crate::text::is_ws("video_mp4_400mb"@[0]) && !crate::text::is_ws("Видео → MP4 (до 400 МБ)"@[0]));
        assert(profile_problem("video_mp4_400mb"@, builtin_video_mp4_400mb()) is None);
        reveal_strlit("video_mp4_max_400mb");
        reveal_strlit("Видео → MP4 (сильное сжатие, до 400 МБ)");
        assert(!crate::text::is_ws("video_mp4_max_400mb"@[0]) && !crate::text::is_ws("Видео → MP4 (сильное сжатие, до 400 МБ)"@[0]));
        assert(profile_problem("video_mp4_max_400mb"@, builtin_video_mp4_max_400mb()) is None);
        reveal_strlit("video_webm_av1");
        reveal_strlit("Видео → WebM (AV1/Opus)");
        assert(!crate::text::is_ws("video_webm_av1"@[0]) && !crate::text::is_ws("Видео → WebM (AV1/Opus)"@[0]));
        assert(profile_problem("video_webm_av1"@, builtin_video_webm_av1()) is None);
        reveal_strlit("video_mp4_vaapi");
        reveal_strlit("Видео → MP4 (VAAPI)");
        assert(!crate::text::is_ws("video_mp4_vaapi"@[0]) && !crate::text::is_ws("Видео → MP4 (VAAPI)"@[0]));
        assert(profile_problem("video_mp4_vaapi"@, builtin_video_mp4_vaapi()) is None);
        reveal_strlit("video_mp4_nvenc");
        reveal_strlit("Видео → MP4 (NVENC)");
        assert(!crate::text::is_ws("video_mp4_nvenc"@[0]) && !crate::text::is_ws("Видео → MP4 (NVENC)"@[0]));
        assert(profile_problem("video_mp4_nvenc"@, builtin_video_mp4_nvenc()) is None);
        reveal_strlit("audio_opus");
        reveal_strlit("Аудио → Opus");
        assert(!crate::text::is_ws("audio_opus"@[0]) && !crate::text::is_ws("Аудио → Opus"@[0]));
        assert(profile_problem("audio_opus"@, builtin_audio_opus()) is None);
        reveal_strlit("audio_mp3");
        reveal_strlit("Аудио → MP3");
        assert(!crate::text::is_ws("audio_mp3"@[0]) && !crate::text::is_ws("Аудио → MP3"@[0]));
        assert(profile_problem("audio_mp3"@, builtin_audio_mp3()) is None);
        reveal_strlit("audio_flac");
        reveal_strlit("Аудио → FLAC");
        assert(!crate::text::is_ws("audio_flac"@[0]) && !crate::text::is_ws("Аудио → FLAC"@[0]));
        assert(profile_problem("audio_flac"@, builtin_audio_flac()) is None);
        reveal_strlit("extract_audio_opus");
        reveal_strlit("Извлечь аудио → Opus");
        assert(!crate::text::is_ws("extract_audio_opus"@[0]) && !crate::text::is_ws("Извлечь аудио → Opus"@[0]));
        assert(profile_problem("extract_audio_opus"@, builtin_extract_audio_opus()) is None);
        reveal_strlit("remux_mkv");
        reveal_strlit("Контейнер → MKV (без перекодирования)");
        assert(!crate::text::is_ws("remux_mkv"@[0]) && !crate::text::is_ws("Контейнер → MKV (без перекодирования)"@[0]));
        assert(profile_problem("remux_mkv"@, builtin_remux_mkv()) is None);
        reveal_strlit("strip_audio");
        reveal_strlit("Видео без аудио");
        assert(!crate::text::is_ws("strip_audio"@[0]) && !crate::text::is_ws("Видео без аудио"@[0]));
        assert(profile_problem("strip_audio"@, builtin_strip_audio()) is None);
        reveal_strlit("image_webp");
        reveal_strlit("Изображение → WebP");
        assert(!crate::text::is_ws("image_webp"@[0]) && !crate::text::is_ws("Изображение → WebP"@[0]));
        assert(profile_problem("image_webp"@, builtin_image_webp()) is None);
        reveal_strlit("image_jpeg");
        reveal_strlit("Изображение → JPEG");
        assert(!crate::text::is_ws("image_jpeg"@[0]) && !crate::text::is_ws("Изображение → JPEG"@[0]));
        assert(profile_problem("image_jpeg"@, builtin_image_jpeg()) is None);
        reveal_strlit("image_avif");
        reveal_strlit("Изображение → AVIF");
        assert(!crate::text::is_ws("image_avif"@[0]) && !crate::text::is_ws("Изображение → AVIF"@[0]));
        assert(profile_problem("image_avif"@, builtin_image_avif()) is None);
        reveal_strlit("image_resize_1080");
        reveal_strlit("Изображение → максимум 1920×1080");
        assert(!crate::text::is_ws("image_resize_1080"@[0]) && !crate::text::is_ws("Изображение → максимум 1920×1080"@[0]));
        assert(profile_problem("image_resize_1080"@, builtin_image_resize_1080()) is None);
}

/// Sorted entries whose map is that of the built-in profiles have no
/// profile problem from index `i` on.
proof fn lemma_builtin_entries_pass(e: Seq<(Seq<char>, ProfileView)>, i: int)
    requires
        sorted_entries(e),
        entries_map(e) == builtin_profiles(),
        0 <= i,
    ensures
        first_profile_problem(e, i) is None,
    decreases e.len() - i,
{
    if i < e.len() {
        lemma_builtin_profiles_pass();
        lemma_entries_map_at(e, i);
        lemma_builtin_entries_pass(e, i + 1);
    }
}

impl Config {
    /// The built-in configuration: schema 2, `video_mp4` as default profile,
    /// result verification on, four ffmpeg threads, hardware fallback on, no
    /// VAAPI device, the built-in profiles and no watch folders.
    pub fn built_in() -> (c: Config)
        ensures
            c.schema == CURRENT_SCHEMA,
            c.default_profile@ == "video_mp4"@,
            c.verify_results,
            c.ffmpeg_threads == 4,
            c.hardware_fallback,
            c.vaapi_device is None,
            c.profiles.map() == builtin_profiles(),
            sorted_entries(c.profiles@),
            c.watch_folders@.len() == 0,
            validate_config(c) == Ok::<(), ConfigProblem>(()),
    {
        let c = Config {
            schema: CURRENT_SCHEMA,
            default_profile: owned("video_mp4"),
            verify_results: true,
            ffmpeg_threads: 4,
            hardware_fallback: true,
            vaapi_device: None,
            profiles: builtin_profile_map(),
            watch_folders: Vec::new(),
        };
        proof {
            use_type_invariant(&c.profiles);
            lemma_builtin_entries_pass(c.profiles@, 0);
            reveal_strlit("video_mp4");
            assert(builtin_profiles().contains_key("video_mp4"@));
        }
        c
    }

    /// A configuration as loaded: the built-in one where there is no file,
    /// else the parsed one, upgraded and then checked.
    pub fn load(parsed: Option<Config>) -> (r: Result<Config, ConfigError>)
        ensures
            parsed is None ==> (r matches Ok(c) && c.schema == CURRENT_SCHEMA
                && c.default_profile@ == "video_mp4"@ && c.verify_results && c.ffmpeg_threads == 4
                && c.hardware_fallback && c.vaapi_device is None && c.profiles.map()
                == builtin_profiles() && sorted_entries(c.profiles@) && c.watch_folders@.len() == 0
                && validate_config(c) == Ok::<(), ConfigProblem>(())),
            parsed matches Some(p) ==> match r {
                Ok(c) => upgrade_of(p, c) && validate_config(c) == Ok::<(), ConfigProblem>(()),
                Err(e) => exists|c: Config|
                    upgrade_of(p, c) && validate_config(c) == Err::<(), ConfigProblem>(e@),
            },
    {
        match parsed {
            None => Ok(Config::built_in()),
            Some(c) => {
                let mut c = c;
                c.upgrade();
                match c.validate() {
                    Ok(()) => Ok(c),
                    Err(e) => Err(e),
                }
            },
        }
    }

    /// Checks the configuration and reports its first problem.
    pub fn validate(&self) -> (r: Result<(), ConfigError>)
        ensures
            match r {
                Ok(()) => validate_config(*self) == Ok::<(), ConfigProblem>(()),
                Err(e) => validate_config(*self) == Err::<(), ConfigProblem>(e@),
            },
    {
        proof {
            use_type_invariant(&self.profiles);
        }
        if self.schema != CURRENT_SCHEMA {
            return Err(ConfigError::UnsupportedSchema(self.schema));
        }
        if self.ffmpeg_threads == 0 {
            return Err(ConfigError::ZeroThreads);
        }
        if !self.profiles.contains_key(self.default_profile.as_str()) {
            return Err(ConfigError::UnknownDefaultProfile(self.default_profile.clone()));
        }
        match &self.vaapi_device {
            Some(device) => {
                let cs = chars_of(device.as_str());
                if !(cs.len() > 0 && cs[0] == '/') {
                    return Err(ConfigError::RelativeVaapiDevice(device.clone()));
                }
            },
            None => {},
        }
        let ghost e = self.profiles@;
        let ghost rest = match first_folder_problem(
            folders_view(self.watch_folders@),
            self.profiles.map(),
            0,
        ) {
            Some(p) => Err(p),
            None => Ok(()),
        };
        assert(validate_config(*self) == match first_profile_problem(e, 0) {
            Some(p) => Err(p),
            None => rest,
        });
        let mut i: usize = 0;
        while i < self.profiles.len()
            invariant
                i <= e.len(),
                e == self.profiles@,
                validate_config(*self) == match first_profile_problem(e, 0) {
                    Some(p) => Err(p),
                    None => rest,
                },
                rest == match first_folder_problem(
                    folders_view(self.watch_folders@),
                    self.profiles.map(),
                    0,
                ) {
                    Some(p) => Err(p),
                    None => Ok::<(), ConfigProblem>(()),
                },
                first_profile_problem(e, 0) == first_profile_problem(e, i as int),
            decreases e.len() - i,
        {
            let id = self.profiles.key_at(i);
            let p = self.profiles.profile_at(i);
            if is_blank(id.as_str()) {
                return Err(ConfigError::EmptyProfileId);
            }
            if is_blank(p.label.as_str()) {
                return Err(ConfigError::EmptyProfileLabel(id.clone()));
            }
            if !(str_eq(p.engine.as_str(), "ffmpeg") || str_eq(p.engine.as_str(), "magick")) {
                return Err(ConfigError::UnsupportedEngine(id.clone(), p.engine.clone()));
            }
            match p.target_size_mb {
                Some(size) => {
                    if size == 0 {
                        return Err(ConfigError::ZeroTargetSize(id.clone()));
                    }
                },
                None => {},
            }
            i = i + 1;
        }
        let ghost fs = folders_view(self.watch_folders@);
        let mut j: usize = 0;
        while j < self.watch_folders.len()
            invariant
                j <= fs.len(),
                fs == folders_view(self.watch_folders@),
                validate_config(*self) == match first_folder_problem(fs, self.profiles.map(), 0) {
                    Some(p) => Err(p),
                    None => Ok::<(), ConfigProblem>(()),
                },
                first_folder_problem(fs, self.profiles.map(), 0) == first_folder_problem(
                    fs,
                    self.profiles.map(),
                    j as int,
                ),
            decreases fs.len() - j,
        {
            let folder = &self.watch_folders[j];
            if !valid_watch_id(folder.id.as_str()) {
                return Err(ConfigError::InvalidWatchId(folder.id.clone()));
            }
            if !self.profiles.contains_key(folder.profile.as_str()) {
                return Err(
                    ConfigError::UnknownWatchProfile(folder.id.clone(), folder.profile.clone()),
                );
            }
            j = j + 1;
        }
        Ok(())
    }

    /// Brings a configuration of an older schema up to date: built-in
    /// profiles that it lacks are added (its own profiles are kept as they
    /// are), hardware fallback is switched on and the schema is set to the
    /// current one. A configuration of the current or a later schema is left
    /// unchanged.
    pub fn upgrade(&mut self)
        ensures
            upgrade_of(*old(self), *final(self)),
    {
        if self.schema >= CURRENT_SCHEMA {
            return;
        }
        let defaults = Config::built_in();
        let ghost d = defaults.profiles@;
        let ghost start = self.profiles.map();
        let mut i: usize = 0;
        while i < defaults.profiles.len()
            invariant
                i <= d.len(),
                d == defaults.profiles@,
                sorted_entries(d),
                entries_map(d) == builtin_profiles(),
                self.profiles.map() == entries_map(d.take(i as int)).union_prefer_right(start),
                self.schema == old(self).schema,
                self.schema < CURRENT_SCHEMA,
                self.default_profile == old(self).default_profile,
                self.verify_results == old(self).verify_results,
                self.ffmpeg_threads == old(self).ffmpeg_threads,
                self.hardware_fallback == old(self).hardware_fallback,
                self.vaapi_device == old(self).vaapi_device,
                self.watch_folders == old(self).watch_folders,
                start == old(self).profiles.map(),
                defaults.vaapi_device is None,
            decreases d.len() - i,
        {
            let k = defaults.profiles.key_at(i).clone();
            let p = defaults.profiles.profile_at(i).copied();
            proof {
                lemma_entries_map_take_step(d, i as int);
            }
            let ghost before = self.profiles.map();
            self.profiles.insert_if_absent(k, p);
            proof {
                let a = entries_map(d.take(i as int));
                assert(!a.contains_key(d[i as int].0)) by {
                    lemma_take_lacks_later_key(d, i as int);
                }
                assert(self.profiles.map() =~= a.insert(d[i as int].0, d[i as int].1).union_prefer_right(start));
            }
            i = i + 1;
        }
        proof {
            assert(d.take(d.len() as int) =~= d);
        }
        self.hardware_fallback = true;
        if self.vaapi_device.is_none() {
            self.vaapi_device = defaults.vaapi_device;
        }
        self.schema = CURRENT_SCHEMA;
    }

    /// Replaces every watch folder with the identifier of `folder` by
    /// `folder`, added at the end.
    pub fn upsert_watch_folder(&mut self, folder: WatchFolder)
        ensures
            folders_view(final(self).watch_folders@) == without_id(
                folders_view(old(self).watch_folders@),
                folder@.id,
            ).push(folder@),
            final(self).profiles == old(self).profiles,
            final(self).schema == old(self).schema,
            final(self).default_profile == old(self).default_profile,
            final(self).verify_results == old(self).verify_results,
            final(self).ffmpeg_threads == old(self).ffmpeg_threads,
            final(self).hardware_fallback == old(self).hardware_fallback,
            final(self).vaapi_device == old(self).vaapi_device,
    {
        self.retain_other_ids(folder.id.as_str());
        self.watch_folders.push(folder);
        assert(folders_view(self.watch_folders@) =~= without_id(
            folders_view(old(self).watch_folders@),
            folder@.id,
        ).push(folder@));
    }

    /// Drops every watch folder with this identifier.
    fn retain_other_ids(&mut self, id: &str)
        ensures
            folders_view(final(self).watch_folders@) == without_id(
                folders_view(old(self).watch_folders@),
                id@,
            ),
            final(self).profiles == old(self).profiles,
            final(self).schema == old(self).schema,
            final(self).default_profile == old(self).default_profile,
            final(self).verify_results == old(self).verify_results,
            final(self).ffmpeg_threads == old(self).ffmpeg_threads,
            final(self).hardware_fallback == old(self).hardware_fallback,
            final(self).vaapi_device == old(self).vaapi_device,
    {
        let mut kept: Vec<WatchFolder> = Vec::new();
        let mut i: usize = 0;
        let ghost all = folders_view(self.watch_folders@);
        while i < self.watch_folders.len()
            invariant
                i <= self.watch_folders@.len(),
                all == folders_view(self.watch_folders@),
                self.watch_folders == old(self).watch_folders,
                folders_view(kept@) == without_id(all.take(i as int), id@),
            decreases self.watch_folders.len() - i,
        {
            let f = &self.watch_folders[i];
            assert(all.take(i + 1).drop_last() =~= all.take(i as int));
            if !str_eq(f.id.as_str(), id) {
                kept.push(f.copied());
                assert(folders_view(kept@) =~= without_id(all.take(i as int), id@).push(f@));
            }
            i = i + 1;
        }
        assert(all.take(i as int) =~= all);
        self.watch_folders = kept;
    }

    /// Removes the watch folders with this identifier; `false`, with nothing
    /// changed, where there is none.
    pub fn remove_watch_folder(&mut self, id: &str) -> (r: bool)
        ensures
            r == (first_with_id(folders_view(old(self).watch_folders@), id@) is Some),
            folders_view(final(self).watch_folders@) == without_id(
                folders_view(old(self).watch_folders@),
                id@,
            ),
            !r ==> final(self).watch_folders == old(self).watch_folders,
            final(self).profiles == old(self).profiles,
            final(self).schema == old(self).schema,
            final(self).default_profile == old(self).default_profile,
            final(self).verify_results == old(self).verify_results,
            final(self).ffmpeg_threads == old(self).ffmpeg_threads,
            final(self).hardware_fallback == old(self).hardware_fallback,
            final(self).vaapi_device == old(self).vaapi_device,
    {
        match self.watch_folder_index(id) {
            Some(_) => {
                self.retain_other_ids(id);
                true
            },
            None => {
                proof {
                    lemma_without_absent(folders_view(self.watch_folders@), id@);
                }
                false
            },
        }
    }

    /// The index of the first watch folder with this identifier.
    pub fn watch_folder_index(&self, id: &str) -> (r: Option<usize>)
        ensures
            match r {
                Some(i) => i < self.watch_folders@.len() && first_with_id(
                    folders_view(self.watch_folders@),
                    id@,
                ) == Some(i as int) && self.watch_folders@[i as int].id@ == id@,
                None => first_with_id(folders_view(self.watch_folders@), id@) is None,
            },
    {
        let ghost s = folders_view(self.watch_folders@);
        let mut i: usize = 0;
        while i < self.watch_folders.len()
            invariant
                i <= s.len(),
                s == folders_view(self.watch_folders@),
                forall|j: int| 0 <= j < i ==> #[trigger] s[j].id != id@,
            decreases s.len() - i,
        {
            if str_eq(self.watch_folders[i].id.as_str(), id) {
                proof {
                    lemma_first_with_id(s, id@, i as int);
                }
                return Some(i);
            }
            i = i + 1;
        }
        None
    }

    /// The first watch folder with this identifier.
    pub fn find_watch_folder(&self, id: &str) -> (r: Option<&WatchFolder>)
        ensures
            match r {
                Some(f) => f.id@ == id@ && exists|i: int|
                    first_with_id(folders_view(self.watch_folders@), id@) == Some(i) && f@
                        == folders_view(self.watch_folders@)[i],
                None => first_with_id(folders_view(self.watch_folders@), id@) is None,
            },
    {
        match self.watch_folder_index(id) {
            Some(i) => {
                let f = &self.watch_folders[i];
                assert(f@ == folders_view(self.watch_folders@)[i as int]);
                Some(f)
            },
            None => None,
        }
    }

    /// Sets the `enabled` flag of the first watch folder with this
    /// identifier and returns its index; `None`, with nothing changed, where
    /// there is none.
    pub fn set_watch_enabled(&mut self, id: &str, enabled: bool) -> (r: Option<usize>)
        ensures
            r.is_some() == (first_with_id(folders_view(old(self).watch_folders@), id@) is Some),
            match r {
                Some(i) => {
                    &&& first_with_id(folders_view(old(self).watch_folders@), id@) == Some(i as int)
                    &&& folders_view(final(self).watch_folders@) == folders_view(
                        old(self).watch_folders@,
                    ).update(
                        i as int,
                        with_enabled(folders_view(old(self).watch_folders@)[i as int], enabled),
                    )
                },
                None => final(self).watch_folders == old(self).watch_folders,
            },
            final(self).profiles == old(self).profiles,
            final(self).schema == old(self).schema,
            final(self).default_profile == old(self).default_profile,
            final(self).verify_results == old(self).verify_results,
            final(self).ffmpeg_threads == old(self).ffmpeg_threads,
            final(self).hardware_fallback == old(self).hardware_fallback,
            final(self).vaapi_device == old(self).vaapi_device,
    {
        match self.watch_folder_index(id) {
            Some(i) => {
                let mut f = self.watch_folders[i].copied();
                f.enabled = enabled;
                self.watch_folders.set(i, f);
                assert(folders_view(self.watch_folders@) =~= folders_view(
                    old(self).watch_folders@,
                ).update(
                    i as int,
                    with_enabled(folders_view(old(self).watch_folders@)[i as int], enabled),
                ));
                Some(i)
            },
            None => None,
        }
    }
}

proof fn lemma_without_absent(s: Seq<WatchFolderView>, id: Seq<char>)
    requires
        first_with_id(s, id) is None,
    ensures
        without_id(s, id) == s,
    decreases s.len(),
{
    if s.len() > 0 {
        assert(s[s.len() - 1].id != id);
        assert(first_with_id(s.drop_last(), id) is None) by {
            if exists|i: int| 0 <= i < s.drop_last().len() && #[trigger] s.drop_last()[i].id == id {
                let i = choose|i: int| 0 <= i < s.drop_last().len() && #[trigger] s.drop_last()[i].id == id;
                assert(s[i].id == id);
            }
        }
        lemma_without_absent(s.drop_last(), id);
        assert(s.drop_last().push(s.last()) =~= s);
    }
}

proof fn lemma_entries_map_take_step(d: Seq<(Seq<char>, ProfileView)>, i: int)
    requires
        sorted_entries(d),
        0 <= i < d.len(),
    ensures
        entries_map(d.take(i + 1)) == entries_map(d.take(i)).insert(d[i].0, d[i].1),
{
    let a = d.take(i);
    let b = d.take(i + 1);
    assert(sorted_entries(b));
    assert(sorted_entries(a));
    assert forall|k: Seq<char>| #[trigger] entries_map(b).contains_key(k) == entries_map(
        a,
    ).insert(d[i].0, d[i].1).contains_key(k) by {
        if crate::profiles::has_key(b, k) {
            let j = choose|j: int| 0 <= j < b.len() && #[trigger] b[j].0 == k;
            if j < i {
                assert(a[j].0 == k);
            }
        }
        if crate::profiles::has_key(a, k) {
            let j = choose|j: int| 0 <= j < a.len() && #[trigger] a[j].0 == k;
            assert(b[j].0 == k);
        }
        if k == d[i].0 {
            assert(b[i].0 == k);
        }
    }
    assert forall|k: Seq<char>| #[trigger] entries_map(b).contains_key(k) implies entries_map(b)[k]
        == entries_map(a).insert(d[i].0, d[i].1)[k] by {
        let j = choose|j: int| 0 <= j < b.len() && #[trigger] b[j].0 == k;
        crate::profiles::lemma_entries_map_at(b, j);
        if j < i {
            assert(a[j] == b[j]);
            crate::profiles::lemma_entries_map_at(a, j);
            if k == d[i].0 {
                crate::profiles::lemma_sorted_unique(b, j, i);
            }
        }
    }
    assert(entries_map(b) =~= entries_map(a).insert(d[i].0, d[i].1));
}

proof fn lemma_take_lacks_later_key(d: Seq<(Seq<char>, ProfileView)>, i: int)
    requires
        sorted_entries(d),
        0 <= i < d.len(),
    ensures
        !entries_map(d.take(i)).contains_key(d[i].0),
{
    if crate::profiles::has_key(d.take(i), d[i].0) {
        let j = choose|j: int| 0 <= j < d.take(i).len() && #[trigger] d.take(i)[j].0 == d[i].0;
        assert(d[j].0 == d[i].0);
        crate::profiles::lemma_sorted_unique(d, j, i);
    }
}

/// The default of `hardware_fallback` and of a watch folder's `recursive`
/// and `enabled`.
pub fn default_true() -> (r: bool)
    ensures
        r,
{
    true
}

/// The default settle time of a watch folder, in seconds.
pub fn default_settle_seconds() -> (r: u64)
    ensures
        r == 3,
{
    3
}

/// What `without_id` keeps: no folder with that identifier, every folder of
/// another identifier, and nothing else.
proof fn lemma_without_id(s: Seq<WatchFolderView>, id: Seq<char>)
    ensures
        forall|i: int| 0 <= i < without_id(s, id).len() ==> #[trigger] without_id(s, id)[i].id != id,
        forall|g: WatchFolderView| #[trigger] s.contains(g) && g.id != id ==> without_id(s, id).contains(g),
        forall|g: WatchFolderView| #[trigger] without_id(s, id).contains(g) ==> s.contains(g),
        without_id(s, id).len() <= s.len(),
    decreases s.len(),
{
    if s.len() > 0 {
        let t = s.drop_last();
        lemma_without_id(t, id);
        assert forall|g: WatchFolderView| #[trigger] s.contains(g) && g.id != id implies without_id(
            s,
            id,
        ).contains(g) by {
            let i = choose|i: int| 0 <= i < s.len() && s[i] == g;
            if i < s.len() - 1 {
                assert(t[i] == g);
                assert(t.contains(g));
                let w = without_id(t, id);
                let j = choose|j: int| 0 <= j < w.len() && w[j] == g;
                if s.last().id != id {
                    assert(w.push(s.last())[j] == g);
                }
            } else {
                assert(without_id(s, id).last() == g);
            }
        }
        assert forall|g: WatchFolderView| #[trigger] without_id(s, id).contains(g) implies s.contains(
            g,
        ) by {
            let w = without_id(t, id);
            let j = choose|j: int| 0 <= j < without_id(s, id).len() && without_id(s, id)[j] == g;
            if j < w.len() {
                assert(w[j] == g);
                assert(w.contains(g));
                let i = choose|i: int| 0 <= i < t.len() && t[i] == g;
                assert(s[i] == g);
            } else {
                assert(s[s.len() - 1] == g);
            }
        }
    }
}

/// After `upsert_watch_folder`, the added folder is the only one with its
/// identifier and comes last; every folder of another identifier is kept,
/// and no other folder appears.
pub proof fn upsert_leaves_one_folder_per_id(s: Seq<WatchFolderView>, f: WatchFolderView)
    ensures
        ({
            let r = without_id(s, f.id).push(f);
            &&& r.last() == f
            &&& forall|i: int| 0 <= i < r.len() - 1 ==> #[trigger] r[i].id != f.id
            &&& forall|g: WatchFolderView| #[trigger] s.contains(g) && g.id != f.id ==> r.contains(g)
            &&& forall|g: WatchFolderView| #[trigger] r.contains(g) ==> g == f || s.contains(g)
        }),
{
    lemma_without_id(s, f.id);
    let w = without_id(s, f.id);
    let r = w.push(f);
    assert forall|i: int| 0 <= i < r.len() - 1 implies #[trigger] r[i].id != f.id by {
        assert(r[i] == w[i]);
    }
    assert forall|g: WatchFolderView| #[trigger] s.contains(g) && g.id != f.id implies r.contains(g) by {
        let j = choose|j: int| 0 <= j < w.len() && w[j] == g;
        assert(r[j] == g);
    }
    assert forall|g: WatchFolderView| #[trigger] r.contains(g) implies g == f || s.contains(g) by {
        let j = choose|j: int| 0 <= j < r.len() && r[j] == g;
        if j < w.len() {
            assert(w[j] == g);
            assert(w.contains(g));
        }
    }
}

/// After `remove_watch_folder`, no folder has the identifier (so a second
/// removal finds none), every folder of another identifier is kept, and no
/// other folder appears.
pub proof fn remove_leaves_no_folder_with_id(s: Seq<WatchFolderView>, id: Seq<char>)
    ensures
        first_with_id(without_id(s, id), id) is None,
        forall|g: WatchFolderView| #[trigger] s.contains(g) && g.id != id ==> without_id(s, id).contains(g),
        forall|g: WatchFolderView| #[trigger] without_id(s, id).contains(g) ==> s.contains(g),
{
    lemma_without_id(s, id);
    let w = without_id(s, id);
    if exists|i: int| 0 <= i < w.len() && #[trigger] w[i].id == id {
        let i = choose|i: int| 0 <= i < w.len() && #[trigger] w[i].id == id;
        assert(w[i].id != id);
    }
}

/// Upgrading twice changes nothing more than upgrading once.
pub proof fn upgrade_is_idempotent(a: Config, b: Config, c: Config)
    requires
        upgrade_of(a, b),
        upgrade_of(b, c),
    ensures
        c == b,
{
}

/// An upgrade keeps every profile the configuration defines, as it is,
/// leaves the configuration at the current schema, and (from an older
/// schema) makes every built-in profile available.
pub proof fn upgrade_keeps_user_profiles(a: Config, b: Config)
    requires
        upgrade_of(a, b),
    ensures
        b.schema >= CURRENT_SCHEMA,
        forall|k: Seq<char>| #[trigger] a.profiles.map().contains_key(k) ==> b.profiles.map().contains_key(k)
            && b.profiles.map()[k] == a.profiles.map()[k],
        a.schema < CURRENT_SCHEMA ==> forall|k: Seq<char>| #[trigger] builtin_profiles().contains_key(k)
            ==> b.profiles.map().contains_key(k),
        b.watch_folders == a.watch_folders,
{
}

/// Where some folder has the identifier, a first one has it.
proof fn lemma_first_exists(s: Seq<WatchFolderView>, id: Seq<char>, j: int)
    requires
        0 <= j < s.len(),
        s[j].id == id,
    ensures
        exists|i: int|
            0 <= i < s.len() && #[trigger] s[i].id == id && forall|k: int|
                0 <= k < i ==> #[trigger] s[k].id != id,
    decreases j,
{
    if exists|k: int| 0 <= k < j && #[trigger] s[k].id == id {
        let k = choose|k: int| 0 <= k < j && #[trigger] s[k].id == id;
        lemma_first_exists(s, id, k);
    } else {
        assert(forall|k: int| 0 <= k < j ==> #[trigger] s[k].id != id);
    }
}

/// The index that `first_with_id` gives holds the first folder with the
/// identifier.
proof fn lemma_first_with_id_found(s: Seq<WatchFolderView>, id: Seq<char>)
    ensures
        first_with_id(s, id) matches Some(i) ==> 0 <= i < s.len() && s[i].id == id && forall|k: int|
            0 <= k < i ==> #[trigger] s[k].id != id,
{
    if exists|j: int| 0 <= j < s.len() && #[trigger] s[j].id == id {
        let j = choose|j: int| 0 <= j < s.len() && #[trigger] s[j].id == id;
        lemma_first_exists(s, id, j);
    }
}

/// `set_watch_enabled` changes nothing but the flag: the same folder is
/// found under the identifier afterwards, and setting the flag back gives
/// the folders as they were.
pub proof fn enabled_flag_round_trip(s: Seq<WatchFolderView>, id: Seq<char>, i: int, enabled: bool)
    requires
        first_with_id(s, id) == Some(i),
    ensures
        ({
            let t = s.update(i, with_enabled(s[i], enabled));
            &&& first_with_id(t, id) == Some(i)
            &&& t.update(i, with_enabled(t[i], s[i].enabled)) == s
        }),
{
    lemma_first_with_id_found(s, id);
    let t = s.update(i, with_enabled(s[i], enabled));
    assert forall|j: int| 0 <= j < i implies #[trigger] t[j].id != id by {
        assert(t[j] == s[j]);
    }
    lemma_first_with_id(t, id, i);
    assert(t.update(i, with_enabled(t[i], s[i].enabled)) =~= s);
}

proof fn lemma_folders_pass(s: Seq<WatchFolderView>, profiles: Map<Seq<char>, ProfileView>, i: int)
    requires
        0 <= i,
        forall|j: int| i <= j < s.len() ==> #[trigger] folder_problem(s[j], profiles) is None,
    ensures
        first_folder_problem(s, profiles, i) is None,
    decreases s.len() - i,
{
    if i < s.len() {
        lemma_folders_pass(s, profiles, i + 1);
    }
}

proof fn lemma_folders_passed(s: Seq<WatchFolderView>, profiles: Map<Seq<char>, ProfileView>, i: int)
    requires
        0 <= i,
        first_folder_problem(s, profiles, i) is None,
    ensures
        forall|j: int| i <= j < s.len() ==> #[trigger] folder_problem(s[j], profiles) is None,
    decreases s.len() - i,
{
    if i < s.len() {
        lemma_folders_passed(s, profiles, i + 1);
    }
}

/// Folders all of which pass the folder checks may stand in place of those
/// of a valid configuration.
proof fn lemma_valid_with_folders(
    schema: u32,
    threads: u32,
    default_profile: Seq<char>,
    vaapi_device: Option<Seq<char>>,
    profiles: Seq<(Seq<char>, ProfileView)>,
    folders: Seq<WatchFolderView>,
    other: Seq<WatchFolderView>,
)
    requires
        validate_spec(schema, threads, default_profile, vaapi_device, profiles, folders) is Ok,
        forall|j: int| 0 <= j < other.len() ==> #[trigger] folder_problem(other[j], entries_map(profiles)) is None,
    ensures
        validate_spec(schema, threads, default_profile, vaapi_device, profiles, other) is Ok,
{
    lemma_folders_pass(other, entries_map(profiles), 0);
}

/// Adding or replacing a watch folder that passes the folder checks keeps a
/// valid configuration valid.
pub proof fn upsert_keeps_config_valid(
    schema: u32,
    threads: u32,
    default_profile: Seq<char>,
    vaapi_device: Option<Seq<char>>,
    profiles: Seq<(Seq<char>, ProfileView)>,
    folders: Seq<WatchFolderView>,
    f: WatchFolderView,
)
    requires
        validate_spec(schema, threads, default_profile, vaapi_device, profiles, folders) is Ok,
        folder_problem(f, entries_map(profiles)) is None,
    ensures
        validate_spec(
            schema,
            threads,
            default_profile,
            vaapi_device,
            profiles,
            without_id(folders, f.id).push(f),
        ) is Ok,
{
    let m = entries_map(profiles);
    lemma_folders_passed(folders, m, 0);
    lemma_without_id(folders, f.id);
    let w = without_id(folders, f.id);
    let r = w.push(f);
    assert forall|j: int| 0 <= j < r.len() implies #[trigger] folder_problem(r[j], m) is None by {
        if j < w.len() {
            assert(r[j] == w[j]);
            assert(w.contains(w[j]));
            assert(folders.contains(w[j]));
            let k = choose|k: int| 0 <= k < folders.len() && folders[k] == w[j];
            assert(folder_problem(folders[k], m) is None);
        }
    }
    lemma_valid_with_folders(schema, threads, default_profile, vaapi_device, profiles, folders, r);
}

/// Removing watch folders keeps a valid configuration valid.
pub proof fn remove_keeps_config_valid(
    schema: u32,
    threads: u32,
    default_profile: Seq<char>,
    vaapi_device: Option<Seq<char>>,
    profiles: Seq<(Seq<char>, ProfileView)>,
    folders: Seq<WatchFolderView>,
    id: Seq<char>,
)
    requires
        validate_spec(schema, threads, default_profile, vaapi_device, profiles, folders) is Ok,
    ensures
        validate_spec(schema, threads, default_profile, vaapi_device, profiles, without_id(folders, id))
            is Ok,
{
    let m = entries_map(profiles);
    lemma_folders_passed(folders, m, 0);
    lemma_without_id(folders, id);
    let w = without_id(folders, id);
    assert forall|j: int| 0 <= j < w.len() implies #[trigger] folder_problem(w[j], m) is None by {
        assert(w.contains(w[j]));
        assert(folders.contains(w[j]));
        let k = choose|k: int| 0 <= k < folders.len() && folders[k] == w[j];
        assert(folder_problem(folders[k], m) is None);
    }
    lemma_valid_with_folders(schema, threads, default_profile, vaapi_device, profiles, folders, w);
}

/// Starting or stopping a watch folder keeps a valid configuration valid.
pub proof fn enabled_flag_keeps_config_valid(
    schema: u32,
    threads: u32,
    default_profile: Seq<char>,
    vaapi_device: Option<Seq<char>>,
    profiles: Seq<(Seq<char>, ProfileView)>,
    folders: Seq<WatchFolderView>,
    i: int,
    enabled: bool,
)
    requires
        validate_spec(schema, threads, default_profile, vaapi_device, profiles, folders) is Ok,
        0 <= i < folders.len(),
    ensures
        validate_spec(
            schema,
            threads,
            default_profile,
            vaapi_device,
            profiles,
            folders.update(i, with_enabled(folders[i], enabled)),
        ) is Ok,
{
    let m = entries_map(profiles);
    lemma_folders_passed(folders, m, 0);
    let u = folders.update(i, with_enabled(folders[i], enabled));
    assert forall|j: int| 0 <= j < u.len() implies #[trigger] folder_problem(u[j], m) is None by {
        assert(folder_problem(folders[j], m) is None);
    }
    lemma_valid_with_folders(schema, threads, default_profile, vaapi_device, profiles, folders, u);
}

} // verus!
