//! What the installer writes for the desktop: the Dolphin service menus, the
//! systemd user unit of a watch folder, and which files these tools handle.
use vstd::prelude::*;
use crate::pathname::{extension, stem_and_extension};
use crate::text::{
    ends_with, join_with, lower_seq, owned, push_str, replace_all, replace_all_str, starts_with,
    str_ends_with, str_lower, str_starts_with,
};

verus! {

/// One entry of a service menu.
#[derive(Debug)]
pub struct MenuAction {
    pub id: String,
    pub name: String,
    pub name_ru: String,
    pub icon: String,
    pub command: String,
}

pub struct MenuActionView {
    pub id: Seq<char>,
    pub name: Seq<char>,
    pub name_ru: Seq<char>,
    pub icon: Seq<char>,
    pub command: Seq<char>,
}

impl View for MenuAction {
    type V = MenuActionView;

    open spec fn view(&self) -> MenuActionView {
        MenuActionView {
            id: self.id@,
            name: self.name@,
            name_ru: self.name_ru@,
            icon: self.icon@,
            command: self.command@,
        }
    }
}

pub open spec fn action_view(
    id: Seq<char>,
    name: Seq<char>,
    name_ru: Seq<char>,
    icon: Seq<char>,
    command: Seq<char>,
) -> MenuActionView {
    MenuActionView { id, name, name_ru, icon, command }
}

pub open spec fn actions_view(v: Seq<MenuAction>) -> Seq<MenuActionView> {
    v.map_values(|a: MenuAction| a@)
}

fn menu_action(id: &str, name: &str, name_ru: &str, icon: &str, command: &str) -> (r: MenuAction)
    ensures
        r@ == action_view(id@, name@, name_ru@, icon@, command@),
{
    MenuAction {
        id: owned(id),
        name: owned(name),
        name_ru: owned(name_ru),
        icon: owned(icon),
        command: owned(command),
    }
}

/// The entries of the video menu.
pub open spec fn video_actions() -> Seq<MenuActionView> {
    seq![
        action_view("mp4"@, "Video → MP4 (H.264)"@, "Видео → MP4 (H.264)"@, "video-x-generic"@, "enqueue --profile video_mp4"@),
        action_view("mp4hq"@, "Video → MP4 (H.264 HQ)"@, "Видео → MP4 (H.264 HQ)"@, "video-x-generic"@, "enqueue --profile video_mp4_hq"@),
        action_view("h265"@, "Video → MP4 (H.265)"@, "Видео → MP4 (H.265)"@, "video-x-generic"@, "enqueue --profile video_mp4_h265"@),
        action_view("webm"@, "Video → WebM (AV1/Opus)"@, "Видео → WebM (AV1/Opus)"@, "video-x-generic"@, "enqueue --profile video_webm_av1"@),
        action_view("size400"@, "Video → MP4 (до 400 МБ)"@, "Видео → MP4 (до 400 МБ)"@, "video-x-generic"@, "enqueue --profile video_mp4_400mb"@),
        action_view("max400"@, "Video → MP4 (сильное сжатие, до 400 МБ)"@, "Видео → MP4 (сильное сжатие, до 400 МБ)"@, "video-x-generic"@, "enqueue --profile video_mp4_max_400mb"@),
        action_view("vaapi"@, "Video → MP4 (VAAPI)"@, "Видео → MP4 (VAAPI)"@, "video-x-generic"@, "enqueue --profile video_mp4_vaapi"@),
        action_view("nvenc"@, "Video → MP4 (NVENC)"@, "Видео → MP4 (NVENC)"@, "video-x-generic"@, "enqueue --profile video_mp4_nvenc"@),
        action_view("opus"@, "Extract audio → Opus"@, "Извлечь аудио → Opus"@, "audio-x-generic"@, "enqueue --profile extract_audio_opus"@),
        action_view("remux"@, "Container → MKV (no re-encode)"@, "Контейнер → MKV (без перекодирования)"@, "package-x-generic"@, "enqueue --profile remux_mkv"@),
        action_view("strip"@, "Video without audio"@, "Видео без аудио"@, "audio-volume-muted"@, "enqueue --profile strip_audio"@),
        action_view("advanced"@, "Advanced profile…"@, "Расширенный профиль…"@, "configure"@, "choose"@),
        action_view("inspect"@, "Inspect media"@, "Информация о медиафайле"@, "dialog-information"@, "inspect"@),
    ]
}

/// The entries of the audio menu.
pub open spec fn audio_actions() -> Seq<MenuActionView> {
    seq![
        action_view("mp3"@, "Audio → MP3"@, "Аудио → MP3"@, "audio-x-generic"@, "enqueue --profile audio_mp3"@),
        action_view("flac"@, "Audio → FLAC"@, "Аудио → FLAC"@, "audio-x-generic"@, "enqueue --profile audio_flac"@),
        action_view("opus"@, "Audio → Opus"@, "Аудио → Opus"@, "audio-x-generic"@, "enqueue --profile audio_opus"@),
        action_view("advanced"@, "Advanced profile…"@, "Расширенный профиль…"@, "configure"@, "choose"@),
        action_view("inspect"@, "Inspect media"@, "Информация о медиафайле"@, "dialog-information"@, "inspect"@),
    ]
}

/// The entries of the image menu.
pub open spec fn image_actions() -> Seq<MenuActionView> {
    seq![
        action_view("webp"@, "Image → WebP"@, "Изображение → WebP"@, "image-x-generic"@, "enqueue --profile image_webp"@),
        action_view("jpeg"@, "Image → JPEG"@, "Изображение → JPEG"@, "image-x-generic"@, "enqueue --profile image_jpeg"@),
        action_view("avif"@, "Image → AVIF"@, "Изображение → AVIF"@, "image-x-generic"@, "enqueue --profile image_avif"@),
        action_view("resize"@, "Image → maximum 1920×1080"@, "Изображение → максимум 1920×1080"@, "image-x-generic"@, "enqueue --profile image_resize_1080"@),
        action_view("advanced"@, "Advanced profile…"@, "Расширенный профиль…"@, "configure"@, "choose"@),
        action_view("inspect"@, "Inspect media"@, "Информация о медиафайле"@, "dialog-information"@, "inspect"@),
    ]
}

pub fn video_action_list() -> (r: Vec<MenuAction>)
    ensures
        actions_view(r@) == video_actions(),
{
    let mut r: Vec<MenuAction> = Vec::new();
    r.push(menu_action("mp4", "Video → MP4 (H.264)", "Видео → MP4 (H.264)", "video-x-generic", "enqueue --profile video_mp4"));
    r.push(menu_action("mp4hq", "Video → MP4 (H.264 HQ)", "Видео → MP4 (H.264 HQ)", "video-x-generic", "enqueue --profile video_mp4_hq"));
    r.push(menu_action("h265", "Video → MP4 (H.265)", "Видео → MP4 (H.265)", "video-x-generic", "enqueue --profile video_mp4_h265"));
    r.push(menu_action("webm", "Video → WebM (AV1/Opus)", "Видео → WebM (AV1/Opus)", "video-x-generic", "enqueue --profile video_webm_av1"));
    r.push(menu_action("size400", "Video → MP4 (до 400 МБ)", "Видео → MP4 (до 400 МБ)", "video-x-generic", "enqueue --profile video_mp4_400mb"));
    r.push(menu_action("max400", "Video → MP4 (сильное сжатие, до 400 МБ)", "Видео → MP4 (сильное сжатие, до 400 МБ)", "video-x-generic", "enqueue --profile video_mp4_max_400mb"));
    r.push(menu_action("vaapi", "Video → MP4 (VAAPI)", "Видео → MP4 (VAAPI)", "video-x-generic", "enqueue --profile video_mp4_vaapi"));
    r.push(menu_action("nvenc", "Video → MP4 (NVENC)", "Видео → MP4 (NVENC)", "video-x-generic", "enqueue --profile video_mp4_nvenc"));
    r.push(menu_action("opus", "Extract audio → Opus", "Извлечь аудио → Opus", "audio-x-generic", "enqueue --profile extract_audio_opus"));
    r.push(menu_action("remux", "Container → MKV (no re-encode)", "Контейнер → MKV (без перекодирования)", "package-x-generic", "enqueue --profile remux_mkv"));
    r.push(menu_action("strip", "Video without audio", "Видео без аудио", "audio-volume-muted", "enqueue --profile strip_audio"));
    r.push(menu_action("advanced", "Advanced profile…", "Расширенный профиль…", "configure", "choose"));
    r.push(menu_action("inspect", "Inspect media", "Информация о медиафайле", "dialog-information", "inspect"));
    assert(actions_view(r@) =~= video_actions());
    r
}

pub fn audio_action_list() -> (r: Vec<MenuAction>)
    ensures
        actions_view(r@) == audio_actions(),
{
    let mut r: Vec<MenuAction> = Vec::new();
    r.push(menu_action("mp3", "Audio → MP3", "Аудио → MP3", "audio-x-generic", "enqueue --profile audio_mp3"));
    r.push(menu_action("flac", "Audio → FLAC", "Аудио → FLAC", "audio-x-generic", "enqueue --profile audio_flac"));
    r.push(menu_action("opus", "Audio → Opus", "Аудио → Opus", "audio-x-generic", "enqueue --profile audio_opus"));
    r.push(menu_action("advanced", "Advanced profile…", "Расширенный профиль…", "configure", "choose"));
    r.push(menu_action("inspect", "Inspect media", "Информация о медиафайле", "dialog-information", "inspect"));
    assert(actions_view(r@) =~= audio_actions());
    r
}

pub fn image_action_list() -> (r: Vec<MenuAction>)
    ensures
        actions_view(r@) == image_actions(),
{
    let mut r: Vec<MenuAction> = Vec::new();
    r.push(menu_action("webp", "Image → WebP", "Изображение → WebP", "image-x-generic", "enqueue --profile image_webp"));
    r.push(menu_action("jpeg", "Image → JPEG", "Изображение → JPEG", "image-x-generic", "enqueue --profile image_jpeg"));
    r.push(menu_action("avif", "Image → AVIF", "Изображение → AVIF", "image-x-generic", "enqueue --profile image_avif"));
    r.push(menu_action("resize", "Image → maximum 1920×1080", "Изображение → максимум 1920×1080", "image-x-generic", "enqueue --profile image_resize_1080"));
    r.push(menu_action("advanced", "Advanced profile…", "Расширенный профиль…", "configure", "choose"));
    r.push(menu_action("inspect", "Inspect media", "Информация о медиафайле", "dialog-information", "inspect"));
    assert(actions_view(r@) =~= image_actions());
    r
}

/// A path in double quotes, with `\` and `"` escaped by a backslash, as the
/// `Exec=` lines of desktop files and systemd units read it.
pub open spec fn quote_spec(p: Seq<char>) -> Seq<char> {
    "\""@ + replace_all(replace_all(p, "\\"@, "\\\\"@), "\""@, "\\\""@) + "\""@
}

fn quoted(path: &str) -> (r: String)
    ensures
        r@ == quote_spec(path@),
{
    proof {
        reveal_strlit("\\");
        reveal_strlit("\"");
    }
    let a = replace_all_str(path, "\\", "\\\\");
    let b = replace_all_str(a.as_str(), "\"", "\\\"");
    let mut r = owned("\"");
    push_str(&mut r, b.as_str());
    push_str(&mut r, "\"");
    r
}

/// The executable as the `Exec=` line of a desktop file names it.
pub fn desktop_quote(path: &str) -> (r: String)
    ensures
        r@ == quote_spec(path@),
{
    quoted(path)
}

/// The binary as the `ExecStart=` line of a systemd unit names it.
pub fn systemd_quote(path: &str) -> (r: String)
    ensures
        r@ == quote_spec(path@),
{
    quoted(path)
}

pub open spec fn action_ids(acts: Seq<MenuActionView>) -> Seq<Seq<char>> {
    acts.map_values(|a: MenuActionView| a.id)
}

/// The `[Desktop Entry]` group of a service menu.
pub open spec fn menu_header(
    name: Seq<char>,
    name_ru: Seq<char>,
    mime_types: Seq<char>,
    ids: Seq<char>,
) -> Seq<char> {
    "[Desktop Entry]\nType=Service\nServiceTypes=KonqPopupMenu/Plugin\nX-KDE-ServiceTypes=KonqPopupMenu/Plugin\nName="@
        + name + "\nName[ru]="@ + name_ru + "\nMimeType="@ + mime_types + "\nActions="@ + ids
        + ";\nX-KDE-Submenu=Media Studio\nX-KDE-Submenu[ru]=Media Studio\nIcon=applications-multimedia\n"@
}

/// The `[Desktop Action ..]` group of one entry.
pub open spec fn action_block(exe: Seq<char>, a: MenuActionView) -> Seq<char> {
    "\n[Desktop Action "@ + a.id + "]\nName="@ + a.name + "\nName[ru]="@ + a.name_ru + "\nIcon="@
        + a.icon + "\nExec="@ + exe + " "@ + a.command + " %F\n"@
}

pub open spec fn action_blocks(exe: Seq<char>, acts: Seq<MenuActionView>) -> Seq<char>
    decreases acts.len(),
{
    if acts.len() == 0 {
        Seq::empty()
    } else {
        action_blocks(exe, acts.drop_last()) + action_block(exe, acts.last())
    }
}

/// A whole service menu file.
pub open spec fn service_menu_spec(
    executable: Seq<char>,
    name: Seq<char>,
    name_ru: Seq<char>,
    mime_types: Seq<char>,
    acts: Seq<MenuActionView>,
) -> Seq<char> {
    menu_header(name, name_ru, mime_types, join_with(action_ids(acts), ";"@)) + action_blocks(
        quote_spec(executable),
        acts,
    )
}

fn action_block_text(exe: &str, a: &MenuAction) -> (r: String)
    ensures
        r@ == action_block(exe@, a@),
{
    let mut r = owned("\n[Desktop Action ");
    push_str(&mut r, a.id.as_str());
    push_str(&mut r, "]\nName=");
    push_str(&mut r, a.name.as_str());
    push_str(&mut r, "\nName[ru]=");
    push_str(&mut r, a.name_ru.as_str());
    push_str(&mut r, "\nIcon=");
    push_str(&mut r, a.icon.as_str());
    push_str(&mut r, "\nExec=");
    push_str(&mut r, exe);
    push_str(&mut r, " ");
    push_str(&mut r, a.command.as_str());
    push_str(&mut r, " %F\n");
    r
}

/// The service menu for some media kind, whose entries run `executable`.
pub fn service_menu(
    executable: &str,
    name: &str,
    name_ru: &str,
    mime_types: &str,
    actions: &Vec<MenuAction>,
) -> (r: String)
    ensures
        r@ == service_menu_spec(executable@, name@, name_ru@, mime_types@, actions_view(actions@)),
{
    let ghost acts = actions_view(actions@);
    let exe = desktop_quote(executable);
    let mut ids = String::new();
    let mut i: usize = 0;
    while i < actions.len()
        invariant
            i <= actions.len(),
            acts == actions_view(actions@),
            ids@ == join_with(action_ids(acts).take(i as int), ";"@),
        decreases actions.len() - i,
    {
        if i > 0 {
            push_str(&mut ids, ";");
        }
        push_str(&mut ids, actions[i].id.as_str());
        proof {
            let c = action_ids(acts);
            assert(c.take(i + 1).drop_last() =~= c.take(i as int));
            assert(c.take(i + 1).last() == actions@[i as int].id@);
        }
        i = i + 1;
    }
    assert(action_ids(acts).take(i as int) =~= action_ids(acts));
    let mut out = owned(
        "[Desktop Entry]\nType=Service\nServiceTypes=KonqPopupMenu/Plugin\nX-KDE-ServiceTypes=KonqPopupMenu/Plugin\nName=",
    );
    push_str(&mut out, name);
    push_str(&mut out, "\nName[ru]=");
    push_str(&mut out, name_ru);
    push_str(&mut out, "\nMimeType=");
    push_str(&mut out, mime_types);
    push_str(&mut out, "\nActions=");
    push_str(&mut out, ids.as_str());
    push_str(
        &mut out,
        ";\nX-KDE-Submenu=Media Studio\nX-KDE-Submenu[ru]=Media Studio\nIcon=applications-multimedia\n",
    );
    let ghost head = out@;
    assert(head == menu_header(name@, name_ru@, mime_types@, ids@));
    let mut j: usize = 0;
    assert(acts.take(0) =~= Seq::<MenuActionView>::empty());
    assert(out@ =~= head + action_blocks(exe@, acts.take(0)));
    while j < actions.len()
        invariant
            j <= actions.len(),
            acts == actions_view(actions@),
            out@ == head + action_blocks(exe@, acts.take(j as int)),
        decreases actions.len() - j,
    {
        let a = &actions[j];
        let ghost before = out@;
        let block = action_block_text(exe.as_str(), a);
        push_str(&mut out, block.as_str());
        proof {
            assert(acts.take(j + 1).drop_last() =~= acts.take(j as int));
            assert(acts.take(j + 1).last() == a@);
            assert(action_blocks(exe@, acts.take(j + 1)) == action_blocks(exe@, acts.take(j as int))
                + action_block(exe@, a@));
            assert(out@ =~= head + action_blocks(exe@, acts.take(j + 1)));
        }
        j = j + 1;
    }
    assert(acts.take(j as int) =~= acts);
    out
}

/// The three service menus (video, audio, images) for `executable`.
pub open spec fn service_menus_spec(executable: Seq<char>) -> Seq<Seq<char>> {
    seq![
        service_menu_spec(
            executable,
            "Media Studio — Video"@,
            "Видео"@,
            "video/*;video/ogg;"@,
            video_actions(),
        ),
        service_menu_spec(
            executable,
            "Media Studio — Audio"@,
            "Аудио"@,
            "audio/*;application/ogg;application/x-ogg;audio/ogg;audio/opus;audio/x-opus+ogg;"@,
            audio_actions(),
        ),
        service_menu_spec(
            executable,
            "Media Studio — Images"@,
            "Изображения"@,
            "image/*;"@,
            image_actions(),
        ),
    ]
}

/// The contents of the three service menu files, in the order of
/// `service_menu_paths`.
pub fn service_menus(executable: &str) -> (r: Vec<String>)
    ensures
        r.deep_view() == service_menus_spec(executable@),
{
    let video = video_action_list();
    let audio = audio_action_list();
    let image = image_action_list();
    let mut r: Vec<String> = Vec::new();
    r.push(
        service_menu(executable, "Media Studio — Video", "Видео", "video/*;video/ogg;", &video),
    );
    r.push(
        service_menu(
            executable,
            "Media Studio — Audio",
            "Аудио",
            "audio/*;application/ogg;application/x-ogg;audio/ogg;audio/opus;audio/x-opus+ogg;",
            &audio,
        ),
    );
    r.push(service_menu(executable, "Media Studio — Images", "Изображения", "image/*;", &image));
    assert(r.deep_view() =~= service_menus_spec(executable@));
    r
}

/// The `Environment=` line that hands a configured VAAPI device to the
/// watch service, if there is one.
pub open spec fn vaapi_environment_line(device: Option<Seq<char>>) -> Seq<char> {
    match device {
        Some(d) => "Environment=MEDIA_STUDIO_VAAPI_DEVICE="@ + quote_spec(d) + "\n"@,
        None => Seq::empty(),
    }
}

/// The systemd user unit that runs a watch folder; a configured VAAPI device
/// is set in the service's environment, before `ExecStart=`.
pub open spec fn watch_unit_spec(
    folder_id: Seq<char>,
    binary: Seq<char>,
    vaapi_device: Option<Seq<char>>,
) -> Seq<char> {
    "[Unit]\nDescription=Media Studio watch-folder "@ + folder_id
        + "\nAfter=graphical-session.target\n\n[Service]\n"@ + vaapi_environment_line(vaapi_device)
        + "ExecStart="@ + quote_spec(binary) + " watch-run --id "@ + folder_id
        + "\nRestart=always\nRestartSec=4\n\n[Install]\nWantedBy=default.target\n"@
}

pub fn watch_unit_text(folder_id: &str, binary: &str, vaapi_device: Option<&str>) -> (r: String)
    ensures
        r@ == watch_unit_spec(folder_id@, binary@, crate::paths::opt_str(vaapi_device)),
{
    let quoted_binary = systemd_quote(binary);
    let mut r = owned("[Unit]\nDescription=Media Studio watch-folder ");
    push_str(&mut r, folder_id);
    push_str(&mut r, "\nAfter=graphical-session.target\n\n[Service]\n");
    let ghost head = r@;
    match vaapi_device {
        Some(d) => {
            push_str(&mut r, "Environment=MEDIA_STUDIO_VAAPI_DEVICE=");
            let quoted_device = systemd_quote(d);
            push_str(&mut r, quoted_device.as_str());
            push_str(&mut r, "\n");
        },
        None => {},
    }
    assert(r@ =~= head + vaapi_environment_line(crate::paths::opt_str(vaapi_device)));
    push_str(&mut r, "ExecStart=");
    push_str(&mut r, quoted_binary.as_str());
    push_str(&mut r, " watch-run --id ");
    push_str(&mut r, folder_id);
    push_str(&mut r, "\nRestart=always\nRestartSec=4\n\n[Install]\nWantedBy=default.target\n");
    r
}

/// The extensions (in lower case) of the files a watch folder picks up.
pub open spec fn media_extension(e: Seq<char>) -> bool {
    e == "3gp"@ || e == "avi"@ || e == "avif"@ || e == "flac"@ || e == "gif"@ || e == "jpeg"@
        || e == "jpg"@ || e == "m4a"@ || e == "mkv"@ || e == "mov"@ || e == "mp3"@ || e == "mp4"@
        || e == "ogg"@ || e == "ogv"@ || e == "ogx"@ || e == "opus"@ || e == "png"@ || e == "wav"@
        || e == "webm"@ || e == "webp"@ || e == "wmv"@
}

pub open spec fn is_media_path_spec(path: Seq<char>) -> bool {
    match extension(path) {
        Some(e) => media_extension(lower_seq(e)),
        None => false,
    }
}

fn is_media_extension(e: &str) -> (r: bool)
    ensures
        r == media_extension(e@),
{
    let names = [
        "3gp", "avi", "avif", "flac", "gif", "jpeg", "jpg", "m4a", "mkv", "mov", "mp3", "mp4",
        "ogg", "ogv", "ogx", "opus", "png", "wav", "webm", "webp", "wmv",
    ];
    let mut i: usize = 0;
    while i < names.len()
        invariant
            i <= names.len(),
            names@ == seq![
                "3gp", "avi", "avif", "flac", "gif", "jpeg", "jpg", "m4a", "mkv", "mov", "mp3",
                "mp4", "ogg", "ogv", "ogx", "opus", "png", "wav", "webm", "webp", "wmv",
            ],
            forall|j: int| 0 <= j < i ==> e@ != names@[j]@,
        decreases names.len() - i,
    {
        if crate::text::str_eq(e, names[i]) {
            return true;
        }
        i = i + 1;
    }
    false
}

/// Whether a watch folder picks up this file: its extension, in any ASCII
/// case, is one of the media extensions.
pub fn is_media_path(path: &str) -> (r: bool)
    ensures
        r == is_media_path_spec(path@),
{
    let (_, ext) = stem_and_extension(path);
    match ext {
        Some(e) => {
            let l = str_lower(e.as_str());
            is_media_extension(l.as_str())
        },
        None => false,
    }
}

/// Whether a file of the systemd user directory is the unit of a watch
/// folder.
pub open spec fn watch_unit_file_spec(name: Seq<char>) -> bool {
    starts_with(name, "media-studio-watch-"@) && ends_with(name, ".service"@)
}

pub fn is_watch_unit_file_name(name: &str) -> (r: bool)
    ensures
        r == watch_unit_file_spec(name@),
{
    str_starts_with(name, "media-studio-watch-") && str_ends_with(name, ".service")
}

/// The service menus of earlier releases, which the installer moves aside
/// into `disabled/` and the uninstaller puts back: the single menu of the
/// first releases and the menus of the scripts it replaced.
pub open spec fn legacy_menu_names_spec() -> Seq<Seq<char>> {
    seq![
        "media-studio.desktop"@,
        "compress-video-max-400mb.desktop"@,
        "compress-video-to-400mb.desktop"@,
        "compress-video-to-custom-size.desktop"@,
        "video-tools.desktop"@,
        "convert-audio-to-opus.desktop"@,
    ]
}

pub fn legacy_menu_names() -> (r: Vec<String>)
    ensures
        r.deep_view() == legacy_menu_names_spec(),
{
    let mut r: Vec<String> = Vec::new();
    r.push(owned("media-studio.desktop"));
    r.push(owned("compress-video-max-400mb.desktop"));
    r.push(owned("compress-video-to-400mb.desktop"));
    r.push(owned("compress-video-to-custom-size.desktop"));
    r.push(owned("video-tools.desktop"));
    r.push(owned("convert-audio-to-opus.desktop"));
    assert(r.deep_view() =~= legacy_menu_names_spec());
    r
}

/// Every unit that a watch folder installs is one that `uninstall` stops
/// and removes.
pub proof fn watch_units_are_uninstalled(id: Seq<char>)
    ensures
        watch_unit_file_spec(crate::paths::watch_unit_name(id)),
{
    reveal_strlit("media-studio-watch-");
    reveal_strlit(".service");
    let u = crate::paths::watch_unit_name(id);
    assert(u.take(19) =~= "media-studio-watch-"@);
    assert(u.skip(u.len() - 8) =~= ".service"@);
}

} // verus!
