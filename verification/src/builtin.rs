//! The profiles that ship with the program.
use vstd::prelude::*;
use crate::profiles::{HardwareBackend, Profile, ProfileMap, ProfileView};
use crate::text::owned;

verus! {
/// The arguments of the built-in `video_mp4` profile.
pub open spec fn args_video_mp4() -> Seq<Seq<char>> {
    seq!["-map"@, "0:v:0"@, "-map"@, "0:a?"@, "-map_metadata"@, "0"@, "-sn"@, "-dn"@, "-c:v"@, "libx264"@, "-preset"@, "medium"@, "-crf"@, "23"@, "-pix_fmt"@, "yuv420p"@, "-c:a"@, "aac"@, "-b:a"@, "160k"@, "-movflags"@, "+faststart"@]
}
fn make_args_video_mp4() -> (r: Vec<String>)
    ensures
        r.deep_view() == args_video_mp4(),
{
    let mut r: Vec<String> = Vec::new();
    r.push(owned("-map"));
    r.push(owned("0:v:0"));
    r.push(owned("-map"));
    r.push(owned("0:a?"));
    r.push(owned("-map_metadata"));
    r.push(owned("0"));
    r.push(owned("-sn"));
    r.push(owned("-dn"));
    r.push(owned("-c:v"));
    r.push(owned("libx264"));
    r.push(owned("-preset"));
    r.push(owned("medium"));
    r.push(owned("-crf"));
    r.push(owned("23"));
    r.push(owned("-pix_fmt"));
    r.push(owned("yuv420p"));
    r.push(owned("-c:a"));
    r.push(owned("aac"));
    r.push(owned("-b:a"));
    r.push(owned("160k"));
    r.push(owned("-movflags"));
    r.push(owned("+faststart"));
    assert(r.deep_view() =~= args_video_mp4());
    r
}
/// The arguments of the built-in `video_mp4_hq` profile.
pub open spec fn args_video_mp4_hq() -> Seq<Seq<char>> {
    seq!["-map"@, "0:v:0"@, "-map"@, "0:a?"@, "-map_metadata"@, "0"@, "-sn"@, "-dn"@, "-c:v"@, "libx264"@, "-preset"@, "slow"@, "-crf"@, "18"@, "-pix_fmt"@, "yuv420p"@, "-c:a"@, "aac"@, "-b:a"@, "192k"@, "-movflags"@, "+faststart"@]
}
fn make_args_video_mp4_hq() -> (r: Vec<String>)
    ensures
        r.deep_view() == args_video_mp4_hq(),
{
    let mut r: Vec<String> = Vec::new();
    r.push(owned("-map"));
    r.push(owned("0:v:0"));
    r.push(owned("-map"));
    r.push(owned("0:a?"));
    r.push(owned("-map_metadata"));
    r.push(owned("0"));
    r.push(owned("-sn"));
    r.push(owned("-dn"));
    r.push(owned("-c:v"));
    r.push(owned("libx264"));
    r.push(owned("-preset"));
    r.push(owned("slow"));
    r.push(owned("-crf"));
    r.push(owned("18"));
    r.push(owned("-pix_fmt"));
    r.push(owned("yuv420p"));
    r.push(owned("-c:a"));
    r.push(owned("aac"));
    r.push(owned("-b:a"));
    r.push(owned("192k"));
    r.push(owned("-movflags"));
    r.push(owned("+faststart"));
    assert(r.deep_view() =~= args_video_mp4_hq());
    r
}
/// The arguments of the built-in `video_mp4_h265` profile.
pub open spec fn args_video_mp4_h265() -> Seq<Seq<char>> {
    seq!["-map"@, "0:v:0"@, "-map"@, "0:a?"@, "-map_metadata"@, "0"@, "-sn"@, "-dn"@, "-c:v"@, "libx265"@, "-preset"@, "medium"@, "-crf"@, "27"@, "-pix_fmt"@, "yuv420p"@, "-tag:v"@, "hvc1"@, "-c:a"@, "aac"@, "-b:a"@, "160k"@, "-movflags"@, "+faststart"@]
}
fn make_args_video_mp4_h265() -> (r: Vec<String>)
    ensures
        r.deep_view() == args_video_mp4_h265(),
{
    let mut r: Vec<String> = Vec::new();
    r.push(owned("-map"));
    r.push(owned("0:v:0"));
    r.push(owned("-map"));
    r.push(owned("0:a?"));
    r.push(owned("-map_metadata"));
    r.push(owned("0"));
    r.push(owned("-sn"));
    r.push(owned("-dn"));
    r.push(owned("-c:v"));
    r.push(owned("libx265"));
    r.push(owned("-preset"));
    r.push(owned("medium"));
    r.push(owned("-crf"));
    r.push(owned("27"));
    r.push(owned("-pix_fmt"));
    r.push(owned("yuv420p"));
    r.push(owned("-tag:v"));
    r.push(owned("hvc1"));
    r.push(owned("-c:a"));
    r.push(owned("aac"));
    r.push(owned("-b:a"));
    r.push(owned("160k"));
    r.push(owned("-movflags"));
    r.push(owned("+faststart"));
    assert(r.deep_view() =~= args_video_mp4_h265());
    r
}
/// The arguments of the built-in `video_mp4_400mb` profile.
pub open spec fn args_video_mp4_400mb() -> Seq<Seq<char>> {
    seq!["-map"@, "0:v:0"@, "-map"@, "0:a?"@, "-map_metadata"@, "0"@, "-sn"@, "-dn"@, "-c:v"@, "libx264"@, "-preset"@, "medium"@, "-pix_fmt"@, "yuv420p"@, "-c:a"@, "aac"@, "-b:a"@, "128k"@, "-movflags"@, "+faststart"@]
}
fn make_args_video_mp4_400mb() -> (r: Vec<String>)
    ensures
        r.deep_view() == args_video_mp4_400mb(),
{
    let mut r: Vec<String> = Vec::new();
    r.push(owned("-map"));
    r.push(owned("0:v:0"));
    r.push(owned("-map"));
    r.push(owned("0:a?"));
    r.push(owned("-map_metadata"));
    r.push(owned("0"));
    r.push(owned("-sn"));
    r.push(owned("-dn"));
    r.push(owned("-c:v"));
    r.push(owned("libx264"));
    r.push(owned("-preset"));
    r.push(owned("medium"));
    r.push(owned("-pix_fmt"));
    r.push(owned("yuv420p"));
    r.push(owned("-c:a"));
    r.push(owned("aac"));
    r.push(owned("-b:a"));
    r.push(owned("128k"));
    r.push(owned("-movflags"));
    r.push(owned("+faststart"));
    assert(r.deep_view() =~= args_video_mp4_400mb());
    r
}
/// The arguments of the built-in `video_mp4_max_400mb` profile.
pub open spec fn args_video_mp4_max_400mb() -> Seq<Seq<char>> {
    seq!["-map"@, "0:v:0"@, "-map"@, "0:a?"@, "-map_metadata"@, "0"@, "-sn"@, "-dn"@, "-c:v"@, "libx264"@, "-preset"@, "slow"@, "-pix_fmt"@, "yuv420p"@, "-c:a"@, "aac"@, "-b:a"@, "96k"@, "-movflags"@, "+faststart"@]
}
fn make_args_video_mp4_max_400mb() -> (r: Vec<String>)
    ensures
        r.deep_view() == args_video_mp4_max_400mb(),
{
    let mut r: Vec<String> = Vec::new();
    r.push(owned("-map"));
    r.push(owned("0:v:0"));
    r.push(owned("-map"));
    r.push(owned("0:a?"));
    r.push(owned("-map_metadata"));
    r.push(owned("0"));
    r.push(owned("-sn"));
    r.push(owned("-dn"));
    r.push(owned("-c:v"));
    r.push(owned("libx264"));
    r.push(owned("-preset"));
    r.push(owned("slow"));
    r.push(owned("-pix_fmt"));
    r.push(owned("yuv420p"));
    r.push(owned("-c:a"));
    r.push(owned("aac"));
    r.push(owned("-b:a"));
    r.push(owned("96k"));
    r.push(owned("-movflags"));
    r.push(owned("+faststart"));
    assert(r.deep_view() =~= args_video_mp4_max_400mb());
    r
}
/// The arguments of the built-in `video_webm_av1` profile.
pub open spec fn args_video_webm_av1() -> Seq<Seq<char>> {
    seq!["-map"@, "0:v:0"@, "-map"@, "0:a?"@, "-map_metadata"@, "0"@, "-sn"@, "-dn"@, "-c:v"@, "libsvtav1"@, "-crf"@, "35"@, "-preset"@, "6"@, "-c:a"@, "libopus"@, "-b:a"@, "128k"@]
}
fn make_args_video_webm_av1() -> (r: Vec<String>)
    ensures
        r.deep_view() == args_video_webm_av1(),
{
    let mut r: Vec<String> = Vec::new();
    r.push(owned("-map"));
    r.push(owned("0:v:0"));
    r.push(owned("-map"));
    r.push(owned("0:a?"));
    r.push(owned("-map_metadata"));
    r.push(owned("0"));
    r.push(owned("-sn"));
    r.push(owned("-dn"));
    r.push(owned("-c:v"));
    r.push(owned("libsvtav1"));
    r.push(owned("-crf"));
    r.push(owned("35"));
    r.push(owned("-preset"));
    r.push(owned("6"));
    r.push(owned("-c:a"));
    r.push(owned("libopus"));
    r.push(owned("-b:a"));
    r.push(owned("128k"));
    assert(r.deep_view() =~= args_video_webm_av1());
    r
}
/// The arguments of the built-in `video_mp4_vaapi` profile.
pub open spec fn args_video_mp4_vaapi() -> Seq<Seq<char>> {
    seq!["-map"@, "0:v:0"@, "-map"@, "0:a?"@, "-map_metadata"@, "0"@, "-sn"@, "-dn"@, "-vaapi_device"@, "{vaapi_device}"@, "-vf"@, "format=nv12,hwupload"@, "-c:v"@, "h264_vaapi"@, "-qp"@, "23"@, "-c:a"@, "aac"@, "-b:a"@, "160k"@, "-movflags"@, "+faststart"@]
}
fn make_args_video_mp4_vaapi() -> (r: Vec<String>)
    ensures
        r.deep_view() == args_video_mp4_vaapi(),
{
    let mut r: Vec<String> = Vec::new();
    r.push(owned("-map"));
    r.push(owned("0:v:0"));
    r.push(owned("-map"));
    r.push(owned("0:a?"));
    r.push(owned("-map_metadata"));
    r.push(owned("0"));
    r.push(owned("-sn"));
    r.push(owned("-dn"));
    r.push(owned("-vaapi_device"));
    r.push(owned("{vaapi_device}"));
    r.push(owned("-vf"));
    r.push(owned("format=nv12,hwupload"));
    r.push(owned("-c:v"));
    r.push(owned("h264_vaapi"));
    r.push(owned("-qp"));
    r.push(owned("23"));
    r.push(owned("-c:a"));
    r.push(owned("aac"));
    r.push(owned("-b:a"));
    r.push(owned("160k"));
    r.push(owned("-movflags"));
    r.push(owned("+faststart"));
    assert(r.deep_view() =~= args_video_mp4_vaapi());
    r
}
/// The arguments of the built-in `video_mp4_nvenc` profile.
pub open spec fn args_video_mp4_nvenc() -> Seq<Seq<char>> {
    seq!["-map"@, "0:v:0"@, "-map"@, "0:a?"@, "-map_metadata"@, "0"@, "-sn"@, "-dn"@, "-c:v"@, "h264_nvenc"@, "-preset"@, "p5"@, "-cq"@, "23"@, "-pix_fmt"@, "yuv420p"@, "-c:a"@, "aac"@, "-b:a"@, "160k"@, "-movflags"@, "+faststart"@]
}
fn make_args_video_mp4_nvenc() -> (r: Vec<String>)
    ensures
        r.deep_view() == args_video_mp4_nvenc(),
{
    let mut r: Vec<String> = Vec::new();
    r.push(owned("-map"));
    r.push(owned("0:v:0"));
    r.push(owned("-map"));
    r.push(owned("0:a?"));
    r.push(owned("-map_metadata"));
    r.push(owned("0"));
    r.push(owned("-sn"));
    r.push(owned("-dn"));
    r.push(owned("-c:v"));
    r.push(owned("h264_nvenc"));
    r.push(owned("-preset"));
    r.push(owned("p5"));
    r.push(owned("-cq"));
    r.push(owned("23"));
    r.push(owned("-pix_fmt"));
    r.push(owned("yuv420p"));
    r.push(owned("-c:a"));
    r.push(owned("aac"));
    r.push(owned("-b:a"));
    r.push(owned("160k"));
    r.push(owned("-movflags"));
    r.push(owned("+faststart"));
    assert(r.deep_view() =~= args_video_mp4_nvenc());
    r
}
/// The arguments of the built-in `audio_opus` profile.
pub open spec fn args_audio_opus() -> Seq<Seq<char>> {
    seq!["-vn"@, "-map"@, "0:a:0"@, "-map_metadata"@, "0"@, "-c:a"@, "libopus"@, "-b:a"@, "128k"@, "-vbr"@, "on"@, "-compression_level"@, "10"@]
}
fn make_args_audio_opus() -> (r: Vec<String>)
    ensures
        r.deep_view() == args_audio_opus(),
{
    let mut r: Vec<String> = Vec::new();
    r.push(owned("-vn"));
    r.push(owned("-map"));
    r.push(owned("0:a:0"));
    r.push(owned("-map_metadata"));
    r.push(owned("0"));
    r.push(owned("-c:a"));
    r.push(owned("libopus"));
    r.push(owned("-b:a"));
    r.push(owned("128k"));
    r.push(owned("-vbr"));
    r.push(owned("on"));
    r.push(owned("-compression_level"));
    r.push(owned("10"));
    assert(r.deep_view() =~= args_audio_opus());
    r
}
/// The arguments of the built-in `audio_mp3` profile.
pub open spec fn args_audio_mp3() -> Seq<Seq<char>> {
    seq!["-vn"@, "-map"@, "0:a:0"@, "-map_metadata"@, "0"@, "-c:a"@, "libmp3lame"@, "-q:a"@, "2"@]
}
fn make_args_audio_mp3() -> (r: Vec<String>)
    ensures
        r.deep_view() == args_audio_mp3(),
{
    let mut r: Vec<String> = Vec::new();
    r.push(owned("-vn"));
    r.push(owned("-map"));
    r.push(owned("0:a:0"));
    r.push(owned("-map_metadata"));
    r.push(owned("0"));
    r.push(owned("-c:a"));
    r.push(owned("libmp3lame"));
    r.push(owned("-q:a"));
    r.push(owned("2"));
    assert(r.deep_view() =~= args_audio_mp3());
    r
}
/// The arguments of the built-in `audio_flac` profile.
pub open spec fn args_audio_flac() -> Seq<Seq<char>> {
    seq!["-vn"@, "-map"@, "0:a:0"@, "-map_metadata"@, "0"@, "-c:a"@, "flac"@]
}
fn make_args_audio_flac() -> (r: Vec<String>)
    ensures
        r.deep_view() == args_audio_flac(),
{
    let mut r: Vec<String> = Vec::new();
    r.push(owned("-vn"));
    r.push(owned("-map"));
    r.push(owned("0:a:0"));
    r.push(owned("-map_metadata"));
    r.push(owned("0"));
    r.push(owned("-c:a"));
    r.push(owned("flac"));
    assert(r.deep_view() =~= args_audio_flac());
    r
}
/// The arguments of the built-in `extract_audio_opus` profile.
pub open spec fn args_extract_audio_opus() -> Seq<Seq<char>> {
    seq!["-vn"@, "-map"@, "0:a:0"@, "-c:a"@, "libopus"@, "-b:a"@, "128k"@, "-vbr"@, "on"@]
}
fn make_args_extract_audio_opus() -> (r: Vec<String>)
    ensures
        r.deep_view() == args_extract_audio_opus(),
{
    let mut r: Vec<String> = Vec::new();
    r.push(owned("-vn"));
    r.push(owned("-map"));
    r.push(owned("0:a:0"));
    r.push(owned("-c:a"));
    r.push(owned("libopus"));
    r.push(owned("-b:a"));
    r.push(owned("128k"));
    r.push(owned("-vbr"));
    r.push(owned("on"));
    assert(r.deep_view() =~= args_extract_audio_opus());
    r
}
/// The arguments of the built-in `remux_mkv` profile.
pub open spec fn args_remux_mkv() -> Seq<Seq<char>> {
    seq!["-map"@, "0"@, "-map_metadata"@, "0"@, "-c"@, "copy"@]
}
fn make_args_remux_mkv() -> (r: Vec<String>)
    ensures
        r.deep_view() == args_remux_mkv(),
{
    let mut r: Vec<String> = Vec::new();
    r.push(owned("-map"));
    r.push(owned("0"));
    r.push(owned("-map_metadata"));
    r.push(owned("0"));
    r.push(owned("-c"));
    r.push(owned("copy"));
    assert(r.deep_view() =~= args_remux_mkv());
    r
}
/// The arguments of the built-in `strip_audio` profile.
pub open spec fn args_strip_audio() -> Seq<Seq<char>> {
    seq!["-map"@, "0"@, "-map"@, "-0:a"@, "-c"@, "copy"@]
}
fn make_args_strip_audio() -> (r: Vec<String>)
    ensures
        r.deep_view() == args_strip_audio(),
{
    let mut r: Vec<String> = Vec::new();
    r.push(owned("-map"));
    r.push(owned("0"));
    r.push(owned("-map"));
    r.push(owned("-0:a"));
    r.push(owned("-c"));
    r.push(owned("copy"));
    assert(r.deep_view() =~= args_strip_audio());
    r
}
/// The arguments of the built-in `image_webp` profile.
pub open spec fn args_image_webp() -> Seq<Seq<char>> {
    seq!["-strip"@, "-quality"@, "85"@]
}
fn make_args_image_webp() -> (r: Vec<String>)
    ensures
        r.deep_view() == args_image_webp(),
{
    let mut r: Vec<String> = Vec::new();
    r.push(owned("-strip"));
    r.push(owned("-quality"));
    r.push(owned("85"));
    assert(r.deep_view() =~= args_image_webp());
    r
}
/// The arguments of the built-in `image_jpeg` profile.
pub open spec fn args_image_jpeg() -> Seq<Seq<char>> {
    seq!["-strip"@, "-quality"@, "92"@]
}
fn make_args_image_jpeg() -> (r: Vec<String>)
    ensures
        r.deep_view() == args_image_jpeg(),
{
    let mut r: Vec<String> = Vec::new();
    r.push(owned("-strip"));
    r.push(owned("-quality"));
    r.push(owned("92"));
    assert(r.deep_view() =~= args_image_jpeg());
    r
}
/// The arguments of the built-in `image_avif` profile.
pub open spec fn args_image_avif() -> Seq<Seq<char>> {
    seq!["-strip"@, "-quality"@, "75"@]
}
fn make_args_image_avif() -> (r: Vec<String>)
    ensures
        r.deep_view() == args_image_avif(),
{
    let mut r: Vec<String> = Vec::new();
    r.push(owned("-strip"));
    r.push(owned("-quality"));
    r.push(owned("75"));
    assert(r.deep_view() =~= args_image_avif());
    r
}
/// The arguments of the built-in `image_resize_1080` profile.
pub open spec fn args_image_resize_1080() -> Seq<Seq<char>> {
    seq!["-strip"@, "-resize"@, "1920x1080>"@]
}
fn make_args_image_resize_1080() -> (r: Vec<String>)
    ensures
        r.deep_view() == args_image_resize_1080(),
{
    let mut r: Vec<String> = Vec::new();
    r.push(owned("-strip"));
    r.push(owned("-resize"));
    r.push(owned("1920x1080>"));
    assert(r.deep_view() =~= args_image_resize_1080());
    r
}
/// The built-in `video_mp4` profile.
pub open spec fn builtin_video_mp4() -> ProfileView {
    ProfileView {
        label: "Видео → MP4 (H.264)"@,
        category: "Видео"@,
        engine: "ffmpeg"@,
        extension: "mp4"@,
        suffix: "mp4"@,
        args: args_video_mp4(),
        target_size_mb: None,
        target_audio_bitrate_kbps: 128u32,
        hardware: None,
        fallback_args: Seq::<Seq<char>>::empty(),
    }
}
/// The built-in `video_mp4_hq` profile.
pub open spec fn builtin_video_mp4_hq() -> ProfileView {
    ProfileView {
        label: "Видео → MP4 (H.264 HQ)"@,
        category: "Видео"@,
        engine: "ffmpeg"@,
        extension: "mp4"@,
        suffix: "hq"@,
        args: args_video_mp4_hq(),
        target_size_mb: None,
        target_audio_bitrate_kbps: 128u32,
        hardware: None,
        fallback_args: Seq::<Seq<char>>::empty(),
    }
}
/// The built-in `video_mp4_h265` profile.
pub open spec fn builtin_video_mp4_h265() -> ProfileView {
    ProfileView {
        label: "Видео → MP4 (H.265)"@,
        category: "Видео"@,
        engine: "ffmpeg"@,
        extension: "mp4"@,
        suffix: "h265"@,
        args: args_video_mp4_h265(),
        target_size_mb: None,
        target_audio_bitrate_kbps: 128u32,
        hardware: None,
        fallback_args: Seq::<Seq<char>>::empty(),
    }
}
/// The built-in `video_mp4_400mb` profile.
pub open spec fn builtin_video_mp4_400mb() -> ProfileView {
    ProfileView {
        label: "Видео → MP4 (до 400 МБ)"@,
        category: "Сжатие"@,
        engine: "ffmpeg"@,
        extension: "mp4"@,
        suffix: "400mb"@,
        args: args_video_mp4_400mb(),
        target_size_mb: Some(400u64),
        target_audio_bitrate_kbps: 128u32,
        hardware: None,
        fallback_args: Seq::<Seq<char>>::empty(),
    }
}
/// The built-in `video_mp4_max_400mb` profile.
pub open spec fn builtin_video_mp4_max_400mb() -> ProfileView {
    ProfileView {
        label: "Видео → MP4 (сильное сжатие, до 400 МБ)"@,
        category: "Сжатие"@,
        engine: "ffmpeg"@,
        extension: "mp4"@,
        suffix: "max-400mb"@,
        args: args_video_mp4_max_400mb(),
        target_size_mb: Some(400u64),
        target_audio_bitrate_kbps: 96u32,
        hardware: None,
        fallback_args: Seq::<Seq<char>>::empty(),
    }
}
/// The built-in `video_webm_av1` profile.
pub open spec fn builtin_video_webm_av1() -> ProfileView {
    ProfileView {
        label: "Видео → WebM (AV1/Opus)"@,
        category: "Видео"@,
        engine: "ffmpeg"@,
        extension: "webm"@,
        suffix: "av1"@,
        args: args_video_webm_av1(),
        target_size_mb: None,
        target_audio_bitrate_kbps: 128u32,
        hardware: None,
        fallback_args: Seq::<Seq<char>>::empty(),
    }
}
/// The built-in `video_mp4_vaapi` profile.
pub open spec fn builtin_video_mp4_vaapi() -> ProfileView {
    ProfileView {
        label: "Видео → MP4 (VAAPI)"@,
        category: "Аппаратное ускорение"@,
        engine: "ffmpeg"@,
        extension: "mp4"@,
        suffix: "vaapi"@,
        args: args_video_mp4_vaapi(),
        target_size_mb: None,
        target_audio_bitrate_kbps: 128u32,
        hardware: Some(HardwareBackend::Vaapi),
        fallback_args: args_video_mp4(),
    }
}
/// The built-in `video_mp4_nvenc` profile.
pub open spec fn builtin_video_mp4_nvenc() -> ProfileView {
    ProfileView {
        label: "Видео → MP4 (NVENC)"@,
        category: "Аппаратное ускорение"@,
        engine: "ffmpeg"@,
        extension: "mp4"@,
        suffix: "nvenc"@,
        args: args_video_mp4_nvenc(),
        target_size_mb: None,
        target_audio_bitrate_kbps: 128u32,
        hardware: Some(HardwareBackend::Nvenc),
        fallback_args: args_video_mp4(),
    }
}
/// The built-in `audio_opus` profile.
pub open spec fn builtin_audio_opus() -> ProfileView {
    ProfileView {
        label: "Аудио → Opus"@,
        category: "Аудио"@,
        engine: "ffmpeg"@,
        extension: "opus"@,
        suffix: "opus"@,
        args: args_audio_opus(),
        target_size_mb: None,
        target_audio_bitrate_kbps: 128u32,
        hardware: None,
        fallback_args: Seq::<Seq<char>>::empty(),
    }
}
/// The built-in `audio_mp3` profile.
pub open spec fn builtin_audio_mp3() -> ProfileView {
    ProfileView {
        label: "Аудио → MP3"@,
        category: "Аудио"@,
        engine: "ffmpeg"@,
        extension: "mp3"@,
        suffix: "mp3"@,
        args: args_audio_mp3(),
        target_size_mb: None,
        target_audio_bitrate_kbps: 128u32,
        hardware: None,
        fallback_args: Seq::<Seq<char>>::empty(),
    }
}
/// The built-in `audio_flac` profile.
pub open spec fn builtin_audio_flac() -> ProfileView {
    ProfileView {
        label: "Аудио → FLAC"@,
        category: "Аудио"@,
        engine: "ffmpeg"@,
        extension: "flac"@,
        suffix: "flac"@,
        args: args_audio_flac(),
        target_size_mb: None,
        target_audio_bitrate_kbps: 128u32,
        hardware: None,
        fallback_args: Seq::<Seq<char>>::empty(),
    }
}
/// The built-in `extract_audio_opus` profile.
pub open spec fn builtin_extract_audio_opus() -> ProfileView {
    ProfileView {
        label: "Извлечь аудио → Opus"@,
        category: "Извлечение"@,
        engine: "ffmpeg"@,
        extension: "opus"@,
        suffix: "audio"@,
        args: args_extract_audio_opus(),
        target_size_mb: None,
        target_audio_bitrate_kbps: 128u32,
        hardware: None,
        fallback_args: Seq::<Seq<char>>::empty(),
    }
}
/// The built-in `remux_mkv` profile.
pub open spec fn builtin_remux_mkv() -> ProfileView {
    ProfileView {
        label: "Контейнер → MKV (без перекодирования)"@,
        category: "Контейнер"@,
        engine: "ffmpeg"@,
        extension: "mkv"@,
        suffix: "remux"@,
        args: args_remux_mkv(),
        target_size_mb: None,
        target_audio_bitrate_kbps: 128u32,
        hardware: None,
        fallback_args: Seq::<Seq<char>>::empty(),
    }
}
/// The built-in `strip_audio` profile.
pub open spec fn builtin_strip_audio() -> ProfileView {
    ProfileView {
        label: "Видео без аудио"@,
        category: "Видео"@,
        engine: "ffmpeg"@,
        extension: ""@,
        suffix: "no-audio"@,
        args: args_strip_audio(),
        target_size_mb: None,
        target_audio_bitrate_kbps: 128u32,
        hardware: None,
        fallback_args: Seq::<Seq<char>>::empty(),
    }
}
/// The built-in `image_webp` profile.
pub open spec fn builtin_image_webp() -> ProfileView {
    ProfileView {
        label: "Изображение → WebP"@,
        category: "Изображения"@,
        engine: "magick"@,
        extension: "webp"@,
        suffix: "webp"@,
        args: args_image_webp(),
        target_size_mb: None,
        target_audio_bitrate_kbps: 128u32,
        hardware: None,
        fallback_args: Seq::<Seq<char>>::empty(),
    }
}
/// The built-in `image_jpeg` profile.
pub open spec fn builtin_image_jpeg() -> ProfileView {
    ProfileView {
        label: "Изображение → JPEG"@,
        category: "Изображения"@,
        engine: "magick"@,
        extension: "jpg"@,
        suffix: "jpg"@,
        args: args_image_jpeg(),
        target_size_mb: None,
        target_audio_bitrate_kbps: 128u32,
        hardware: None,
        fallback_args: Seq::<Seq<char>>::empty(),
    }
}
/// The built-in `image_avif` profile.
pub open spec fn builtin_image_avif() -> ProfileView {
    ProfileView {
        label: "Изображение → AVIF"@,
        category: "Изображения"@,
        engine: "magick"@,
        extension: "avif"@,
        suffix: "avif"@,
        args: args_image_avif(),
        target_size_mb: None,
        target_audio_bitrate_kbps: 128u32,
        hardware: None,
        fallback_args: Seq::<Seq<char>>::empty(),
    }
}
/// The built-in `image_resize_1080` profile.
pub open spec fn builtin_image_resize_1080() -> ProfileView {
    ProfileView {
        label: "Изображение → максимум 1920×1080"@,
        category: "Изображения"@,
        engine: "magick"@,
        extension: ""@,
        suffix: "1080p"@,
        args: args_image_resize_1080(),
        target_size_mb: None,
        target_audio_bitrate_kbps: 128u32,
        hardware: None,
        fallback_args: Seq::<Seq<char>>::empty(),
    }
}
/// Every built-in profile, by identifier.
pub open spec fn builtin_profiles() -> Map<Seq<char>, ProfileView> {
    Map::empty()
        .insert("video_mp4"@, builtin_video_mp4())
        .insert("video_mp4_hq"@, builtin_video_mp4_hq())
        .insert("video_mp4_h265"@, builtin_video_mp4_h265())
        .insert("video_mp4_400mb"@, builtin_video_mp4_400mb())
        .insert("video_mp4_max_400mb"@, builtin_video_mp4_max_400mb())
        .insert("video_webm_av1"@, builtin_video_webm_av1())
        .insert("video_mp4_vaapi"@, builtin_video_mp4_vaapi())
        .insert("video_mp4_nvenc"@, builtin_video_mp4_nvenc())
        .insert("audio_opus"@, builtin_audio_opus())
        .insert("audio_mp3"@, builtin_audio_mp3())
        .insert("audio_flac"@, builtin_audio_flac())
        .insert("extract_audio_opus"@, builtin_extract_audio_opus())
        .insert("remux_mkv"@, builtin_remux_mkv())
        .insert("strip_audio"@, builtin_strip_audio())
        .insert("image_webp"@, builtin_image_webp())
        .insert("image_jpeg"@, builtin_image_jpeg())
        .insert("image_avif"@, builtin_image_avif())
        .insert("image_resize_1080"@, builtin_image_resize_1080())
}
/// A profile with the usual defaults: no size target, a
/// 128 kbit/s audio budget, no hardware backend and no fallback.
pub fn make_profile(
    label: &str,
    category: &str,
    engine: &str,
    extension: &str,
    suffix: &str,
    args: Vec<String>,
) -> (p: Profile)
    ensures
        p@ == (ProfileView {
            label: label@,
            category: category@,
            engine: engine@,
            extension: extension@,
            suffix: suffix@,
            args: args.deep_view(),
            target_size_mb: None,
            target_audio_bitrate_kbps: 128,
            hardware: None,
            fallback_args: Seq::<Seq<char>>::empty(),
        }),
{
    let fallback: Vec<String> = Vec::new();
    assert(fallback.deep_view() =~= Seq::<Seq<char>>::empty());
    Profile {
        label: owned(label),
        category: owned(category),
        engine: owned(engine),
        extension: owned(extension),
        suffix: owned(suffix),
        args,
        target_size_mb: None,
        target_audio_bitrate_kbps: 128,
        hardware: None,
        fallback_args: fallback,
    }
}

/// Adds a profile with the default settings under `id`.
pub fn add(
    profiles: &mut ProfileMap,
    id: &str,
    label: &str,
    category: &str,
    engine: &str,
    extension: &str,
    suffix: &str,
    args: Vec<String>,
)
    ensures
        final(profiles).map() == old(profiles).map().insert(
            id@,
            ProfileView {
                label: label@,
                category: category@,
                engine: engine@,
                extension: extension@,
                suffix: suffix@,
                args: args.deep_view(),
                target_size_mb: None,
                target_audio_bitrate_kbps: 128,
                hardware: None,
                fallback_args: Seq::<Seq<char>>::empty(),
            },
        ),
{
    let p = make_profile(label, category, engine, extension, suffix, args);
    profiles.insert(owned(id), p);
}

/// The built-in profile table.
pub fn builtin_profile_map() -> (m: ProfileMap)
    ensures
        m.map() == builtin_profiles(),
{
    let mut m = ProfileMap::new();
    proof {
        assert(m.map() =~= Map::<Seq<char>, ProfileView>::empty());
    }
    self::add(&mut m, "video_mp4", "Видео → MP4 (H.264)", "Видео", "ffmpeg", "mp4", "mp4", make_args_video_mp4());
    self::add(&mut m, "video_mp4_hq", "Видео → MP4 (H.264 HQ)", "Видео", "ffmpeg", "mp4", "hq", make_args_video_mp4_hq());
    self::add(&mut m, "video_mp4_h265", "Видео → MP4 (H.265)", "Видео", "ffmpeg", "mp4", "h265", make_args_video_mp4_h265());
    let mut p = make_profile("Видео → MP4 (до 400 МБ)", "Сжатие", "ffmpeg", "mp4", "400mb", make_args_video_mp4_400mb());
    p.target_size_mb = Some(400);
    p.target_audio_bitrate_kbps = 128;
    m.insert(owned("video_mp4_400mb"), p);
    let mut p = make_profile("Видео → MP4 (сильное сжатие, до 400 МБ)", "Сжатие", "ffmpeg", "mp4", "max-400mb", make_args_video_mp4_max_400mb());
    p.target_size_mb = Some(400);
    p.target_audio_bitrate_kbps = 96;
    m.insert(owned("video_mp4_max_400mb"), p);
    self::add(&mut m, "video_webm_av1", "Видео → WebM (AV1/Opus)", "Видео", "ffmpeg", "webm", "av1", make_args_video_webm_av1());
    let mut p = make_profile("Видео → MP4 (VAAPI)", "Аппаратное ускорение", "ffmpeg", "mp4", "vaapi", make_args_video_mp4_vaapi());
    p.hardware = Some(HardwareBackend::Vaapi);
    p.fallback_args = make_args_video_mp4();
    m.insert(owned("video_mp4_vaapi"), p);
    let mut p = make_profile("Видео → MP4 (NVENC)", "Аппаратное ускорение", "ffmpeg", "mp4", "nvenc", make_args_video_mp4_nvenc());
    p.hardware = Some(HardwareBackend::Nvenc);
    p.fallback_args = make_args_video_mp4();
    m.insert(owned("video_mp4_nvenc"), p);
    self::add(&mut m, "audio_opus", "Аудио → Opus", "Аудио", "ffmpeg", "opus", "opus", make_args_audio_opus());
    self::add(&mut m, "audio_mp3", "Аудио → MP3", "Аудио", "ffmpeg", "mp3", "mp3", make_args_audio_mp3());
    self::add(&mut m, "audio_flac", "Аудио → FLAC", "Аудио", "ffmpeg", "flac", "flac", make_args_audio_flac());
    self::add(&mut m, "extract_audio_opus", "Извлечь аудио → Opus", "Извлечение", "ffmpeg", "opus", "audio", make_args_extract_audio_opus());
    self::add(&mut m, "remux_mkv", "Контейнер → MKV (без перекодирования)", "Контейнер", "ffmpeg", "mkv", "remux", make_args_remux_mkv());
    self::add(&mut m, "strip_audio", "Видео без аудио", "Видео", "ffmpeg", "", "no-audio", make_args_strip_audio());
    self::add(&mut m, "image_webp", "Изображение → WebP", "Изображения", "magick", "webp", "webp", make_args_image_webp());
    self::add(&mut m, "image_jpeg", "Изображение → JPEG", "Изображения", "magick", "jpg", "jpg", make_args_image_jpeg());
    self::add(&mut m, "image_avif", "Изображение → AVIF", "Изображения", "magick", "avif", "avif", make_args_image_avif());
    self::add(&mut m, "image_resize_1080", "Изображение → максимум 1920×1080", "Изображения", "magick", "", "1080p", make_args_image_resize_1080());
    assert(m.map() =~= builtin_profiles());
    m
}

} // verus!
