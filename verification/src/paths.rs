//! Where the program keeps its files, how file arguments are read, and how
//! the name of a conversion result is chosen.
use vstd::prelude::*;
use vstd::utf8::{
    decode_utf8, encode_scalar, encode_utf8, has_width_1_encoding, has_width_2_encoding,
    has_width_3_encoding, last_continuation_byte, leading_byte_width_1, leading_byte_width_2,
    leading_byte_width_3, leading_byte_width_4, second_last_continuation_byte,
    third_last_continuation_byte, valid_utf8,
};
use vstd::string::StringSliceAdditionalSpecFns;
use crate::pathname::{
    components, extension, file_stem, join, join_path, last_dot, parent, parent_of, same_path,
    stem_and_extension, body_start, trim_end_at, piece_start,
};
use crate::profiles::{Profile, ProfileView};
use crate::text::{
    chars_of, decimal, decimal_string, eq_ignore_case, lower_seq, owned, push_str,
    str_eq_ignore_case, str_lower, str_strip_prefix, strip_prefix, string_of_range,
};
use crate::model::id_chars_within;

verus! {

/// What `String::from_utf8_lossy` makes of a byte sequence.
pub uninterp spec fn utf8_lossy(bytes: Seq<u8>) -> Seq<char>;

/// `String::from_utf8_lossy`: the text of the bytes, with each invalid
/// sequence replaced by U+FFFD. The contract names the result; of valid
/// UTF-8 it states that the text is the decoded one.
#[verifier::external_body]
fn string_from_utf8_lossy(bytes: &[u8]) -> (s: String)
    ensures
        s@ == utf8_lossy(bytes@),
        valid_utf8(bytes@) ==> s@ == decode_utf8(bytes@),
{
    String::from_utf8_lossy(bytes).into_owned()
}

/// The value of an ASCII hexadecimal digit.
pub open spec fn hex_digit(b: u8) -> Option<u8> {
    if 48 <= b <= 57 {
        Some((b - 48) as u8)
    } else if 97 <= b <= 102 {
        Some((b - 87) as u8)
    } else if 65 <= b <= 70 {
        Some((b - 55) as u8)
    } else {
        None
    }
}

/// Percent-decoding of bytes: `%` followed by two hexadecimal digits stands
/// for one byte; every other byte stands for itself.
pub open spec fn percent_bytes(b: Seq<u8>) -> Seq<u8>
    decreases b.len(),
{
    if b.len() == 0 {
        Seq::empty()
    } else if b[0] == 37 && b.len() > 2 && hex_digit(b[1]) is Some && hex_digit(b[2]) is Some {
        seq![(hex_digit(b[1])->0 * 16 + hex_digit(b[2])->0) as u8] + percent_bytes(b.skip(3))
    } else {
        seq![b[0]] + percent_bytes(b.drop_first())
    }
}

/// The text that percent-decoding a string gives.
pub open spec fn percent_decode_spec(s: Seq<char>) -> Seq<char> {
    utf8_lossy(percent_bytes(encode_utf8(s)))
}

/// The value of a hexadecimal digit byte.
fn hex_value(byte: u8) -> (r: Option<u8>)
    ensures
        r == hex_digit(byte),
{
    if 48 <= byte && byte <= 57 {
        Some(byte - 48)
    } else if 97 <= byte && byte <= 102 {
        Some(byte - 87)
    } else if 65 <= byte && byte <= 70 {
        Some(byte - 55)
    } else {
        None
    }
}

/// Only `%` itself encodes to the byte `%` in UTF-8.
proof fn lemma_encode_scalar_no_percent(c: char)
    requires
        c != '%',
    ensures
        forall|i: int|
            0 <= i < encode_scalar(c as u32).len() ==> #[trigger] encode_scalar(c as u32)[i] != 37u8,
{
    let v = c as u32;
    assert(v != 37u32);
    if has_width_1_encoding(v) {
        assert(leading_byte_width_1(v) != 37u8) by (bit_vector)
            requires
                v <= 0x7f,
                v != 37u32,
        ;
    } else if has_width_2_encoding(v) {
        assert(leading_byte_width_2(v) != 37u8) by (bit_vector);
        assert(last_continuation_byte(v) != 37u8) by (bit_vector);
    } else if has_width_3_encoding(v) {
        assert(leading_byte_width_3(v) != 37u8) by (bit_vector);
        assert(second_last_continuation_byte(v) != 37u8) by (bit_vector);
        assert(last_continuation_byte(v) != 37u8) by (bit_vector);
    } else {
        assert(leading_byte_width_4(v) != 37u8) by (bit_vector);
        assert(third_last_continuation_byte(v) != 37u8) by (bit_vector);
        assert(second_last_continuation_byte(v) != 37u8) by (bit_vector);
        assert(last_continuation_byte(v) != 37u8) by (bit_vector);
    }
}

/// Text without `%` has no `%` byte in its UTF-8 encoding.
proof fn lemma_encode_no_percent(s: Seq<char>)
    requires
        !s.contains('%'),
    ensures
        forall|i: int| 0 <= i < encode_utf8(s).len() ==> #[trigger] encode_utf8(s)[i] != 37u8,
    decreases s.len(),
{
    if s.len() > 0 {
        let rest = s.drop_first();
        assert(s[0] != '%') by {
            if s[0] == '%' {
                assert(s.contains('%'));
            }
        }
        assert(!rest.contains('%')) by {
            if rest.contains('%') {
                let j = choose|j: int| 0 <= j < rest.len() && rest[j] == '%';
                assert(s[j + 1] == '%');
            }
        }
        lemma_encode_scalar_no_percent(s[0]);
        lemma_encode_no_percent(rest);
        let a = encode_scalar(s[0] as u32);
        let e = encode_utf8(s);
        assert(e == a + encode_utf8(rest));
        assert forall|i: int| 0 <= i < e.len() implies #[trigger] e[i] != 37u8 by {
            if i < a.len() {
                assert(e[i] == a[i]);
            } else {
                assert(e[i] == encode_utf8(rest)[i - a.len()]);
            }
        }
    }
}

/// Bytes without `%` decode to themselves.
proof fn lemma_percent_bytes_plain(b: Seq<u8>)
    requires
        forall|i: int| 0 <= i < b.len() ==> #[trigger] b[i] != 37u8,
    ensures
        percent_bytes(b) == b,
    decreases b.len(),
{
    if b.len() > 0 {
        assert(b[0] != 37u8);
        assert forall|i: int| 0 <= i < b.drop_first().len() implies #[trigger] b.drop_first()[i] != 37u8 by {
            assert(b.drop_first()[i] == b[i + 1]);
        }
        lemma_percent_bytes_plain(b.drop_first());
        assert(seq![b[0]] + b.drop_first() =~= b);
    }
}

/// Decodes `%XX` escapes; invalid UTF-8 in the result is replaced as
/// `String::from_utf8_lossy` replaces it.
pub fn percent_decode(input: &str) -> (r: String)
    ensures
        r@ == percent_decode_spec(input@),
        valid_utf8(percent_bytes(encode_utf8(input@))) ==> r@ == decode_utf8(
            percent_bytes(encode_utf8(input@)),
        ),
        !input@.contains('%') ==> r@ == input@,
{
    proof {
        if !input@.contains('%') {
            lemma_encode_no_percent(input@);
            lemma_percent_bytes_plain(encode_utf8(input@));
            vstd::utf8::encode_utf8_valid_utf8(input@);
            vstd::utf8::encode_utf8_decode_utf8(input@);
        }
    }
    let bytes = input.as_bytes();
    let ghost b = bytes@;
    assert(b == encode_utf8(input@));
    let mut output: Vec<u8> = Vec::new();
    let mut index: usize = 0;
    assert(b.skip(0) =~= b);
    assert(output@ + percent_bytes(b) =~= percent_bytes(b));
    while index < bytes.len()
        invariant
            index <= bytes@.len(),
            b == bytes@,
            output@ + percent_bytes(b.skip(index as int)) == percent_bytes(b),
        decreases bytes.len() - index,
    {
        let ghost rest = b.skip(index as int);
        let ghost before = output@;
        if bytes[index] == 37 && bytes.len() - index > 2 {
            let high = hex_value(bytes[index + 1]);
            let low = hex_value(bytes[index + 2]);
            match (high, low) {
                (Some(h), Some(l)) => {
                    assert(rest[1] == b[index + 1] && rest[2] == b[index + 2]);
                    output.push(h * 16 + l);
                    assert(rest.skip(3) =~= b.skip(index + 3));
                    assert(before + percent_bytes(rest) =~= output@ + percent_bytes(b.skip(index + 3)));
                    index = index + 3;
                    continue;
                },
                _ => {},
            }
        }
        assert(rest[0] == b[index as int]);
        if bytes.len() - index > 2 {
            assert(rest[1] == b[index + 1] && rest[2] == b[index + 2]);
        }
        output.push(bytes[index]);
        assert(rest.drop_first() =~= b.skip(index + 1));
        assert(before + percent_bytes(rest) =~= output@ + percent_bytes(b.skip(index + 1)));
        index = index + 1;
    }
    assert(b.skip(index as int) =~= Seq::<u8>::empty());
    assert(output@ =~= percent_bytes(b));
    string_from_utf8_lossy(output.as_slice())
}

/// How a command-line file argument is read: a `file://` URL (optionally
/// with host `localhost`) is percent-decoded; anything else is a path as is.
pub open spec fn normalize_path_spec(raw: Seq<char>) -> Seq<char> {
    match strip_prefix(raw, "file://"@) {
        Some(rest) => percent_decode_spec(
            match strip_prefix(rest, "localhost"@) {
                Some(r) => r,
                None => rest,
            },
        ),
        None => raw,
    }
}

/// Reads a file argument as a path; a file URL is read as the path it holds,
/// percent-decoded (a decoding that is valid UTF-8 is that text exactly).
pub fn normalize_path_arg(raw: &str) -> (r: String)
    ensures
        r@ == normalize_path_spec(raw@),
        match strip_prefix(raw@, "file://"@) {
            Some(rest) => {
                let path = match strip_prefix(rest, "localhost"@) {
                    Some(p) => p,
                    None => rest,
                };
                &&& valid_utf8(percent_bytes(encode_utf8(path))) ==> r@ == decode_utf8(
                    percent_bytes(encode_utf8(path)),
                )
                &&& !path.contains('%') ==> r@ == path
            },
            None => r@ == raw@,
        },
{
    match str_strip_prefix(raw, "file://") {
        Some(rest) => {
            let value = match str_strip_prefix(rest.as_str(), "localhost") {
                Some(r) => r,
                None => rest,
            };
            percent_decode(value.as_str())
        },
        None => owned(raw),
    }
}

/// Job identifiers: one to 96 characters, each an ASCII letter or digit,
/// `-` or `_`.
pub open spec fn valid_job_id_spec(id: Seq<char>) -> bool {
    &&& 0 < id.len() <= 96
    &&& forall|i: int| 0 <= i < id.len() ==> crate::model::is_id_char(#[trigger] id[i])
}

/// Whether a job identifier is safe for a unit and file name.
pub fn valid_job_id(id: &str) -> (r: bool)
    ensures
        r == valid_job_id_spec(id@),
{
    id_chars_within(id, 96)
}

/// `$HOME`, else the working directory, else `.`.
pub fn home_dir(home_env: Option<&str>, current_dir: Option<&str>) -> (r: String)
    ensures
        r@ == match home_env {
            Some(h) => h@,
            None => match current_dir {
                Some(c) => c@,
                None => "."@,
            },
        },
{
    match home_env {
        Some(h) => owned(h),
        None => match current_dir {
            Some(c) => owned(c),
            None => owned("."),
        },
    }
}

/// An XDG base directory: the variable where it is set, else a directory
/// under the home directory.
pub open spec fn xdg_base(var: Option<Seq<char>>, home: Seq<char>, fallback: Seq<char>) -> Seq<
    char,
> {
    match var {
        Some(v) => v,
        None => join(home, fallback),
    }
}

fn xdg_base_dir(var: Option<&str>, home: &str, fallback: &str) -> (r: String)
    ensures
        r@ == xdg_base(
            match var {
                Some(v) => Some(v@),
                None => None,
            },
            home@,
            fallback@,
        ),
{
    match var {
        Some(v) => owned(v),
        None => join_path(home, fallback),
    }
}

pub open spec fn opt_str(o: Option<&str>) -> Option<Seq<char>> {
    match o {
        Some(v) => Some(v@),
        None => None,
    }
}

/// The configuration file.
pub fn config_path(xdg_config_home: Option<&str>, home: &str) -> (r: String)
    ensures
        r@ == join(xdg_base(opt_str(xdg_config_home), home@, ".config"@), "media-studio/config.toml"@),
{
    let base = xdg_base_dir(xdg_config_home, home, ".config");
    join_path(base.as_str(), "media-studio/config.toml")
}

/// The directory of job logs and statuses.
pub fn state_dir(xdg_state_home: Option<&str>, home: &str) -> (r: String)
    ensures
        r@ == join(xdg_base(opt_str(xdg_state_home), home@, ".local/state"@), "media-studio"@),
{
    let base = xdg_base_dir(xdg_state_home, home, ".local/state");
    join_path(base.as_str(), "media-studio")
}

/// Where `install` puts the program.
pub fn installed_binary_path(home: &str) -> (r: String)
    ensures
        r@ == join(home@, ".local/bin/media-studio"@),
{
    join_path(home, ".local/bin/media-studio")
}

/// The directory of Dolphin service menus.
pub fn service_menu_dir(xdg_data_home: Option<&str>, home: &str) -> (r: String)
    ensures
        r@ == join(xdg_base(opt_str(xdg_data_home), home@, ".local/share"@), "kio/servicemenus"@),
{
    let base = xdg_base_dir(xdg_data_home, home, ".local/share");
    join_path(base.as_str(), "kio/servicemenus")
}

/// The three service menus: video, audio, images.
pub fn service_menu_paths(menu_dir: &str) -> (r: Vec<String>)
    ensures
        r.deep_view() == seq![
            join(menu_dir@, "media-studio-video.desktop"@),
            join(menu_dir@, "media-studio-audio.desktop"@),
            join(menu_dir@, "media-studio-image.desktop"@),
        ],
{
    let mut r: Vec<String> = Vec::new();
    r.push(join_path(menu_dir, "media-studio-video.desktop"));
    r.push(join_path(menu_dir, "media-studio-audio.desktop"));
    r.push(join_path(menu_dir, "media-studio-image.desktop"));
    assert(r.deep_view() =~= seq![
        join(menu_dir@, "media-studio-video.desktop"@),
        join(menu_dir@, "media-studio-audio.desktop"@),
        join(menu_dir@, "media-studio-image.desktop"@),
    ]);
    r
}

/// The single service menu of older versions.
pub fn legacy_service_menu_path(menu_dir: &str) -> (r: String)
    ensures
        r@ == join(menu_dir@, "media-studio.desktop"@),
{
    join_path(menu_dir, "media-studio.desktop")
}

/// The directory of user systemd units.
pub fn systemd_user_dir(xdg_config_home: Option<&str>, home: &str) -> (r: String)
    ensures
        r@ == join(xdg_base(opt_str(xdg_config_home), home@, ".config"@), "systemd/user"@),
{
    let base = xdg_base_dir(xdg_config_home, home, ".config");
    join_path(base.as_str(), "systemd/user")
}

/// The systemd unit name of a watch folder.
pub open spec fn watch_unit_name(id: Seq<char>) -> Seq<char> {
    "media-studio-watch-"@ + id + ".service"@
}

pub fn watch_unit_name_of(id: &str) -> (r: String)
    ensures
        r@ == watch_unit_name(id@),
{
    let mut r = owned("media-studio-watch-");
    push_str(&mut r, id);
    push_str(&mut r, ".service");
    r
}

/// The unit file of a watch folder.
pub fn watch_service_path(systemd_dir: &str, id: &str) -> (r: String)
    ensures
        r@ == join(systemd_dir@, watch_unit_name(id@)),
{
    let name = watch_unit_name_of(id);
    join_path(systemd_dir, name.as_str())
}

/// The log of a job.
pub fn job_log_path(state_dir: &str, job_id: &str) -> (r: String)
    ensures
        r@ == join(join(state_dir@, "jobs"@), job_id@ + ".log"@),
{
    let jobs = join_path(state_dir, "jobs");
    let mut name = owned(job_id);
    push_str(&mut name, ".log");
    join_path(jobs.as_str(), name.as_str())
}

/// The status file of a job.
pub fn job_status_path(state_dir: &str, job_id: &str) -> (r: String)
    ensures
        r@ == join(join(state_dir@, "jobs"@), job_id@ + ".status"@),
{
    let jobs = join_path(state_dir, "jobs");
    let mut name = owned(job_id);
    push_str(&mut name, ".status");
    join_path(jobs.as_str(), name.as_str())
}

/// `key=value` lines.
pub open spec fn detail_lines(details: Seq<(Seq<char>, Seq<char>)>) -> Seq<char>
    decreases details.len(),
{
    if details.len() == 0 {
        Seq::empty()
    } else {
        detail_lines(details.drop_last()) + details.last().0 + "="@ + details.last().1 + "\n"@
    }
}

pub open spec fn pairs_view(v: Seq<(String, String)>) -> Seq<(Seq<char>, Seq<char>)> {
    v.map_values(|p: (String, String)| (p.0@, p.1@))
}

/// The contents of a job status file: `state=...`, then one line per detail.
pub fn job_status_text(state: &str, details: &Vec<(String, String)>) -> (r: String)
    ensures
        r@ == "state="@ + state@ + "\n"@ + detail_lines(pairs_view(details@)),
{
    let mut body = owned("state=");
    push_str(&mut body, state);
    push_str(&mut body, "\n");
    let ghost head = body@;
    let mut i: usize = 0;
    while i < details.len()
        invariant
            i <= details@.len(),
            body@ == head + detail_lines(pairs_view(details@).take(i as int)),
        decreases details.len() - i,
    {
        let ghost before = body@;
        push_str(&mut body, details[i].0.as_str());
        push_str(&mut body, "=");
        push_str(&mut body, details[i].1.as_str());
        push_str(&mut body, "\n");
        proof {
            let pv = pairs_view(details@);
            assert(pv.take(i + 1).drop_last() =~= pv.take(i as int));
            assert(body@ =~= head + detail_lines(pv.take(i + 1)));
        }
        i = i + 1;
    }
    assert(pairs_view(details@).take(i as int) =~= pairs_view(details@));
    body
}

/// `PathBuf::with_extension` for a non-empty extension.
pub open spec fn with_extension(p: Seq<char>, ext: Seq<char>) -> Seq<char> {
    let bs = body_start(p);
    let t = trim_end_at(p, bs, p.len() as int);
    match file_stem(p) {
        Some(stem) => p.take(piece_start(p, bs, t) + stem.len()) + seq!['.'] + ext,
        None => p,
    }
}

/// The temporary name that an atomic write uses beside its target:
/// the extension replaced by `<pid>.tmp`.
pub fn temp_path_for(path: &str, pid: u32) -> (r: String)
    ensures
        r@ == with_extension(path@, decimal(pid as nat) + ".tmp"@),
{
    let mut ext = decimal_string(pid as u64);
    push_str(&mut ext, ".tmp");
    let p = chars_of(path);
    match crate::pathname::stem_end(&p) {
        Some(k) => {
            let mut r = string_of_range(&p, 0, k);
            crate::text::push_char(&mut r, '.');
            push_str(&mut r, ext.as_str());
            r
        },
        None => owned(path),
    }
}


/// The directory of a result: the requested one, else the input's parent,
/// else `.`.
pub open spec fn out_parent(input: Seq<char>, dir: Option<Seq<char>>) -> Seq<char> {
    match dir {
        Some(d) => d,
        None => match parent(input) {
            Some(q) => q,
            None => "."@,
        },
    }
}

/// The stem of a result: the input's stem, else `media`.
pub open spec fn out_stem(input: Seq<char>) -> Seq<char> {
    match file_stem(input) {
        Some(s) => s,
        None => "media"@,
    }
}

/// The input's extension in lowercase, else `bin`.
pub open spec fn source_ext(input: Seq<char>) -> Seq<char> {
    lower_seq(
        match extension(input) {
            Some(x) => x,
            None => "bin"@,
        },
    )
}

/// The extension of a result: the profile's, else the input's.
pub open spec fn target_ext(input: Seq<char>, p: ProfileView) -> Seq<char> {
    if p.extension.len() == 0 {
        source_ext(input)
    } else {
        p.extension
    }
}

/// `<parent>/<stem>.<extension>`.
pub open spec fn primary_output(input: Seq<char>, p: ProfileView, dir: Option<Seq<char>>) -> Seq<
    char,
> {
    join(out_parent(input, dir), out_stem(input) + "."@ + target_ext(input, p))
}

/// The marker of numbered results: the profile's suffix, or `converted` where
/// the suffix is empty or equals (up to ASCII case) one of the extensions.
pub open spec fn result_suffix(input: Seq<char>, p: ProfileView) -> Seq<char> {
    if p.suffix.len() == 0 || eq_ignore_case(p.suffix, target_ext(input, p)) || eq_ignore_case(
        p.suffix,
        source_ext(input),
    ) {
        "converted"@
    } else {
        p.suffix
    }
}

/// `<parent>/<stem>.<suffix>-<n>.<extension>`.
pub open spec fn numbered_output(
    input: Seq<char>,
    p: ProfileView,
    dir: Option<Seq<char>>,
    n: nat,
) -> Seq<char> {
    join(
        out_parent(input, dir),
        out_stem(input) + "."@ + result_suffix(input, p) + "-"@ + decimal(n) + "."@ + target_ext(
            input,
            p,
        ),
    )
}

/// `<parent>/<stem>.<suffix>-overflow.<extension>`.
pub open spec fn overflow_output(input: Seq<char>, p: ProfileView, dir: Option<Seq<char>>) -> Seq<
    char,
> {
    join(
        out_parent(input, dir),
        out_stem(input) + "."@ + result_suffix(input, p) + "-overflow."@ + target_ext(input, p),
    )
}

/// The existence test answered `answer` when asked about `path`.
pub open spec fn reports<F: Fn(&str) -> bool>(f: F, path: Seq<char>, answer: bool) -> bool {
    exists|q: &str| q@ == path && #[trigger] call_ensures(f, (q,), answer)
}

/// The parts of a result name that do not depend on the existence test.
struct OutputParts {
    parent: String,
    stem: String,
    suffix: String,
    ext: String,
}

fn output_parts(input: &str, profile: &Profile, output_dir: Option<&str>) -> (r: OutputParts)
    ensures
        r.parent@ == out_parent(input@, opt_str(output_dir)),
        r.stem@ == out_stem(input@),
        r.suffix@ == result_suffix(input@, profile@),
        r.ext@ == target_ext(input@, profile@),
{
    let parent = match output_dir {
        Some(d) => owned(d),
        None => match parent_of(input) {
            Some(q) => q,
            None => owned("."),
        },
    };
    let (stem_opt, ext_opt) = stem_and_extension(input);
    let stem = match stem_opt {
        Some(s) => s,
        None => owned("media"),
    };
    let raw_ext = match ext_opt {
        Some(x) => x,
        None => owned("bin"),
    };
    let source = str_lower(raw_ext.as_str());
    let ext = if profile.extension.as_str().is_empty() {
        proof {
            assert(profile.extension@.len() == 0);
        }
        source.clone()
    } else {
        proof {
            assert(profile.extension@.len() != 0);
        }
        profile.extension.clone()
    };
    let suffix = if profile.suffix.as_str().is_empty() || str_eq_ignore_case(
        profile.suffix.as_str(),
        ext.as_str(),
    ) || str_eq_ignore_case(profile.suffix.as_str(), source.as_str()) {
        owned("converted")
    } else {
        profile.suffix.clone()
    };
    OutputParts { parent, stem, suffix, ext }
}

fn numbered_name(parts: &OutputParts, n: u32) -> (r: String)
    ensures
        r@ == join(
            parts.parent@,
            parts.stem@ + "."@ + parts.suffix@ + "-"@ + decimal(n as nat) + "."@ + parts.ext@,
        ),
{
    let mut name = parts.stem.clone();
    push_str(&mut name, ".");
    push_str(&mut name, parts.suffix.as_str());
    push_str(&mut name, "-");
    let num = decimal_string(n as u64);
    push_str(&mut name, num.as_str());
    push_str(&mut name, ".");
    push_str(&mut name, parts.ext.as_str());
    join_path(parts.parent.as_str(), name.as_str())
}

/// Chooses the path of a conversion result. `is_taken` tells whether a path
/// is taken. Without `overwrite`, the first free name among
/// `<stem>.<ext>` and `<stem>.<suffix>-1.<ext>` .. `-9999` is taken, and
/// `<stem>.<suffix>-overflow.<ext>` when all are taken; with `overwrite`, the
/// first of them is taken without a test. Where the profile's suffix and
/// extension hold no `/`, the result is never the input itself.
pub fn output_path<F: Fn(&str) -> bool>(
    input: &str,
    profile: &Profile,
    output_dir: Option<&str>,
    overwrite: bool,
    is_taken: F,
) -> (r: String)
    requires
        forall|q: &str| call_requires(is_taken, (q,)),
    ensures
        ({
            let dir = opt_str(output_dir);
            let prim = primary_output(input@, profile@, dir);
            let same = components(prim) == components(input@);
            let accepted = !same && (overwrite || reports(is_taken, prim, false));
            let rejected = same || (!overwrite && reports(is_taken, prim, true));
            ||| r@ == prim && accepted
            ||| exists|k: nat|
                1 <= k < 10000 && r@ == #[trigger] numbered_output(input@, profile@, dir, k) && rejected
                    && (overwrite || reports(is_taken, numbered_output(input@, profile@, dir, k), false))
                    && forall|j: nat|
                    1 <= j < k ==> !overwrite && reports(
                        is_taken,
                        #[trigger] numbered_output(input@, profile@, dir, j),
                        true,
                    )
            ||| r@ == overflow_output(input@, profile@, dir) && rejected && !overwrite && forall|j: nat|
                1 <= j < 10000 ==> reports(
                    is_taken,
                    #[trigger] numbered_output(input@, profile@, dir, j),
                    true,
                )
        }),
        !profile@.suffix.contains('/') && !profile@.extension.contains('/') ==> components(r@)
            != components(input@),
{
    let ghost dir = opt_str(output_dir);
    proof {
        if !profile@.suffix.contains('/') && !profile@.extension.contains('/') {
            results_never_replace_input(input@, profile@, dir);
        }
    }
    let parts = output_parts(input, profile, output_dir);
    let mut name = parts.stem.clone();
    push_str(&mut name, ".");
    push_str(&mut name, parts.ext.as_str());
    let primary = join_path(parts.parent.as_str(), name.as_str());
    let ghost prim = primary@;
    assert(prim == primary_output(input@, profile@, dir));
    let same = same_path(primary.as_str(), input);
    if !overwrite && !same {
        let taken = is_taken(primary.as_str());
        if !taken {
            assert(reports(is_taken, prim, false));
            return primary;
        }
        assert(reports(is_taken, prim, true));
    }
    if overwrite && !same {
        return primary;
    }
    let ghost rejected = (components(prim) == components(input@)) || (!overwrite && reports(
        is_taken,
        prim,
        true,
    ));
    assert(rejected);
    let mut index: u32 = 1;
    while index < 10000
        invariant
            1 <= index <= 10000,
            overwrite ==> index == 1,
            dir == opt_str(output_dir),
            (components(primary_output(input@, profile@, dir)) == components(input@)) || (!overwrite
                && reports(is_taken, primary_output(input@, profile@, dir), true)),
            parts.parent@ == out_parent(input@, dir),
            parts.stem@ == out_stem(input@),
            parts.suffix@ == result_suffix(input@, profile@),
            parts.ext@ == target_ext(input@, profile@),
            forall|q: &str| call_requires(is_taken, (q,)),
            forall|j: nat|
                1 <= j < index ==> !overwrite && reports(
                    is_taken,
                    #[trigger] numbered_output(input@, profile@, dir, j),
                    true,
                ),
        decreases 10000 - index,
    {
        let candidate = numbered_name(&parts, index);
        assert(candidate@ == numbered_output(input@, profile@, dir, index as nat));
        proof {
            if !profile@.suffix.contains('/') && !profile@.extension.contains('/') {
                results_never_replace_input(input@, profile@, dir);
            }
        }
        if overwrite {
            return candidate;
        }
        let taken = is_taken(candidate.as_str());
        if !taken {
            assert(reports(is_taken, candidate@, false));
            return candidate;
        }
        assert(reports(is_taken, candidate@, true));
        index = index + 1;
    }
    let mut last = parts.stem.clone();
    push_str(&mut last, ".");
    push_str(&mut last, parts.suffix.as_str());
    push_str(&mut last, "-overflow.");
    push_str(&mut last, parts.ext.as_str());
    join_path(parts.parent.as_str(), last.as_str())
}

/// The name that the result takes when the requested one is taken: the
/// requested name at index 0, else `<stem>-<index>.<extension>` beside it
/// (with `output` and `bin` where the requested name has no stem or
/// extension).
pub open spec fn persist_candidate_spec(requested: Seq<char>, index: nat) -> Seq<char> {
    if index == 0 {
        requested
    } else {
        join(
            match parent(requested) {
                Some(q) => q,
                None => "."@,
            },
            match file_stem(requested) {
                Some(s) => s,
                None => "output"@,
            } + "-"@ + decimal(index) + "."@ + match extension(requested) {
                Some(x) => x,
                None => "bin"@,
            },
        )
    }
}

/// A candidate name for committing a result without replacing a file.
pub fn persist_candidate(requested: &str, index: u32) -> (r: String)
    ensures
        r@ == persist_candidate_spec(requested@, index as nat),
{
    if index == 0 {
        return owned(requested);
    }
    let (stem_opt, ext_opt) = stem_and_extension(requested);
    let stem = match stem_opt {
        Some(s) => s,
        None => owned("output"),
    };
    let ext = match ext_opt {
        Some(x) => x,
        None => owned("bin"),
    };
    let dir = match parent_of(requested) {
        Some(q) => q,
        None => owned("."),
    };
    let mut name = stem;
    push_str(&mut name, "-");
    let num = decimal_string(index as u64);
    push_str(&mut name, num.as_str());
    push_str(&mut name, ".");
    push_str(&mut name, ext.as_str());
    join_path(dir.as_str(), name.as_str())
}

/// The last `.` of a name has no `.` after it.
proof fn lemma_last_dot_is_last(n: Seq<char>)
    ensures
        last_dot(n) matches Some(i) ==> 0 <= i < n.len() && n[i] == '.' && forall|j: int|
            i < j < n.len() ==> #[trigger] n[j] != '.',
    decreases n.len(),
{
    if n.len() > 0 && n.last() != '.' {
        lemma_last_dot_is_last(n.drop_last());
        if last_dot(n) is Some {
            let i = last_dot(n)->0;
            assert forall|j: int| i < j < n.len() implies #[trigger] n[j] != '.' by {
                if j < n.len() - 1 {
                    assert(n.drop_last()[j] == n[j]);
                }
            }
        }
    }
}

/// `lower` never makes a `/`.
proof fn lemma_lower_no_slash(s: Seq<char>)
    requires
        forall|i: int| 0 <= i < s.len() ==> #[trigger] s[i] != '/',
    ensures
        forall|i: int| 0 <= i < lower_seq(s).len() ==> #[trigger] lower_seq(s)[i] != '/',
{
    assert forall|i: int| 0 <= i < lower_seq(s).len() implies #[trigger] lower_seq(s)[i] != '/' by {
        let c = s[i];
        if 'A' <= c <= 'Z' {
            assert(97 <= (c as u32) + 32 <= 122);
            assert(((c as u32) + 32) as char != '/');
        }
    }
}

/// The parts of every result name beside the input: a non-empty stem, a
/// non-empty marker and an extension, none of which holds a `/`.
proof fn lemma_result_parts(input: Seq<char>, p: ProfileView)
    requires
        forall|i: int| 0 <= i < p.suffix.len() ==> #[trigger] p.suffix[i] != '/',
        forall|i: int| 0 <= i < p.extension.len() ==> #[trigger] p.extension[i] != '/',
    ensures
        out_stem(input).len() > 0,
        forall|i: int| 0 <= i < out_stem(input).len() ==> #[trigger] out_stem(input)[i] != '/',
        result_suffix(input, p).len() > 0,
        forall|i: int| 0 <= i < result_suffix(input, p).len() ==> #[trigger] result_suffix(input, p)[i]
            != '/',
        forall|i: int| 0 <= i < target_ext(input, p).len() ==> #[trigger] target_ext(input, p)[i]
            != '/',
{
    reveal_strlit("media");
    reveal_strlit("converted");
    reveal_strlit("bin");
    crate::pathname::lemma_file_name_component(input);
    match crate::pathname::file_name(input) {
        Some(n) => {
            lemma_last_dot_is_last(n);
            match crate::pathname::ext_dot(n) {
                Some(i) => {
                    let raw = n.skip(i + 1);
                    assert forall|k: int| 0 <= k < raw.len() implies #[trigger] raw[k] != '/' by {
                        assert(raw[k] == n[i + 1 + k]);
                    }
                    lemma_lower_no_slash(raw);
                    assert forall|k: int| 0 <= k < n.take(i).len() implies #[trigger] n.take(i)[k] != '/' by {
                        assert(n.take(i)[k] == n[k]);
                    }
                },
                None => {
                    lemma_lower_no_slash("bin"@);
                },
            }
        },
        None => {
            lemma_lower_no_slash("bin"@);
        },
    }
}

/// The name `prefix + "." + rest` is not the file name `n` of the input when
/// `rest` has a `.` and the stem is the part of `n` before its last dot, or
/// `n` has no extension.
proof fn lemma_result_name_differs(input: Seq<char>, name: Seq<char>, dot: int)
    requires
        name.take(out_stem(input).len() as int) == out_stem(input),
        0 < out_stem(input).len() < dot < name.len(),
        name[dot] == '.',
        name[out_stem(input).len() as int] == '.',
        forall|i: int| 0 <= i < name.len() ==> #[trigger] name[i] != '/',
    ensures
        ({
            let c = components(input);
            c.len() == 0 || c.last() != name
        }),
{
    crate::pathname::lemma_file_name_component(input);
    let c = components(input);
    match crate::pathname::file_name(input) {
        Some(n) => {
            lemma_last_dot_is_last(n);
            if c.last() == name {
                match crate::pathname::ext_dot(n) {
                    Some(i) => {
                        assert(last_dot(n) == Some(i));
                        assert(out_stem(input) == n.take(i));
                        assert(n.take(i).len() == i);
                        assert(n[dot] == name[dot]);
                        assert(i < dot < n.len());
                    },
                    None => {
                        assert(out_stem(input) == n);
                        assert(n.len() == name.len());
                    },
                }
            }
        },
        None => {
            if c.len() > 0 && c.last() == name {
                assert(name.len() >= 3);
                if c.last() == seq!['/'] {
                    assert(name.len() == 1);
                } else if c.last() == seq!['.'] {
                    assert(name.len() == 1);
                } else {
                    assert(name.len() == 2);
                }
            }
        },
    }
}

/// A numbered or overflow result is never the input itself, where the
/// profile's suffix and extension hold no `/` (with such a suffix a result
/// can land in another directory and take any name there).
pub proof fn results_never_replace_input(input: Seq<char>, p: ProfileView, dir: Option<Seq<char>>)
    requires
        !p.suffix.contains('/'),
        !p.extension.contains('/'),
    ensures
        forall|k: nat| components(#[trigger] numbered_output(input, p, dir, k)) != components(input),
        components(overflow_output(input, p, dir)) != components(input),
{
    reveal_strlit(".");
    reveal_strlit("-");
    reveal_strlit("-overflow.");
    assert forall|i: int| 0 <= i < p.suffix.len() implies #[trigger] p.suffix[i] != '/' by {
        if p.suffix[i] == '/' {
            assert(p.suffix.contains('/'));
        }
    }
    assert forall|i: int| 0 <= i < p.extension.len() implies #[trigger] p.extension[i] != '/' by {
        if p.extension[i] == '/' {
            assert(p.extension.contains('/'));
        }
    }
    lemma_result_parts(input, p);
    let stem = out_stem(input);
    let suffix = result_suffix(input, p);
    let ext = target_ext(input, p);
    let parent_dir = out_parent(input, dir);
    assert forall|k: nat| components(#[trigger] numbered_output(input, p, dir, k)) != components(input) by {
        let d = decimal(k);
        crate::queue::lemma_decimal_len(k);
        let x = stem + "."@ + suffix + "-"@ + d;
        let name = x + "."@ + ext;
        assert forall|i: int| 0 <= i < name.len() implies #[trigger] name[i] != '/' by {
            if i < stem.len() {
                assert(name[i] == stem[i]);
            } else if i == stem.len() {
                assert(name[i] == '.');
            } else if i < stem.len() + 1 + suffix.len() {
                assert(name[i] == suffix[i - stem.len() - 1]);
            } else if i == stem.len() + 1 + suffix.len() {
                assert(name[i] == '-');
            } else if i < x.len() {
                assert(name[i] == d[i - stem.len() - 2 - suffix.len()]);
                crate::queue::lemma_decimal_digits(k);
            } else if i == x.len() {
                assert(name[i] == '.');
            } else {
                assert(name[i] == ext[i - x.len() - 1]);
            }
        }
        assert(name.len() > 2);
        assert(crate::pathname::plain_name(name));
        crate::pathname::lemma_join_plain(parent_dir, name);
        assert(name.take(stem.len() as int) =~= stem);
        assert(name[x.len() as int] == '.');
        assert(name[stem.len() as int] == '.');
        lemma_result_name_differs(input, name, x.len() as int);
        assert(numbered_output(input, p, dir, k) == join(parent_dir, name));
    }
    let x = stem + "."@ + suffix;
    let name = x + "-overflow."@ + ext;
    assert forall|i: int| 0 <= i < name.len() implies #[trigger] name[i] != '/' by {
        if i < stem.len() {
            assert(name[i] == stem[i]);
        } else if i == stem.len() {
            assert(name[i] == '.');
        } else if i < x.len() {
            assert(name[i] == suffix[i - stem.len() - 1]);
        } else if i < x.len() + 10 {
            assert(name[i] == "-overflow."@[i - x.len()]);
        } else {
            assert(name[i] == ext[i - x.len() - 10]);
        }
    }
    assert(name.len() > 2);
    assert(crate::pathname::plain_name(name));
    crate::pathname::lemma_join_plain(parent_dir, name);
    assert(name.take(stem.len() as int) =~= stem);
    assert(name[x.len() as int + 9] == '.');
    assert(name[stem.len() as int] == '.');
    lemma_result_name_differs(input, name, x.len() as int + 9);
    assert(overflow_output(input, p, dir) == join(parent_dir, name));
}

} // verus!
