//! The job queue on user systemd: the `systemd-run` command line of a job,
//! job and unit names, and what `list` and `cancel` make of their input.
use vstd::prelude::*;
use crate::paths::{valid_job_id, valid_job_id_spec};
use crate::text::{
    char_is_ws, chars_of, decimal, is_ws, owned, push_str, starts_with, str_starts_with,
    str_ends_with, ends_with, string_of_range, decimal_string,
};

verus! {

/// What a job is asked to do.
#[derive(Debug)]
pub struct EnqueueRequest {
    pub executable: String,
    pub profile: String,
    pub target_size_mb: Option<u64>,
    pub hardware_fallback: bool,
    pub vaapi_device: Option<String>,
    pub output_dir: Option<String>,
    pub overwrite: bool,
    pub files: Vec<String>,
}

/// The systemd unit of a conversion job.
pub open spec fn job_unit_name(job_id: Seq<char>) -> Seq<char> {
    "media-studio-"@ + job_id + ".service"@
}

pub fn job_unit(job_id: &str) -> (r: String)
    ensures
        r@ == job_unit_name(job_id@),
{
    let mut r = owned("media-studio-");
    push_str(&mut r, job_id);
    push_str(&mut r, ".service");
    r
}

pub open spec fn bool_text(b: bool) -> Seq<char> {
    if b {
        "true"@
    } else {
        "false"@
    }
}

/// `bool::to_string`.
pub fn bool_string(b: bool) -> (r: String)
    ensures
        r@ == bool_text(b),
{
    if b {
        owned("true")
    } else {
        owned("false")
    }
}

/// `--setenv=MEDIA_STUDIO_VAAPI_DEVICE=<device>` for a chosen device.
pub open spec fn vaapi_env_spec(device: Option<Seq<char>>) -> Option<Seq<char>> {
    match device {
        Some(d) => Some("--setenv=MEDIA_STUDIO_VAAPI_DEVICE="@ + d),
        None => None,
    }
}

pub fn vaapi_environment_arg(device: Option<&str>) -> (r: Option<String>)
    ensures
        match r {
            Some(s) => vaapi_env_spec(crate::paths::opt_str(device)) == Some(s@),
            None => device is None,
        },
{
    match device {
        Some(d) => {
            let mut s = owned("--setenv=MEDIA_STUDIO_VAAPI_DEVICE=");
            push_str(&mut s, d);
            Some(s)
        },
        None => None,
    }
}

pub open spec fn setenv(key: Seq<char>, value: Option<Seq<char>>) -> Seq<Seq<char>> {
    match value {
        Some(v) => seq!["--setenv="@ + key + "="@ + v],
        None => Seq::empty(),
    }
}

fn push_setenv(out: &mut Vec<String>, key: &str, value: Option<&str>)
    ensures
        final(out).deep_view() == old(out).deep_view() + setenv(key@, crate::paths::opt_str(value)),
{
    match value {
        Some(v) => {
            let mut s = owned("--setenv=");
            push_str(&mut s, key);
            push_str(&mut s, "=");
            push_str(&mut s, v);
            let ghost before = out.deep_view();
            out.push(s);
            assert(out.deep_view() =~= before + setenv(key@, crate::paths::opt_str(value)));
        },
        None => {
            assert(out.deep_view() =~= old(out).deep_view() + setenv(key@, crate::paths::opt_str(value)));
        },
    }
}

/// The user-data variables that a job inherits, in the order HOME,
/// XDG_CONFIG_HOME, XDG_DATA_HOME, XDG_STATE_HOME; each one that is set
/// becomes `--setenv=<KEY>=<value>`.
pub fn inherited_environment_args(
    home: Option<&str>,
    config_home: Option<&str>,
    data_home: Option<&str>,
    state_home: Option<&str>,
) -> (r: Vec<String>)
    ensures
        r.deep_view() == setenv("HOME"@, crate::paths::opt_str(home)) + setenv(
            "XDG_CONFIG_HOME"@,
            crate::paths::opt_str(config_home),
        ) + setenv("XDG_DATA_HOME"@, crate::paths::opt_str(data_home)) + setenv(
            "XDG_STATE_HOME"@,
            crate::paths::opt_str(state_home),
        ),
{
    let mut r: Vec<String> = Vec::new();
    assert(r.deep_view() =~= Seq::<Seq<char>>::empty());
    push_setenv(&mut r, "HOME", home);
    push_setenv(&mut r, "XDG_CONFIG_HOME", config_home);
    push_setenv(&mut r, "XDG_DATA_HOME", data_home);
    push_setenv(&mut r, "XDG_STATE_HOME", state_home);
    assert(r.deep_view() =~= setenv("HOME"@, crate::paths::opt_str(home)) + setenv(
        "XDG_CONFIG_HOME"@,
        crate::paths::opt_str(config_home),
    ) + setenv("XDG_DATA_HOME"@, crate::paths::opt_str(data_home)) + setenv(
        "XDG_STATE_HOME"@,
        crate::paths::opt_str(state_home),
    ));
    r
}

/// The `systemd-run` arguments of a job.
pub open spec fn enqueue_args_spec(
    executable: Seq<char>,
    profile: Seq<char>,
    target_size_mb: Option<u64>,
    hardware_fallback: bool,
    vaapi_device: Option<Seq<char>>,
    output_dir: Option<Seq<char>>,
    overwrite: bool,
    files: Seq<Seq<char>>,
    job_id: Seq<char>,
    env_args: Seq<Seq<char>>,
) -> Seq<Seq<char>> {
    seq![
        "--user"@,
        "--collect"@,
        "--unit"@,
        job_unit_name(job_id),
        "--description"@,
        "Media Studio conversion"@,
        "--nice"@,
        "5"@,
        "--no-block"@,
        "--quiet"@,
    ] + env_args + (match vaapi_env_spec(vaapi_device) {
        Some(a) => seq![a],
        None => Seq::empty(),
    }) + seq![
        executable,
        "run"@,
        "--job-id"@,
        job_id,
        "--profile"@,
        profile,
        "--hardware-fallback"@,
        bool_text(hardware_fallback),
    ] + ((match target_size_mb {
        Some(v) => seq!["--target-size-mb"@, decimal(v as nat)],
        None => Seq::empty(),
    }) + (match output_dir {
        Some(d) => seq!["--output-dir"@, d],
        None => Seq::empty(),
    }) + (if overwrite {
        seq!["--overwrite"@]
    } else {
        Seq::empty()
    }) + seq!["--"@]) + files
}

/// An enqueue request without files.
#[derive(Debug)]
pub struct NothingSelected;

impl NothingSelected {
    pub fn message(&self) -> (r: String)
        ensures
            r@ == "в Dolphin ничего не выбрано. Выберите хотя бы один медиафайл."@,
    {
        owned("в Dolphin ничего не выбрано. Выберите хотя бы один медиафайл.")
    }
}

/// The `systemd-run` arguments of a job; a request without files is refused.
pub fn enqueue_args(request: &EnqueueRequest, job_id: &str, env_args: &Vec<String>) -> (r: Result<
    Vec<String>,
    NothingSelected,
>)
    ensures
        request.files@.len() == 0 <==> r is Err,
        r matches Ok(a) ==> a.deep_view() == enqueue_args_spec(
            request.executable@,
            request.profile@,
            request.target_size_mb,
            request.hardware_fallback,
            crate::model::opt_view(request.vaapi_device),
            crate::model::opt_view(request.output_dir),
            request.overwrite,
            request.files.deep_view(),
            job_id@,
            env_args.deep_view(),
        ),
{
    if request.files.len() == 0 {
        return Err(NothingSelected);
    }
    let mut a = unit_head(job_id);
    append_all(&mut a, crate::text::copy_strings(env_args));
    let mut vaapi: Vec<String> = Vec::new();
    match &request.vaapi_device {
        Some(d) => {
            let mut s = owned("--setenv=MEDIA_STUDIO_VAAPI_DEVICE=");
            push_str(&mut s, d.as_str());
            vaapi.push(s);
        },
        None => {},
    }
    assert(vaapi.deep_view() =~= match vaapi_env_spec(crate::model::opt_view(request.vaapi_device)) {
        Some(x) => seq![x],
        None => Seq::<Seq<char>>::empty(),
    });
    append_all(&mut a, vaapi);
    append_all(&mut a, run_head(request, job_id));
    append_all(&mut a, option_tail(request));
    append_all(&mut a, crate::text::copy_strings(&request.files));
    Ok(a)
}

fn append_all(a: &mut Vec<String>, b: Vec<String>)
    ensures
        final(a).deep_view() == old(a).deep_view() + b.deep_view(),
{
    let mut b = b;
    let ghost bv = b.deep_view();
    a.append(&mut b);
    assert(a.deep_view() =~= old(a).deep_view() + bv);
}

fn unit_head(job_id: &str) -> (a: Vec<String>)
    ensures
        a.deep_view() == seq![
            "--user"@,
            "--collect"@,
            "--unit"@,
            job_unit_name(job_id@),
            "--description"@,
            "Media Studio conversion"@,
            "--nice"@,
            "5"@,
            "--no-block"@,
            "--quiet"@,
        ],
{
    let mut a: Vec<String> = Vec::new();
    a.push(owned("--user"));
    a.push(owned("--collect"));
    a.push(owned("--unit"));
    a.push(job_unit(job_id));
    a.push(owned("--description"));
    a.push(owned("Media Studio conversion"));
    a.push(owned("--nice"));
    a.push(owned("5"));
    a.push(owned("--no-block"));
    a.push(owned("--quiet"));
    assert(a.deep_view() =~= seq![
        "--user"@,
        "--collect"@,
        "--unit"@,
        job_unit_name(job_id@),
        "--description"@,
        "Media Studio conversion"@,
        "--nice"@,
        "5"@,
        "--no-block"@,
        "--quiet"@,
    ]);
    a
}

fn run_head(request: &EnqueueRequest, job_id: &str) -> (a: Vec<String>)
    ensures
        a.deep_view() == seq![
            request.executable@,
            "run"@,
            "--job-id"@,
            job_id@,
            "--profile"@,
            request.profile@,
            "--hardware-fallback"@,
            bool_text(request.hardware_fallback),
        ],
{
    let mut a: Vec<String> = Vec::new();
    a.push(request.executable.clone());
    a.push(owned("run"));
    a.push(owned("--job-id"));
    a.push(owned(job_id));
    a.push(owned("--profile"));
    a.push(request.profile.clone());
    a.push(owned("--hardware-fallback"));
    a.push(bool_string(request.hardware_fallback));
    assert(a.deep_view() =~= seq![
        request.executable@,
        "run"@,
        "--job-id"@,
        job_id@,
        "--profile"@,
        request.profile@,
        "--hardware-fallback"@,
        bool_text(request.hardware_fallback),
    ]);
    a
}

fn option_tail(request: &EnqueueRequest) -> (a: Vec<String>)
    ensures
        a.deep_view() == (match request.target_size_mb {
            Some(v) => seq!["--target-size-mb"@, decimal(v as nat)],
            None => Seq::<Seq<char>>::empty(),
        }) + (match crate::model::opt_view(request.output_dir) {
            Some(d) => seq!["--output-dir"@, d],
            None => Seq::<Seq<char>>::empty(),
        }) + (if request.overwrite {
            seq!["--overwrite"@]
        } else {
            Seq::<Seq<char>>::empty()
        }) + seq!["--"@],
{
    let mut a: Vec<String> = Vec::new();
    match request.target_size_mb {
        Some(v) => {
            a.push(owned("--target-size-mb"));
            a.push(decimal_string(v));
        },
        None => {},
    }
    let ghost s1 = a.deep_view();
    match &request.output_dir {
        Some(d) => {
            a.push(owned("--output-dir"));
            a.push(d.clone());
        },
        None => {},
    }
    let ghost s2 = a.deep_view();
    if request.overwrite {
        a.push(owned("--overwrite"));
    }
    let ghost s3 = a.deep_view();
    a.push(owned("--"));
    assert(a.deep_view() =~= (match request.target_size_mb {
        Some(v) => seq!["--target-size-mb"@, decimal(v as nat)],
        None => Seq::<Seq<char>>::empty(),
    }) + (match crate::model::opt_view(request.output_dir) {
        Some(d) => seq!["--output-dir"@, d],
        None => Seq::<Seq<char>>::empty(),
    }) + (if request.overwrite {
        seq!["--overwrite"@]
    } else {
        Seq::<Seq<char>>::empty()
    }) + seq!["--"@]);
    a
}

/// The job identifier: the launch time in nanoseconds and the process id.
pub fn format_job_id(nanos: u64, pid: u32) -> (r: String)
    ensures
        r@ == decimal(nanos as nat) + "-"@ + decimal(pid as nat),
{
    let mut r = decimal_string(nanos);
    push_str(&mut r, "-");
    let p = decimal_string(pid as u64);
    push_str(&mut r, p.as_str());
    r
}

/// The notice that a job was queued.
pub fn queued_message(job_id: &str, files: u64) -> (r: String)
    ensures
        r@ == "Задача "@ + job_id@ + " добавлена в очередь: "@ + decimal(files as nat) + " файл(ов)"@,
{
    let mut r = owned("Задача ");
    push_str(&mut r, job_id);
    push_str(&mut r, " добавлена в очередь: ");
    let n = decimal_string(files);
    push_str(&mut r, n.as_str());
    push_str(&mut r, " файл(ов)");
    r
}

/// A unit of a conversion job (not of a watch folder).
pub open spec fn is_conversion_unit_spec(unit: Seq<char>) -> bool {
    starts_with(unit, "media-studio-"@) && !starts_with(unit, "media-studio-watch-"@)
}

pub fn is_conversion_unit(unit: &str) -> (r: bool)
    ensures
        r == is_conversion_unit_spec(unit@),
{
    str_starts_with(unit, "media-studio-") && !str_starts_with(unit, "media-studio-watch-")
}

/// A line without the `\r` that precedes its `\n`.
pub open spec fn line_of(piece: Seq<char>) -> Seq<char> {
    if piece.len() > 0 && piece.last() == '\r' {
        piece.drop_last()
    } else {
        piece
    }
}

/// `str::lines`: split at `\n`, a `\r` before it dropped, and no empty line
/// after a final `\n`.
#[verifier::opaque]
pub open spec fn lines(s: Seq<char>) -> Seq<Seq<char>>
    decreases s.len(),
{
    if s.len() == 0 {
        Seq::empty()
    } else if exists|i: int| 0 <= i < s.len() && s[i] == '\n' {
        let i = choose|i: int| 0 <= i < s.len() && s[i] == '\n' && forall|j: int| 0 <= j < i ==> s[j] != '\n';
        if 0 <= i < s.len() {
            seq![line_of(s.take(i))] + lines(s.skip(i + 1))
        } else {
            Seq::empty()
        }
    } else {
        seq![s]
    }
}

/// The first whitespace-separated token of a line (empty where there is none).
pub open spec fn first_token(l: Seq<char>) -> Seq<char>
    decreases l.len(),
{
    if l.len() == 0 {
        l
    } else if is_ws(l[0]) {
        first_token(l.drop_first())
    } else {
        token_prefix(l)
    }
}

/// The longest prefix without whitespace.
pub open spec fn token_prefix(l: Seq<char>) -> Seq<char>
    decreases l.len(),
{
    if l.len() == 0 || is_ws(l[0]) {
        Seq::empty()
    } else {
        seq![l[0]] + token_prefix(l.drop_first())
    }
}

/// Lines joined with `\n`.
pub open spec fn join_lines(ls: Seq<Seq<char>>) -> Seq<char>
    decreases ls.len(),
{
    if ls.len() == 0 {
        Seq::empty()
    } else if ls.len() == 1 {
        ls[0]
    } else {
        join_lines(ls.drop_last()) + "\n"@ + ls.last()
    }
}

/// The lines whose first token is a conversion unit.
pub open spec fn job_lines(ls: Seq<Seq<char>>) -> Seq<Seq<char>>
    decreases ls.len(),
{
    if ls.len() == 0 {
        Seq::empty()
    } else if is_conversion_unit_spec(first_token(ls.last())) {
        job_lines(ls.drop_last()).push(ls.last())
    } else {
        job_lines(ls.drop_last())
    }
}

/// What `queue list` prints of `systemctl list-units` output.
pub open spec fn queue_listing_spec(units: Seq<char>) -> Seq<char> {
    let text = join_lines(job_lines(lines(units)));
    if text.len() == 0 {
        "Очередь Media Studio пуста."@
    } else {
        text
    }
}

proof fn lemma_lines_step(s: Seq<char>, i: int)
    requires
        0 <= i < s.len(),
        s[i] == '\n',
        forall|j: int| 0 <= j < i ==> s[j] != '\n',
    ensures
        lines(s) == seq![line_of(s.take(i))] + lines(s.skip(i + 1)),
{
    reveal(lines);
    let k = choose|k: int| 0 <= k < s.len() && s[k] == '\n' && forall|j: int| 0 <= j < k ==> s[j] != '\n';
    assert(0 <= k < s.len() && s[k] == '\n' && forall|j: int| 0 <= j < k ==> s[j] != '\n');
    if k < i {
        assert(s[k] != '\n');
    } else if k > i {
        assert(s[i] != '\n');
    }
}

proof fn lemma_line_piece(s: Seq<char>, start: int, i: int)
    requires
        0 <= start <= i < s.len(),
        s[i] == '\n',
        forall|j: int| start <= j < i ==> s[j] != '\n',
    ensures
        lines(s.skip(start)) == seq![line_of(s.subrange(start, i))] + lines(s.skip(i + 1)),
{
    let rest = s.skip(start);
    assert forall|j: int| 0 <= j < i - start implies rest[j] != '\n' by {
        assert(rest[j] == s[start + j]);
    }
    lemma_lines_step(rest, i - start);
    assert(rest.skip(i - start + 1) =~= s.skip(i + 1));
    assert(rest.take(i - start) =~= s.subrange(start, i));
}

proof fn lemma_last_line(s: Seq<char>, start: int)
    requires
        0 <= start < s.len(),
        forall|j: int| start <= j < s.len() ==> s[j] != '\n',
    ensures
        lines(s.skip(start)) == seq![s.skip(start)],
{
    reveal(lines);
    let rest = s.skip(start);
    if exists|j: int| 0 <= j < rest.len() && rest[j] == '\n' {
        let j = choose|j: int| 0 <= j < rest.len() && rest[j] == '\n';
        assert(rest[j] == s[start + j]);
    }
}

/// Splits text into lines (`str::lines`).
pub fn split_lines(text: &str) -> (r: Vec<String>)
    ensures
        r.deep_view() == lines(text@),
{
    let cs = chars_of(text);
    let mut r: Vec<String> = Vec::new();
    let mut start: usize = 0;
    let mut i: usize = 0;
    assert(cs@.skip(0) =~= cs@);
    assert(r.deep_view() =~= Seq::<Seq<char>>::empty());
    while i < cs.len()
        invariant
            start <= i <= cs.len(),
            cs@ == text@,
            forall|j: int| start <= j < i ==> cs@[j] != '\n',
            r.deep_view() + lines(cs@.skip(start as int)) == lines(text@),
        decreases cs.len() - i,
    {
        if cs[i] == '\n' {
            proof {
                lemma_line_piece(cs@, start as int, i as int);
            }
            let end = if i > start && cs[i - 1] == '\r' { i - 1 } else { i };
            let line = string_of_range(&cs, start, end);
            proof {
                let piece = cs@.subrange(start as int, i as int);
                if end < i {
                    assert(piece.drop_last() =~= cs@.subrange(start as int, end as int));
                }
                assert(line@ == line_of(piece));
            }
            let ghost before = r.deep_view();
            r.push(line);
            assert(r.deep_view() =~= before + seq![line@]);
            start = i + 1;
        }
        i = i + 1;
    }
    if start < cs.len() {
        let line = string_of_range(&cs, start, cs.len());
        proof {
            lemma_last_line(cs@, start as int);
            assert(cs@.skip(start as int) =~= line@);
        }
        let ghost before = r.deep_view();
        r.push(line);
        assert(r.deep_view() =~= before + seq![line@]);
    } else {
        assert(cs@.skip(start as int) =~= Seq::<char>::empty());
        reveal(lines);
        assert(lines(cs@.skip(start as int)) =~= Seq::<Seq<char>>::empty());
    }
    r
}

/// The first whitespace-separated token of a line.
pub fn first_token_of(line: &str) -> (r: String)
    ensures
        r@ == first_token(line@),
{
    let cs = chars_of(line);
    let mut a: usize = 0;
    assert(cs@.skip(0) =~= cs@);
    while a < cs.len() && char_is_ws(cs[a])
        invariant
            a <= cs.len(),
            first_token(cs@) == first_token(cs@.skip(a as int)),
        decreases cs.len() - a,
    {
        assert(cs@.skip(a as int).drop_first() =~= cs@.skip(a + 1));
        a = a + 1;
    }
    let mut b: usize = a;
    while b < cs.len() && !char_is_ws(cs[b])
        invariant
            a <= b <= cs.len(),
            token_prefix(cs@.skip(a as int)) == cs@.subrange(a as int, b as int) + token_prefix(
                cs@.skip(b as int),
            ),
        decreases cs.len() - b,
    {
        assert(cs@.skip(b as int).drop_first() =~= cs@.skip(b + 1));
        assert(cs@.subrange(a as int, b + 1) =~= cs@.subrange(a as int, b as int) + seq![cs@[b as int]]);
        b = b + 1;
    }
    proof {
        if b < cs.len() {
            assert(cs@.skip(b as int)[0] == cs@[b as int]);
        } else {
            assert(cs@.skip(b as int) =~= Seq::<char>::empty());
        }
        if a < cs.len() {
            assert(cs@.skip(a as int)[0] == cs@[a as int]);
        } else {
            assert(cs@.skip(a as int) =~= Seq::<char>::empty());
        }
        assert(cs@.subrange(a as int, b as int) + Seq::<char>::empty() =~= cs@.subrange(a as int, b as int));
    }
    string_of_range(&cs, a, b)
}

/// What `queue list` prints: the conversion-job lines of the unit listing,
/// or a notice that the queue is empty.
pub fn queue_listing(units: &str) -> (r: String)
    ensures
        r@ == queue_listing_spec(units@),
{
    let ls = split_lines(units);
    let ghost lv = ls.deep_view();
    let mut text = String::new();
    let ghost mut kept: Seq<Seq<char>> = Seq::empty();
    let mut any = false;
    let mut i: usize = 0;
    while i < ls.len()
        invariant
            i <= ls.len(),
            lv == ls.deep_view(),
            lv == lines(units@),
            kept == job_lines(lv.take(i as int)),
            any == (kept.len() > 0),
            text@ == join_lines(kept),
        decreases ls.len() - i,
    {
        assert(lv.take(i + 1).drop_last() =~= lv.take(i as int));
        assert(lv.take(i + 1).last() == ls@[i as int]@);
        let tok = first_token_of(ls[i].as_str());
        if is_conversion_unit(tok.as_str()) {
            if any {
                push_str(&mut text, "\n");
            }
            push_str(&mut text, ls[i].as_str());
            proof {
                let nk = kept.push(ls@[i as int]@);
                assert(nk.drop_last() =~= kept);
                if kept.len() == 0 {
                    assert(text@ =~= join_lines(nk));
                }
                kept = nk;
            }
            any = true;
        }
        i = i + 1;
    }
    assert(lv.take(i as int) =~= lv);
    if text.as_str().is_empty() {
        owned("Очередь Media Studio пуста.")
    } else {
        text
    }
}

/// Why a unit cannot be cancelled through the queue.
#[derive(Debug)]
pub enum CancelError {
    /// A watch-folder unit.
    WatchUnit,
    /// Not a valid job identifier.
    InvalidJobId,
}

impl CancelError {
    pub fn message(&self) -> (r: String)
        ensures
            r@ == match self {
                CancelError::WatchUnit => "watch-folder unit нельзя отменить через queue; используйте `media-studio watch stop --id ID`"@,
                CancelError::InvalidJobId => "некорректный идентификатор задачи"@,
            },
    {
        match self {
            CancelError::WatchUnit => owned(
                "watch-folder unit нельзя отменить через queue; используйте `media-studio watch stop --id ID`",
            ),
            CancelError::InvalidJobId => owned("некорректный идентификатор задачи"),
        }
    }
}

/// The job identifier in a job identifier or unit name: without a
/// `.service` suffix and a `media-studio-` prefix.
pub open spec fn normalized_job_id(job: Seq<char>) -> Seq<char> {
    let a = if ends_with(job, ".service"@) {
        job.take(job.len() - ".service"@.len())
    } else {
        job
    };
    if starts_with(a, "media-studio-"@) {
        a.skip("media-studio-"@.len() as int)
    } else {
        a
    }
}

/// The unit to stop for `queue cancel`.
pub open spec fn cancel_unit_spec(job: Seq<char>) -> Result<Seq<char>, bool> {
    let n = normalized_job_id(job);
    if starts_with(n, "watch-"@) {
        Err(true)
    } else if !valid_job_id_spec(n) {
        Err(false)
    } else {
        Ok(job_unit_name(n))
    }
}

/// The unit that `queue cancel` stops; watch-folder units and invalid
/// identifiers are refused.
pub fn cancel_unit(job: &str) -> (r: Result<String, CancelError>)
    ensures
        match r {
            Ok(u) => cancel_unit_spec(job@) == Ok::<Seq<char>, bool>(u@),
            Err(CancelError::WatchUnit) => cancel_unit_spec(job@) == Err::<Seq<char>, bool>(true),
            Err(CancelError::InvalidJobId) => cancel_unit_spec(job@) == Err::<Seq<char>, bool>(false),
        },
{
    let cs = chars_of(job);
    let suffix_len = chars_of(".service").len();
    let end = if str_ends_with(job, ".service") { cs.len() - suffix_len } else { cs.len() };
    let a = string_of_range(&cs, 0, end);
    assert(a@ =~= (if ends_with(job@, ".service"@) {
        job@.take(job@.len() - ".service"@.len())
    } else {
        job@
    }));
    let n = match crate::text::str_strip_prefix(a.as_str(), "media-studio-") {
        Some(rest) => rest,
        None => a,
    };
    assert(n@ == normalized_job_id(job@));
    if str_starts_with(n.as_str(), "watch-") {
        return Err(CancelError::WatchUnit);
    }
    if !valid_job_id(n.as_str()) {
        return Err(CancelError::InvalidJobId);
    }
    Ok(job_unit(n.as_str()))
}

/// `10^k`.
pub open spec fn pow10(k: nat) -> nat
    decreases k,
{
    if k == 0 {
        1
    } else {
        10 * pow10((k - 1) as nat)
    }
}

/// A decimal notation is one or more ASCII digits, at most `k` of them
/// below `10^k`.
pub proof fn lemma_decimal_shape(n: nat, k: nat)
    requires
        k >= 1,
        n < pow10(k),
    ensures
        1 <= decimal(n).len() <= k,
        forall|i: int| 0 <= i < decimal(n).len() ==> '0' <= #[trigger] decimal(n)[i] <= '9',
    decreases k,
{
    if n >= 10 {
        assert(k >= 2) by {
            if k == 1 {
                assert(pow10(0) == 1);
            }
        }
        lemma_decimal_shape(n / 10, (k - 1) as nat);
        let d = decimal(n / 10);
        assert(decimal(n) == d.push(crate::text::digit((n % 10) as int)));
        assert forall|i: int| 0 <= i < decimal(n).len() implies '0' <= #[trigger] decimal(n)[i] <= '9' by {
            if i < d.len() {
                assert(decimal(n)[i] == d[i]);
            }
        }
    }
}

proof fn lemma_u64_decimal(n: u64)
    ensures
        1 <= decimal(n as nat).len() <= 20,
        forall|i: int| 0 <= i < decimal(n as nat).len() ==> '0' <= #[trigger] decimal(n as nat)[i] <= '9',
{
    reveal_with_fuel(pow10, 21);
    assert(pow10(20) == 100000000000000000000nat);
    lemma_decimal_shape(n as nat, 20);
}

/// A job identifier made by `format_job_id` is valid; its unit is one that
/// `queue list` shows; and `queue cancel` stops that unit whether it is given
/// the identifier or the unit name.
pub proof fn made_job_ids_are_listed_and_cancellable(nanos: u64, pid: u32)
    ensures
        ({
            let j = decimal(nanos as nat) + "-"@ + decimal(pid as nat);
            &&& valid_job_id_spec(j)
            &&& is_conversion_unit_spec(job_unit_name(j))
            &&& cancel_unit_spec(j) == Ok::<Seq<char>, bool>(job_unit_name(j))
            &&& cancel_unit_spec(job_unit_name(j)) == Ok::<Seq<char>, bool>(job_unit_name(j))
        }),
{
    reveal_strlit("-");
    reveal_strlit("media-studio-");
    reveal_strlit(".service");
    reveal_strlit("watch-");
    reveal_strlit("media-studio-watch-");
    lemma_u64_decimal(nanos);
    lemma_u64_decimal(pid as u64);
    let a = decimal(nanos as nat);
    let b = decimal(pid as nat);
    let j = a + "-"@ + b;
    assert forall|i: int| 0 <= i < j.len() implies crate::model::is_id_char(#[trigger] j[i]) by {
        if i < a.len() {
            assert(j[i] == a[i]);
        } else if i == a.len() {
            assert(j[i] == '-');
        } else {
            assert(j[i] == b[i - a.len() - 1]);
        }
    }
    assert(j[0] == a[0]);
    assert(!starts_with(j, "watch-"@)) by {
        if starts_with(j, "watch-"@) {
            assert(j.take(6)[0] == j[0]);
        }
    }
    assert(!starts_with(j, "media-studio-"@)) by {
        if starts_with(j, "media-studio-"@) {
            assert(j.take(13)[0] == j[0]);
        }
    }
    assert(!ends_with(j, ".service"@)) by {
        if ends_with(j, ".service"@) {
            assert(j.skip(j.len() - 8)[7] == j[j.len() - 1]);
            assert(j[j.len() - 1] == b[b.len() - 1]);
        }
    }
    assert(normalized_job_id(j) == j);
    let u = job_unit_name(j);
    assert(starts_with(u, "media-studio-"@)) by {
        assert(u.take(13) =~= "media-studio-"@);
    }
    assert(!starts_with(u, "media-studio-watch-"@)) by {
        assert(u.take(19)[13] == j[0]);
    }
    assert(ends_with(u, ".service"@)) by {
        assert(u.skip(u.len() - 8) =~= ".service"@);
    }
    let t = u.take(u.len() - ".service"@.len());
    assert(t =~= "media-studio-"@ + j);
    assert(starts_with(t, "media-studio-"@)) by {
        assert(t.take(13) =~= "media-studio-"@);
    }
    assert(t.skip(13) =~= j);
    assert(normalized_job_id(u) == j);
}

/// Units of watch folders are never listed as jobs, and `queue cancel`
/// refuses them.
pub proof fn watch_units_are_not_jobs(id: Seq<char>)
    ensures
        !is_conversion_unit_spec(crate::paths::watch_unit_name(id)),
        cancel_unit_spec(crate::paths::watch_unit_name(id)) == Err::<Seq<char>, bool>(true),
{
    reveal_strlit("media-studio-");
    reveal_strlit(".service");
    reveal_strlit("watch-");
    reveal_strlit("media-studio-watch-");
    let u = crate::paths::watch_unit_name(id);
    assert(starts_with(u, "media-studio-watch-"@)) by {
        assert(u.take(19) =~= "media-studio-watch-"@);
    }
    assert(ends_with(u, ".service"@)) by {
        assert(u.skip(u.len() - 8) =~= ".service"@);
    }
    let t = u.take(u.len() - ".service"@.len());
    assert(t =~= "media-studio-watch-"@ + id);
    assert(starts_with(t, "media-studio-"@)) by {
        assert(t.take(13) =~= "media-studio-"@);
    }
    let n = t.skip(13);
    assert(n =~= "watch-"@ + id);
    assert(starts_with(n, "watch-"@)) by {
        assert(n.take(6) =~= "watch-"@);
    }
    assert(normalized_job_id(u) == n);
}

/// A decimal notation is never empty.
pub proof fn lemma_decimal_len(n: nat)
    ensures
        decimal(n).len() >= 1,
    decreases n,
{
    if n >= 10 {
        lemma_decimal_len(n / 10);
    }
}

/// A decimal notation holds only ASCII digits.
pub proof fn lemma_decimal_digits(n: nat)
    ensures
        forall|i: int| 0 <= i < decimal(n).len() ==> '0' <= #[trigger] decimal(n)[i] <= '9',
    decreases n,
{
    if n >= 10 {
        lemma_decimal_digits(n / 10);
        let d = decimal(n / 10);
        assert(decimal(n) == d.push(crate::text::digit((n % 10) as int)));
        assert forall|i: int| 0 <= i < decimal(n).len() implies '0' <= #[trigger] decimal(n)[i] <= '9' by {
            if i < d.len() {
                assert(decimal(n)[i] == d[i]);
            }
        }
    }
}

/// A queued job writes where the request says: with an output directory
/// `d`, the job's options (after its profile and fallback setting, before
/// the `--` that ends them) hold `--output-dir` followed by `d`; without
/// one they hold no `--output-dir`. The files follow the `--` as given.
pub proof fn queued_job_keeps_its_output_directory(
    executable: Seq<char>,
    profile: Seq<char>,
    target_size_mb: Option<u64>,
    hardware_fallback: bool,
    vaapi_device: Option<Seq<char>>,
    output_dir: Option<Seq<char>>,
    overwrite: bool,
    files: Seq<Seq<char>>,
    job_id: Seq<char>,
    env_args: Seq<Seq<char>>,
)
    ensures
        ({
            let a = enqueue_args_spec(
                executable,
                profile,
                target_size_mb,
                hardware_fallback,
                vaapi_device,
                output_dir,
                overwrite,
                files,
                job_id,
                env_args,
            );
            let h = 18 + env_args.len() + (if vaapi_device is Some { 1int } else { 0int });
            let n = a.len() - files.len() - 1;
            &&& h <= n < a.len()
            &&& a[h - 8] == executable
            &&& a[h - 4] == "--profile"@
            &&& a[h - 3] == profile
            &&& a[n] == "--"@
            &&& a.skip(n + 1) == files
            &&& output_dir matches Some(d) ==> exists|j: int|
                h <= j && j + 1 < n && #[trigger] a[j] == "--output-dir"@ && a[j + 1] == d
            &&& output_dir is None ==> forall|j: int| h <= j < n ==> #[trigger] a[j] != "--output-dir"@
        }),
{
    reveal_strlit("--output-dir");
    reveal_strlit("--target-size-mb");
    reveal_strlit("--overwrite");
    let head = seq![
        "--user"@,
        "--collect"@,
        "--unit"@,
        job_unit_name(job_id),
        "--description"@,
        "Media Studio conversion"@,
        "--nice"@,
        "5"@,
        "--no-block"@,
        "--quiet"@,
    ];
    let v: Seq<Seq<char>> = match vaapi_env_spec(vaapi_device) {
        Some(x) => seq![x],
        None => Seq::empty(),
    };
    let run = seq![
        executable,
        "run"@,
        "--job-id"@,
        job_id,
        "--profile"@,
        profile,
        "--hardware-fallback"@,
        bool_text(hardware_fallback),
    ];
    let t: Seq<Seq<char>> = match target_size_mb {
        Some(x) => seq!["--target-size-mb"@, decimal(x as nat)],
        None => Seq::empty(),
    };
    let o: Seq<Seq<char>> = match output_dir {
        Some(d) => seq!["--output-dir"@, d],
        None => Seq::empty(),
    };
    let w: Seq<Seq<char>> = if overwrite {
        seq!["--overwrite"@]
    } else {
        Seq::empty()
    };
    let pre = head + env_args + v + run;
    let opts = t + o + w;
    let a = enqueue_args_spec(
        executable,
        profile,
        target_size_mb,
        hardware_fallback,
        vaapi_device,
        output_dir,
        overwrite,
        files,
        job_id,
        env_args,
    );
    assert(a =~= pre + opts + seq!["--"@] + files);
    let h = pre.len() as int;
    let n = h + opts.len();
    assert(h == 18 + env_args.len() + (if vaapi_device is Some { 1int } else { 0int }));
    assert(a[h - 8] == run[0]);
    assert(a[h - 4] == run[4]);
    assert(a[h - 3] == run[5]);
    assert(a[n] == "--"@);
    assert(a.skip(n + 1) =~= files);
    assert forall|j: int| h <= j < n implies #[trigger] a[j] == opts[j - h] by {}
    if let Some(d) = output_dir {
        let j = h + t.len();
        assert(a[j] == opts[j - h]);
        assert(a[j + 1] == opts[j + 1 - h]);
    } else {
        if let Some(x) = target_size_mb {
            lemma_decimal_len(x as nat);
            lemma_decimal_digits(x as nat);
            assert('0' <= decimal(x as nat)[0] <= '9');
            assert("--output-dir"@[0] == '-');
            assert("--target-size-mb"@.len() != "--output-dir"@.len());
        }
        assert("--overwrite"@.len() != "--output-dir"@.len());
        assert forall|j: int| h <= j < n implies #[trigger] a[j] != "--output-dir"@ by {
            assert(a[j] == opts[j - h]);
        }
    }
}

} // verus!
