//! The decisions of the command-line tool around its commands: which profile
//! a job runs, what an install needs, how a job ends and what it reports, and
//! which files a watch folder hands on.
use vstd::prelude::*;
use crate::model::{valid_watch_id, valid_watch_id_spec, Config, WatchFolder};
use crate::paths::{valid_job_id, valid_job_id_spec};
use crate::profiles::{entry_keys, Profile, ProfileView};
use crate::queue::{bool_string, bool_text};
use crate::runtime::{answers_backed, found_somewhere, is_on_path};
use crate::text::{
    char_utf8_width, chars_of, contains_sub, decimal, decimal_string, join_strings, join_with,
    lemma_utf8_len_grows, owned, push_char, push_str, str_contains, string_of_range, utf8_len,
};

verus! {

/// A profile identifier that the configuration does not define.
#[derive(Debug)]
pub struct UnknownProfile {
    pub profile: String,
    /// The defined identifiers, joined by `, `.
    pub available: String,
}

impl UnknownProfile {
    pub fn message(&self) -> (r: String)
        ensures
            r@ == "неизвестный профиль `"@ + self.profile@ + "`. Доступны: "@ + self.available@,
    {
        let mut r = owned("неизвестный профиль `");
        push_str(&mut r, self.profile.as_str());
        push_str(&mut r, "`. Доступны: ");
        push_str(&mut r, self.available.as_str());
        r
    }
}

/// Refuses a profile identifier that the configuration does not define.
pub fn require_profile(config: &Config, profile: &str) -> (r: Result<(), UnknownProfile>)
    ensures
        r is Ok <==> config.profiles.map().contains_key(profile@),
        r matches Err(e) ==> e.profile@ == profile@ && e.available@ == join_with(
            entry_keys(config.profiles@),
            ", "@,
        ),
{
    if config.profiles.contains_key(profile) {
        return Ok(());
    }
    let ids = config.profiles.ids();
    Err(UnknownProfile { profile: owned(profile), available: join_strings(&ids, ", ") })
}

/// A profile with the target size of the request, where one is given.
pub open spec fn with_target(p: ProfileView, target_size_mb: Option<u64>) -> ProfileView {
    match target_size_mb {
        Some(t) => ProfileView { target_size_mb: Some(t), ..p },
        None => p,
    }
}

/// The profile a job runs: the configured one, with the requested target
/// size in place of its own where a size is requested.
pub fn selected_profile(config: &Config, profile_id: &str, target_size_mb: Option<u64>) -> (r:
    Result<Profile, UnknownProfile>)
    ensures
        r is Ok <==> config.profiles.map().contains_key(profile_id@),
        r matches Ok(p) ==> p@ == with_target(config.profiles.map()[profile_id@], target_size_mb),
        r matches Err(e) ==> e.profile@ == profile_id@ && e.available@ == join_with(
            entry_keys(config.profiles@),
            ", "@,
        ),
{
    match config.profiles.get(profile_id) {
        Some(p) => {
            let mut selected = p.copied();
            if target_size_mb.is_some() {
                selected.target_size_mb = target_size_mb;
            }
            Ok(selected)
        },
        None => Err(
            UnknownProfile {
                profile: owned(profile_id),
                available: join_strings(&config.profiles.ids(), ", "),
            },
        ),
    }
}

/// Why a queued job refuses to run.
#[derive(Debug)]
pub enum JobError {
    /// The job identifier is not one this tool makes.
    InvalidJobId,
    /// The job names a profile the configuration does not define.
    UnknownProfile(UnknownProfile),
    /// The job has no input files.
    NoFiles(String),
}

impl JobError {
    pub fn message(&self) -> (r: String)
        ensures
            r@ == match self {
                JobError::InvalidJobId => "некорректный идентификатор задачи"@,
                JobError::UnknownProfile(e) => "неизвестный профиль `"@ + e.profile@
                    + "`. Доступны: "@ + e.available@,
                JobError::NoFiles(id) => "задача "@ + id@ + " не содержит входных файлов"@,
            },
    {
        match self {
            JobError::InvalidJobId => owned("некорректный идентификатор задачи"),
            JobError::UnknownProfile(e) => e.message(),
            JobError::NoFiles(id) => {
                let mut r = owned("задача ");
                push_str(&mut r, id.as_str());
                push_str(&mut r, " не содержит входных файлов");
                r
            },
        }
    }
}

/// A job runs only under an identifier of the form this tool makes.
pub fn check_job_id(job_id: &str) -> (r: Result<(), JobError>)
    ensures
        r is Ok <==> valid_job_id_spec(job_id@),
        r is Err ==> r matches Err(JobError::InvalidJobId),
{
    if valid_job_id(job_id) {
        Ok(())
    } else {
        Err(JobError::InvalidJobId)
    }
}

/// The profile of a queued job with `file_count` input files: the profile
/// must exist, then the job must have files.
pub fn prepare_job(
    config: &Config,
    job_id: &str,
    profile_id: &str,
    file_count: usize,
    target_size_mb: Option<u64>,
) -> (r: Result<Profile, JobError>)
    ensures
        !config.profiles.map().contains_key(profile_id@) ==> (r matches Err(
            JobError::UnknownProfile(e),
        ) && e.profile@ == profile_id@ && e.available@ == join_with(
            entry_keys(config.profiles@),
            ", "@,
        )),
        config.profiles.map().contains_key(profile_id@) && file_count == 0 ==> (r matches Err(
            JobError::NoFiles(id),
        ) && id@ == job_id@),
        config.profiles.map().contains_key(profile_id@) && file_count > 0 ==> (r matches Ok(p)
            && p@ == with_target(config.profiles.map()[profile_id@], target_size_mb)),
{
    if let Err(e) = require_profile(config, profile_id) {
        return Err(JobError::UnknownProfile(e));
    }
    if file_count == 0 {
        return Err(JobError::NoFiles(owned(job_id)));
    }
    match selected_profile(config, profile_id, target_size_mb) {
        Ok(p) => Ok(p),
        Err(e) => Err(JobError::UnknownProfile(e)),
    }
}

/// The first lines of a job's log.
pub open spec fn job_log_header_spec(job_id: Seq<char>, profile_id: Seq<char>, label: Seq<char>) -> Seq<
    char,
> {
    "JOB_ID="@ + job_id + "\nPROFILE="@ + profile_id + "\nLABEL="@ + label + "\n"@
}

pub fn job_log_header(job_id: &str, profile_id: &str, label: &str) -> (r: String)
    ensures
        r@ == job_log_header_spec(job_id@, profile_id@, label@),
{
    let mut r = owned("JOB_ID=");
    push_str(&mut r, job_id);
    push_str(&mut r, "\nPROFILE=");
    push_str(&mut r, profile_id);
    push_str(&mut r, "\nLABEL=");
    push_str(&mut r, label);
    push_str(&mut r, "\n");
    r
}

/// The notification when a job starts.
pub fn job_started_message(job_id: &str, label: &str) -> (r: String)
    ensures
        r@ == "Запущена задача "@ + job_id@ + ": "@ + label@,
{
    let mut r = owned("Запущена задача ");
    push_str(&mut r, job_id);
    push_str(&mut r, ": ");
    push_str(&mut r, label);
    r
}

/// How far a job has come: files converted, files failed, and the first
/// result.
#[derive(Debug)]
pub struct JobTally {
    pub ok: u64,
    pub failed: u64,
    pub first_output: Option<String>,
}

/// The state a job ends in.
pub open spec fn job_state_spec(ok: nat, failed: nat) -> Seq<char> {
    if failed == 0 {
        "completed"@
    } else if ok > 0 {
        "partial"@
    } else {
        "failed"@
    }
}

pub open spec fn opt_string(o: Option<String>) -> Option<Seq<char>> {
    match o {
        Some(s) => Some(s@),
        None => None,
    }
}

impl JobTally {
    pub fn new() -> (r: JobTally)
        ensures
            r.ok == 0,
            r.failed == 0,
            r.first_output is None,
    {
        JobTally { ok: 0, failed: 0, first_output: None }
    }

    /// A file was converted into `output`.
    pub fn record_success(&mut self, output: &str)
        requires
            old(self).ok < u64::MAX,
        ensures
            final(self).ok == old(self).ok + 1,
            final(self).failed == old(self).failed,
            opt_string(final(self).first_output) == match opt_string(old(self).first_output) {
                Some(o) => Some(o),
                None => Some(output@),
            },
    {
        self.ok = self.ok + 1;
        if self.first_output.is_none() {
            self.first_output = Some(owned(output));
        }
    }

    /// A file failed.
    pub fn record_failure(&mut self)
        requires
            old(self).failed < u64::MAX,
        ensures
            final(self).failed == old(self).failed + 1,
            final(self).ok == old(self).ok,
            opt_string(final(self).first_output) == opt_string(old(self).first_output),
    {
        self.failed = self.failed + 1;
    }

    /// Whether the job ends well: it succeeds exactly when no file failed,
    /// which is when its state is `completed`.
    pub fn completed(&self) -> (r: bool)
        ensures
            r == (self.failed == 0),
            r == (job_state_spec(self.ok as nat, self.failed as nat) == "completed"@),
    {
        proof {
            reveal_strlit("completed");
            reveal_strlit("partial");
            reveal_strlit("failed");
            assert("partial"@.len() != "completed"@.len());
            assert("failed"@.len() != "completed"@.len());
        }
        self.failed == 0
    }

    /// `completed` without failures, `partial` with some of each, else
    /// `failed`.
    pub fn state(&self) -> (r: String)
        ensures
            r@ == job_state_spec(self.ok as nat, self.failed as nat),
    {
        if self.failed == 0 {
            owned("completed")
        } else if self.ok > 0 {
            owned("partial")
        } else {
            owned("failed")
        }
    }
}

/// Whether a job's log records a software fallback.
pub fn log_reports_fallback(log_text: &str) -> (r: bool)
    ensures
        r == contains_sub(log_text@, "HARDWARE_FALLBACK="@),
{
    str_contains(log_text, "HARDWARE_FALLBACK=")
}

/// The details of a job's final status.
pub open spec fn final_details_spec(
    profile_id: Seq<char>,
    ok: nat,
    failed: nat,
    log: Seq<char>,
    fallback: bool,
) -> Seq<(Seq<char>, Seq<char>)> {
    seq![
        ("profile"@, profile_id),
        ("ok"@, decimal(ok)),
        ("failed"@, decimal(failed)),
        ("log"@, log),
        ("hardware_fallback"@, bool_text(fallback)),
    ]
}

pub open spec fn pairs_of(v: Seq<(String, String)>) -> Seq<(Seq<char>, Seq<char>)> {
    v.map_values(|p: (String, String)| (p.0@, p.1@))
}

pub fn final_details(tally: &JobTally, profile_id: &str, log: &str, fallback: bool) -> (r: Vec<
    (String, String),
>)
    ensures
        pairs_of(r@) == final_details_spec(
            profile_id@,
            tally.ok as nat,
            tally.failed as nat,
            log@,
            fallback,
        ),
{
    let mut r: Vec<(String, String)> = Vec::new();
    r.push((owned("profile"), owned(profile_id)));
    r.push((owned("ok"), decimal_string(tally.ok)));
    r.push((owned("failed"), decimal_string(tally.failed)));
    r.push((owned("log"), owned(log)));
    r.push((owned("hardware_fallback"), bool_string(fallback)));
    assert(pairs_of(r@) =~= final_details_spec(
        profile_id@,
        tally.ok as nat,
        tally.failed as nat,
        log@,
        fallback,
    ));
    r
}

/// The notification of a job without failures.
pub open spec fn done_message_spec(
    label: Seq<char>,
    ok: nat,
    first_output: Option<Seq<char>>,
    fallback: bool,
    log: Seq<char>,
) -> Seq<char> {
    label + ": обработано "@ + decimal(ok) + " файл(ов)."@ + match first_output {
        Some(o) => " Первый результат: "@ + o + "."@,
        None => Seq::empty(),
    } + if fallback {
        " Аппаратное ускорение недоступно, использован software fallback."@
    } else {
        Seq::empty()
    } + " Лог: "@ + log
}

pub fn done_message(tally: &JobTally, label: &str, fallback: bool, log: &str) -> (r: String)
    ensures
        r@ == done_message_spec(label@, tally.ok as nat, opt_string(tally.first_output), fallback, log@),
{
    let mut r = owned(label);
    push_str(&mut r, ": обработано ");
    let n = decimal_string(tally.ok);
    push_str(&mut r, n.as_str());
    push_str(&mut r, " файл(ов).");
    let ghost a = r@;
    match &tally.first_output {
        Some(o) => {
            push_str(&mut r, " Первый результат: ");
            push_str(&mut r, o.as_str());
            push_str(&mut r, ".");
        },
        None => {},
    }
    let ghost b = r@;
    if fallback {
        push_str(&mut r, " Аппаратное ускорение недоступно, использован software fallback.");
    }
    push_str(&mut r, " Лог: ");
    push_str(&mut r, log);
    r
}

/// The notification of a job with failures.
pub fn partial_message(tally: &JobTally, log: &str) -> (r: String)
    ensures
        r@ == "Успешно: "@ + decimal(tally.ok as nat) + ", ошибок: "@ + decimal(tally.failed as nat)
            + ". Подробности: "@ + log@,
{
    let mut r = owned("Успешно: ");
    let ok = decimal_string(tally.ok);
    push_str(&mut r, ok.as_str());
    push_str(&mut r, ", ошибок: ");
    let failed = decimal_string(tally.failed);
    push_str(&mut r, failed.as_str());
    push_str(&mut r, ". Подробности: ");
    push_str(&mut r, log);
    r
}

/// The error a job with failures ends with.
pub fn failed_job_message(tally: &JobTally) -> (r: String)
    ensures
        r@ == "задача завершена с ошибками: успешно "@ + decimal(tally.ok as nat) + ", ошибок "@
            + decimal(tally.failed as nat),
{
    let mut r = owned("задача завершена с ошибками: успешно ");
    let ok = decimal_string(tally.ok);
    push_str(&mut r, ok.as_str());
    push_str(&mut r, ", ошибок ");
    let failed = decimal_string(tally.failed);
    push_str(&mut r, failed.as_str());
    r
}

/// A watch folder identifier that cannot name a unit.
#[derive(Debug)]
pub struct InvalidWatchId;

impl InvalidWatchId {
    pub fn message(&self) -> (r: String)
        ensures
            r@ == "id watch-folder должен содержать только A-Z, a-z, 0-9, '-' или '_' и быть не длиннее 64 символов"@,
    {
        owned(
            "id watch-folder должен содержать только A-Z, a-z, 0-9, '-' или '_' и быть не длиннее 64 символов",
        )
    }
}

pub fn ensure_watch_id(id: &str) -> (r: Result<(), InvalidWatchId>)
    ensures
        r is Ok <==> valid_watch_id_spec(id@),
{
    if valid_watch_id(id) {
        Ok(())
    } else {
        Err(InvalidWatchId)
    }
}

/// The error for a watch folder that is not configured.
pub fn watch_not_found_message(id: &str) -> (r: String)
    ensures
        r@ == "watch-folder не найден: "@ + id@,
{
    let mut r = owned("watch-folder не найден: ");
    push_str(&mut r, id);
    r
}

/// One line of `watch list`.
pub open spec fn watch_line_spec(
    id: Seq<char>,
    source: Seq<char>,
    destination: Seq<char>,
    profile: Seq<char>,
    enabled: bool,
    recursive: bool,
) -> Seq<char> {
    id + "\t"@ + source + " -> "@ + destination + "\tprofile="@ + profile + "\tenabled="@
        + bool_text(enabled) + "\trecursive="@ + bool_text(recursive)
}

pub fn watch_folder_line(folder: &WatchFolder) -> (r: String)
    ensures
        r@ == watch_line_spec(
            folder.id@,
            folder.source@,
            folder.destination@,
            folder.profile@,
            folder.enabled,
            folder.recursive,
        ),
{
    let mut r = owned(folder.id.as_str());
    push_str(&mut r, "\t");
    push_str(&mut r, folder.source.as_str());
    push_str(&mut r, " -> ");
    push_str(&mut r, folder.destination.as_str());
    push_str(&mut r, "\tprofile=");
    push_str(&mut r, folder.profile.as_str());
    push_str(&mut r, "\tenabled=");
    let e = bool_string(folder.enabled);
    push_str(&mut r, e.as_str());
    push_str(&mut r, "\trecursive=");
    let rec = bool_string(folder.recursive);
    push_str(&mut r, rec.as_str());
    r
}

/// One line of `profile list`.
pub fn profile_list_line(id: &str, profile: &Profile) -> (r: String)
    ensures
        r@ == id@ + "\t"@ + profile.category@ + "\t"@ + profile.label@ + "\tengine="@
            + profile.engine@ + "\text=."@ + profile.extension@,
{
    let mut r = owned(id);
    push_str(&mut r, "\t");
    push_str(&mut r, profile.category.as_str());
    push_str(&mut r, "\t");
    push_str(&mut r, profile.label.as_str());
    push_str(&mut r, "\tengine=");
    push_str(&mut r, profile.engine.as_str());
    push_str(&mut r, "\text=.");
    push_str(&mut r, profile.extension.as_str());
    r
}

/// Whether a watch folder hands a media file on to the queue: not one under
/// its own destination, one left alone for at least the settle time, and
/// not one already handed on with the same modification time.
pub fn should_enqueue(
    inside_destination: bool,
    age_seconds: u64,
    settle_seconds: u64,
    seen_unchanged: bool,
) -> (r: bool)
    ensures
        r == (!inside_destination && age_seconds >= settle_seconds && !seen_unchanged),
{
    !inside_destination && age_seconds >= settle_seconds && !seen_unchanged
}

/// The programs an install needs besides a dialog program.
pub open spec fn core_tools_spec() -> Seq<Seq<char>> {
    seq!["ffmpeg"@, "ffprobe"@, "systemd-run"@, "systemctl"@, "kbuildsycoca6"@]
}

pub fn core_tools() -> (r: Vec<String>)
    ensures
        r.deep_view() == core_tools_spec(),
{
    let mut r: Vec<String> = Vec::new();
    r.push(owned("ffmpeg"));
    r.push(owned("ffprobe"));
    r.push(owned("systemd-run"));
    r.push(owned("systemctl"));
    r.push(owned("kbuildsycoca6"));
    assert(r.deep_view() =~= core_tools_spec());
    r
}

/// The tools whose flag in `found` is false, in order.
pub open spec fn missing_of(tools: Seq<Seq<char>>, found: Seq<bool>) -> Seq<Seq<char>>
    decreases tools.len(),
{
    if tools.len() == 0 || found.len() == 0 {
        Seq::empty()
    } else {
        missing_of(tools.drop_last(), found.drop_last()) + if found.last() {
            Seq::empty()
        } else {
            seq![tools.last()]
        }
    }
}

fn missing_tools(tools: &Vec<String>, found: &Vec<bool>) -> (r: Vec<String>)
    requires
        found.len() == tools.len(),
    ensures
        r.deep_view() == missing_of(tools.deep_view(), found@),
{
    let ghost t = tools.deep_view();
    let mut r: Vec<String> = Vec::new();
    let mut i: usize = 0;
    while i < tools.len()
        invariant
            i <= tools.len(),
            found.len() == tools.len(),
            t == tools.deep_view(),
            r.deep_view() == missing_of(t.take(i as int), found@.take(i as int)),
        decreases tools.len() - i,
    {
        let ghost before = r.deep_view();
        if !found[i] {
            r.push(tools[i].clone());
        }
        proof {
            assert(t.take(i + 1).drop_last() =~= t.take(i as int));
            assert(found@.take(i + 1).drop_last() =~= found@.take(i as int));
            assert(t.take(i + 1).last() == tools@[i as int]@);
            assert(r.deep_view() =~= missing_of(t.take(i + 1), found@.take(i + 1)));
        }
        i = i + 1;
    }
    assert(t.take(i as int) =~= t);
    assert(found@.take(i as int) =~= found@);
    r
}

/// Why an install is refused.
#[derive(Debug)]
pub enum PreflightError {
    /// Required programs are missing.
    Missing(Vec<String>),
    /// Neither zenity nor kdialog is installed.
    NoDialog,
}

impl PreflightError {
    pub fn message(&self) -> (r: String)
        ensures
            r@ == match self {
                PreflightError::Missing(m) => "нельзя установить Media Studio: отсутствуют "@
                    + join_with(m.deep_view(), ", "@),
                PreflightError::NoDialog => "нельзя установить Media Studio: нужен zenity или kdialog для расширенного меню"@,
            },
    {
        match self {
            PreflightError::Missing(m) => {
                let mut r = owned("нельзя установить Media Studio: отсутствуют ");
                let list = join_strings(m, ", ");
                push_str(&mut r, list.as_str());
                r
            },
            PreflightError::NoDialog => owned(
                "нельзя установить Media Studio: нужен zenity или kdialog для расширенного меню",
            ),
        }
    }
}

/// The verdict of the install check, given which of `tools` were found and
/// whether zenity and kdialog were: the missing tools first, then the
/// dialog program.
pub fn preflight_verdict(tools: &Vec<String>, found: &Vec<bool>, zenity: bool, kdialog: bool) -> (r:
    Result<(), PreflightError>)
    requires
        found.len() == tools.len(),
    ensures
        missing_of(tools.deep_view(), found@).len() > 0 ==> (r matches Err(
            PreflightError::Missing(m),
        ) && m.deep_view() == missing_of(tools.deep_view(), found@)),
        missing_of(tools.deep_view(), found@).len() == 0 && !zenity && !kdialog ==> (r matches Err(
            PreflightError::NoDialog,
        )),
        missing_of(tools.deep_view(), found@).len() == 0 && (zenity || kdialog) ==> r is Ok,
{
    let missing = missing_tools(tools, found);
    if missing.len() > 0 {
        return Err(PreflightError::Missing(missing));
    }
    if !zenity && !kdialog {
        return Err(PreflightError::NoDialog);
    }
    Ok(())
}

/// The verdict of the install check when the lookups of the core tools
/// answered `found` and those of zenity and kdialog `zenity` and `kdialog`.
pub open spec fn preflight_outcome(
    found: Seq<bool>,
    zenity: bool,
    kdialog: bool,
    r: Result<(), PreflightError>,
) -> bool {
    let missing = missing_of(core_tools_spec(), found);
    &&& found.len() == core_tools_spec().len()
    &&& match r {
        Ok(()) => missing.len() == 0 && (zenity || kdialog),
        Err(PreflightError::Missing(m)) => missing.len() > 0 && m.deep_view() == missing,
        Err(PreflightError::NoDialog) => missing.len() == 0 && !zenity && !kdialog,
    }
}

/// Checks that what an install needs is on `PATH`. What is found there is up
/// to the machine; the verdict is the one for what was found, and each
/// program counted as found was found under its own name.
pub fn preflight_install() -> (r: Result<(), PreflightError>)
    ensures
        exists|found: Seq<bool>, zenity: bool, kdialog: bool|
            #[trigger] preflight_outcome(found, zenity, kdialog, r) && answers_backed(
                core_tools_spec(),
                found,
                zenity,
                kdialog,
            ),
{
    let tools = core_tools();
    let mut found: Vec<bool> = Vec::new();
    let mut i: usize = 0;
    while i < tools.len()
        invariant
            i <= tools.len(),
            found.len() == i,
            tools.deep_view() == core_tools_spec(),
            forall|j: int| 0 <= j < i && #[trigger] found@[j] ==> found_somewhere(core_tools_spec()[j]),
        decreases tools.len() - i,
    {
        assert(tools.deep_view()[i as int] == tools@[i as int]@);
        let here = is_on_path(tools[i].as_str());
        found.push(here);
        i = i + 1;
    }
    let zenity = is_on_path("zenity");
    let kdialog = is_on_path("kdialog");
    let r = preflight_verdict(&tools, &found, zenity, kdialog);
    assert(preflight_outcome(found@, zenity, kdialog, r));
    assert(answers_backed(core_tools_spec(), found@, zenity, kdialog));
    r
}

/// What `doctor` reports missing: the core tools not found, then
/// `zenity|kdialog` where no dialog program is.
pub fn doctor_missing(tools: &Vec<String>, found: &Vec<bool>, dialog_found: bool) -> (r: Vec<String>)
    requires
        found.len() == tools.len(),
    ensures
        r.deep_view() == missing_of(tools.deep_view(), found@) + if dialog_found {
            Seq::empty()
        } else {
            seq!["zenity|kdialog"@]
        },
{
    let mut r = missing_tools(tools, found);
    let ghost before = r.deep_view();
    if !dialog_found {
        r.push(owned("zenity|kdialog"));
    }
    assert(r.deep_view() =~= before + if dialog_found {
        Seq::empty()
    } else {
        seq!["zenity|kdialog"@]
    });
    r
}

/// The error of a `doctor` run that found tools missing.
pub fn doctor_failure_message(missing: &Vec<String>) -> (r: String)
    ensures
        r@ == "не хватает обязательных инструментов: "@ + join_with(missing.deep_view(), ", "@),
{
    let mut r = owned("не хватает обязательных инструментов: ");
    let list = join_strings(missing, ", ");
    push_str(&mut r, list.as_str());
    r
}

/// How long an error shown to the user may be, in bytes.
pub const ERROR_TEXT_LIMIT: u64 = 1200;

/// An error text cut to `ERROR_TEXT_LIMIT` bytes with `…` appended, where it
/// is longer (`String::truncate`, which needs the cut to fall between two
/// characters).
pub fn format_error(text: &str) -> (r: String)
    requires
        utf8_len(text@) > ERROR_TEXT_LIMIT ==> exists|k: int|
            0 <= k <= text@.len() && #[trigger] utf8_len(text@.take(k)) == ERROR_TEXT_LIMIT,
    ensures
        utf8_len(text@) <= ERROR_TEXT_LIMIT ==> r@ == text@,
        utf8_len(text@) > ERROR_TEXT_LIMIT ==> r@.len() >= 1 && r@.len() - 1 <= text@.len()
            && r@.last() == '…' && r@.drop_last() == text@.take(r@.len() - 1) && utf8_len(
            text@.take(r@.len() - 1),
        ) == ERROR_TEXT_LIMIT,
{
    let cs = chars_of(text);
    let mut acc: u64 = 0;
    let mut i: usize = 0;
    let mut cut: Option<usize> = None;
    while i < cs.len() && acc <= ERROR_TEXT_LIMIT
        invariant
            i <= cs.len(),
            cs@ == text@,
            acc == utf8_len(cs@.take(i as int)),
            acc <= ERROR_TEXT_LIMIT + 4,
            match cut {
                Some(k) => k <= i && utf8_len(cs@.take(k as int)) == ERROR_TEXT_LIMIT,
                None => forall|k: int| 0 <= k <= i ==> #[trigger] utf8_len(cs@.take(k)) != ERROR_TEXT_LIMIT,
            },
        decreases cs.len() - i,
    {
        assert(cs@.take(i + 1).drop_last() =~= cs@.take(i as int));
        acc = acc + char_utf8_width(cs[i]);
        i = i + 1;
        if acc == ERROR_TEXT_LIMIT && cut.is_none() {
            cut = Some(i);
        }
    }
    if i == cs.len() && acc <= ERROR_TEXT_LIMIT {
        assert(cs@.take(i as int) =~= text@);
        return owned(text);
    }
    proof {
        lemma_utf8_len_grows(cs@, i as int, cs@.len() as int);
        assert(cs@.take(cs@.len() as int) =~= text@);
    }
    match cut {
        Some(k) => {
            let mut r = string_of_range(&cs, 0, k);
            push_char(&mut r, '…');
            assert(r@.drop_last() =~= text@.take(k as int));
            r
        },
        None => {
            proof {
                let k = choose|k: int| 0 <= k <= text@.len() && #[trigger] utf8_len(text@.take(k)) == ERROR_TEXT_LIMIT;
                if k <= i {
                    assert(utf8_len(cs@.take(k)) != ERROR_TEXT_LIMIT);
                } else {
                    lemma_utf8_len_grows(cs@, i as int, k);
                }
            }
            owned(text)
        },
    }
}

} // verus!
