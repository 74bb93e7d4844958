//! The dialogs: when notifications are shown, which dialog program is used,
//! the arguments of the profile dialogs and how their answers are read.
use vstd::prelude::*;
use crate::model::Config;
use crate::profiles::ProfileView;
use crate::text::{
    chars_of, eq_ignore_case, has_at, join_with, lower_seq, owned, parse_u64, parse_u64_spec, push_str,
    str_eq, str_eq_ignore_case, str_lower, str_trim, string_of_range, trim,
};

verus! {

/// What the advanced dialog asks for.
#[derive(Debug)]
pub struct AdvancedSelection {
    pub profile: String,
    pub target_size_mb: Option<u64>,
    pub overwrite: bool,
    pub hardware_fallback: bool,
}

/// Notifications need a graphical session and are off in headless mode.
pub fn notifications_enabled_for(headless: bool, display: bool, wayland: bool) -> (r: bool)
    ensures
        r == (!headless && (display || wayland)),
{
    !headless && (display || wayland)
}

/// Values of `MEDIA_STUDIO_HEADLESS` that switch headless mode on (after
/// trimming, in any ASCII case).
pub open spec fn headless_value(v: Seq<char>) -> bool {
    let l = lower_seq(trim(v));
    l == "1"@ || l == "true"@ || l == "yes"@ || l == "on"@
}

/// Whether the `MEDIA_STUDIO_HEADLESS` setting asks for headless mode.
pub fn headless_setting(value: Option<&str>) -> (r: bool)
    ensures
        r == match value {
            Some(v) => headless_value(v@),
            None => false,
        },
{
    match value {
        Some(v) => {
            let t = str_trim(v);
            let l = str_lower(t.as_str());
            str_eq(l.as_str(), "1") || str_eq(l.as_str(), "true") || str_eq(l.as_str(), "yes")
                || str_eq(l.as_str(), "on")
        },
        None => false,
    }
}

/// The dialog programs.
#[derive(Debug, Clone, Copy, PartialEq, Eq, Structural)]
pub enum DialogBackend {
    Zenity,
    Kdialog,
}

/// Why the advanced dialog gave no selection.
#[derive(Debug)]
pub enum ChooseError {
    /// Neither zenity nor kdialog works.
    NoBackend,
    /// The dialog was closed or cancelled before a profile was chosen.
    Cancelled,
    /// A later question was cancelled.
    CancelledByUser,
    /// The dialog answered with a profile that does not exist.
    UnknownProfile(String),
}

impl ChooseError {
    pub fn message(&self) -> (r: String)
        ensures
            r@ == match self {
                ChooseError::NoBackend => "не найден рабочий dialog backend: установите zenity или kdialog"@,
                ChooseError::Cancelled => "Операция отменена: профиль не выбран."@,
                ChooseError::CancelledByUser => "Операция отменена пользователем."@,
                ChooseError::UnknownProfile(p) => "Диалог вернул неизвестный профиль: "@ + p@,
            },
    {
        match self {
            ChooseError::NoBackend => owned(
                "не найден рабочий dialog backend: установите zenity или kdialog",
            ),
            ChooseError::Cancelled => owned("Операция отменена: профиль не выбран."),
            ChooseError::CancelledByUser => owned("Операция отменена пользователем."),
            ChooseError::UnknownProfile(p) => {
                let mut r = owned("Диалог вернул неизвестный профиль: ");
                push_str(&mut r, p.as_str());
                r
            },
        }
    }
}

/// The advanced dialog runs on zenity where it works, else on kdialog where
/// that works.
pub fn choose_advanced(zenity_usable: bool, kdialog_usable: bool) -> (r: Result<
    DialogBackend,
    ChooseError,
>)
    ensures
        zenity_usable ==> r == Ok::<DialogBackend, ChooseError>(DialogBackend::Zenity),
        !zenity_usable && kdialog_usable ==> r == Ok::<DialogBackend, ChooseError>(
            DialogBackend::Kdialog,
        ),
        !zenity_usable && !kdialog_usable ==> r matches Err(ChooseError::NoBackend),
{
    if zenity_usable {
        return Ok(DialogBackend::Zenity);
    }
    if !kdialog_usable {
        return Err(ChooseError::NoBackend);
    }
    Ok(DialogBackend::Kdialog)
}

/// One line of the zenity profile list.
pub open spec fn zenity_choice(id: Seq<char>, p: ProfileView) -> Seq<char> {
    id + " — "@ + p.category + " / "@ + p.label
}

pub open spec fn zenity_choices(e: Seq<(Seq<char>, ProfileView)>) -> Seq<Seq<char>> {
    e.map_values(|x: (Seq<char>, ProfileView)| zenity_choice(x.0, x.1))
}

/// The arguments of the zenity form.
pub open spec fn zenity_form_spec(e: Seq<(Seq<char>, ProfileView)>) -> Seq<Seq<char>> {
    seq![
        "--forms"@,
        "--title"@,
        "Media Studio — расширенные настройки"@,
        "--text"@,
        "Выберите профиль и параметры задания"@,
        "--separator"@,
        "|"@,
        "--width"@,
        "720"@,
        "--height"@,
        "420"@,
        "--add-combo"@,
        "Профиль"@,
        "--combo-values"@,
        join_with(zenity_choices(e), "|"@),
        "--add-entry"@,
        "Целевой размер, МБ (пусто — без ограничения)"@,
        "--add-checkbox"@,
        "Перезаписывать существующий файл"@,
        "--add-checkbox"@,
        "Software fallback для VAAPI/NVENC"@,
    ]
}

fn combo_values(config: &Config) -> (r: String)
    ensures
        r@ == join_with(zenity_choices(config.profiles@), "|"@),
{
    let ghost e = config.profiles@;
    let mut r = String::new();
    let mut i: usize = 0;
    while i < config.profiles.len()
        invariant
            i <= e.len(),
            e == config.profiles@,
            r@ == join_with(zenity_choices(e).take(i as int), "|"@),
        decreases e.len() - i,
    {
        if i > 0 {
            push_str(&mut r, "|");
        }
        let id = config.profiles.key_at(i);
        let p = config.profiles.profile_at(i);
        push_str(&mut r, id.as_str());
        push_str(&mut r, " — ");
        push_str(&mut r, p.category.as_str());
        push_str(&mut r, " / ");
        push_str(&mut r, p.label.as_str());
        proof {
            let c = zenity_choices(e);
            assert(c.take(i + 1).drop_last() =~= c.take(i as int));
            assert(c.take(i + 1).last() == zenity_choice(e[i as int].0, e[i as int].1));
        }
        i = i + 1;
    }
    assert(zenity_choices(e).take(i as int) =~= zenity_choices(e));
    r
}

/// The arguments of the zenity form for these profiles.
pub fn zenity_form_args(config: &Config) -> (r: Vec<String>)
    ensures
        r.deep_view() == zenity_form_spec(config.profiles@),
{
    let mut r: Vec<String> = Vec::new();
    r.push(owned("--forms"));
    r.push(owned("--title"));
    r.push(owned("Media Studio — расширенные настройки"));
    r.push(owned("--text"));
    r.push(owned("Выберите профиль и параметры задания"));
    r.push(owned("--separator"));
    r.push(owned("|"));
    r.push(owned("--width"));
    r.push(owned("720"));
    r.push(owned("--height"));
    r.push(owned("420"));
    r.push(owned("--add-combo"));
    r.push(owned("Профиль"));
    r.push(owned("--combo-values"));
    r.push(combo_values(config));
    r.push(owned("--add-entry"));
    r.push(owned("Целевой размер, МБ (пусто — без ограничения)"));
    r.push(owned("--add-checkbox"));
    r.push(owned("Перезаписывать существующий файл"));
    r.push(owned("--add-checkbox"));
    r.push(owned("Software fallback для VAAPI/NVENC"));
    assert(r.deep_view() =~= zenity_form_spec(config.profiles@));
    r
}

/// `str::split(c)`: the pieces between occurrences of `c` (at least one).
pub open spec fn split_on(s: Seq<char>, c: char) -> Seq<Seq<char>>
    decreases s.len(),
{
    if s.len() == 0 {
        seq![Seq::empty()]
    } else {
        let r = split_on(s.drop_last(), c);
        if s.last() == c {
            r.push(Seq::empty())
        } else {
            r.update(r.len() - 1, r.last().push(s.last()))
        }
    }
}

proof fn lemma_split_len(s: Seq<char>, c: char)
    ensures
        split_on(s, c).len() >= 1,
    decreases s.len(),
{
    if s.len() > 0 {
        lemma_split_len(s.drop_last(), c);
    }
}

/// Splits a string at a character (`str::split`).
pub fn split_at_char(text: &str, c: char) -> (r: Vec<String>)
    ensures
        r.deep_view() == split_on(text@, c),
        r@.len() >= 1,
{
    let cs = chars_of(text);
    let mut r: Vec<String> = Vec::new();
    let mut start: usize = 0;
    let mut i: usize = 0;
    assert(cs@.take(0) =~= Seq::<char>::empty());
    assert(r.deep_view().push(cs@.subrange(0, 0)) =~= split_on(cs@.take(0), c));
    while i < cs.len()
        invariant
            start <= i <= cs.len(),
            cs@ == text@,
            r.deep_view().push(cs@.subrange(start as int, i as int)) == split_on(cs@.take(i as int), c),
        decreases cs.len() - i,
    {
        let ghost before = r.deep_view();
        proof {
            lemma_split_len(cs@.take(i as int), c);
            assert(cs@.take(i + 1).drop_last() =~= cs@.take(i as int));
            assert(cs@.take(i + 1).last() == cs@[i as int]);
        }
        if cs[i] == c {
            let piece = string_of_range(&cs, start, i);
            r.push(piece);
            assert(r.deep_view() =~= before.push(piece@));
            start = i + 1;
            assert(cs@.subrange(start as int, i + 1) =~= Seq::<char>::empty());
            assert(r.deep_view().push(cs@.subrange(start as int, i + 1)) =~~= split_on(cs@.take(i + 1), c));
        } else {
            assert(cs@.subrange(start as int, i + 1) =~= cs@.subrange(start as int, i as int).push(cs@[i as int]));
            assert(r.deep_view().push(cs@.subrange(start as int, i + 1)) =~~= split_on(cs@.take(i + 1), c));
        }
        i = i + 1;
    }
    let last = string_of_range(&cs, start, cs.len());
    let ghost before = r.deep_view();
    r.push(last);
    assert(r.deep_view() =~= before.push(last@));
    assert(cs@.take(cs@.len() as int) =~= cs@);
    r
}

/// Whether `pat` occurs in `s` at `i`.
pub open spec fn match_at(s: Seq<char>, pat: Seq<char>, i: int) -> bool {
    0 <= i && i + pat.len() <= s.len() && s.subrange(i, i + pat.len()) == pat
}

/// The first position at or after `i` where `pat` occurs in `s`.
pub open spec fn first_match_from(s: Seq<char>, pat: Seq<char>, i: nat) -> Option<int>
    decreases s.len() + 1 - i,
{
    if i + pat.len() > s.len() {
        None
    } else if match_at(s, pat, i as int) {
        Some(i as int)
    } else {
        first_match_from(s, pat, i + 1)
    }
}

/// The part of `s` before the first occurrence of `pat` (all of `s` where
/// there is none), as `s.split(pat).next()`.
pub open spec fn before_pattern(s: Seq<char>, pat: Seq<char>) -> Seq<char> {
    match first_match_from(s, pat, 0) {
        Some(i) => s.take(i),
        None => s,
    }
}

fn before_pattern_of(s: &str, pat: &str) -> (r: String)
    requires
        pat@.len() > 0,
    ensures
        r@ == before_pattern(s@, pat@),
{
    let cs = chars_of(s);
    let cp = chars_of(pat);
    let n = cs.len();
    let m = cp.len();
    if m > n {
        assert(first_match_from(s@, pat@, 0) == None::<int>);
        return string_of_range(&cs, 0, n);
    }
    let mut i: usize = 0;
    while i <= n - m
        invariant
            n == cs@.len(),
            m == cp@.len(),
            0 < m <= n,
            i <= n - m + 1,
            cs@ == s@,
            cp@ == pat@,
            first_match_from(s@, pat@, 0) == first_match_from(s@, pat@, i as nat),
        decreases n - m + 1 - i,
    {
        assert(cs@.skip(i as int).take(m as int) =~= cs@.subrange(i as int, i + m));
        if has_at(&cs, i, &cp) {
            assert(match_at(s@, pat@, i as int));
            return string_of_range(&cs, 0, i);
        }
        assert(!match_at(s@, pat@, i as int));
        i = i + 1;
    }
    assert(first_match_from(s@, pat@, i as nat) == None::<int>);
    assert(cs@.subrange(0, n as int) =~= cs@);
    string_of_range(&cs, 0, n)
}

/// A target size typed into a dialog: a positive number after trimming.
pub open spec fn target_size_answer(s: Seq<char>) -> Option<u64> {
    match parse_u64_spec(trim(s)) {
        Some(v) => if v > 0 {
            Some(v)
        } else {
            None
        },
        None => None,
    }
}

pub fn parse_target_size(s: &str) -> (r: Option<u64>)
    ensures
        r == target_size_answer(s@),
{
    let t = str_trim(s);
    match parse_u64(t.as_str()) {
        Some(v) => if v > 0 {
            Some(v)
        } else {
            None
        },
        None => None,
    }
}

/// How the zenity form's answer is read: `|`-separated fields of the trimmed
/// output; the profile identifier before ` — ` in the first field, the
/// target size in the second, then the two check boxes (`true` in any case
/// means checked; an absent fallback box keeps the configured setting).
pub open spec fn zenity_answer_spec(
    profiles: Map<Seq<char>, ProfileView>,
    hardware_fallback: bool,
    out: Seq<char>,
) -> Result<(Seq<char>, Option<u64>, bool, bool), Seq<char>> {
    let fields = split_on(trim(out), '|');
    let profile = before_pattern(fields[0], " — "@);
    if !profiles.contains_key(profile) {
        Err(profile)
    } else {
        Ok(
            (
                profile,
                if fields.len() > 1 {
                    target_size_answer(fields[1])
                } else {
                    None
                },
                fields.len() > 2 && eq_ignore_case(fields[2], "true"@),
                if fields.len() > 3 {
                    eq_ignore_case(fields[3], "true"@)
                } else {
                    hardware_fallback
                },
            ),
        )
    }
}

pub open spec fn selection_view(s: AdvancedSelection) -> (Seq<char>, Option<u64>, bool, bool) {
    (s.profile@, s.target_size_mb, s.overwrite, s.hardware_fallback)
}

/// Reads the answer of the zenity form.
pub fn parse_zenity_answer(config: &Config, out: &str) -> (r: Result<AdvancedSelection, ChooseError>)
    ensures
        match zenity_answer_spec(config.profiles.map(), config.hardware_fallback, out@) {
            Ok(s) => r is Ok && selection_view(r->Ok_0) == s,
            Err(p) => (r matches Err(ChooseError::UnknownProfile(q)) && q@ == p),
        },
{
    proof {
        reveal_strlit(" — ");
    }
    let trimmed = str_trim(out);
    let fields = split_at_char(trimmed.as_str(), '|');
    let profile = before_pattern_of(fields[0].as_str(), " — ");
    if !config.profiles.contains_key(profile.as_str()) {
        return Err(ChooseError::UnknownProfile(profile));
    }
    let target_size_mb = if fields.len() > 1 {
        parse_target_size(fields[1].as_str())
    } else {
        None
    };
    let overwrite = if fields.len() > 2 {
        str_eq_ignore_case(fields[2].as_str(), "true")
    } else {
        false
    };
    let hardware_fallback = if fields.len() > 3 {
        str_eq_ignore_case(fields[3].as_str(), "true")
    } else {
        config.hardware_fallback
    };
    assert(fields.deep_view()[0] == fields@[0]@);
    proof {
        if fields.len() > 1 {
            assert(fields.deep_view()[1] == fields@[1]@);
        }
        if fields.len() > 2 {
            assert(fields.deep_view()[2] == fields@[2]@);
        }
        if fields.len() > 3 {
            assert(fields.deep_view()[3] == fields@[3]@);
        }
    }
    Ok(AdvancedSelection { profile, target_size_mb, overwrite, hardware_fallback })
}

/// One pair of the kdialog menu: the identifier and `<category> — <label>`.
pub open spec fn kdialog_items(e: Seq<(Seq<char>, ProfileView)>) -> Seq<Seq<char>>
    decreases e.len(),
{
    if e.len() == 0 {
        Seq::empty()
    } else {
        kdialog_items(e.drop_last()) + seq![e.last().0, e.last().1.category + " — "@ + e.last().1.label]
    }
}

/// The arguments of the kdialog profile menu.
pub open spec fn kdialog_menu_spec(e: Seq<(Seq<char>, ProfileView)>) -> Seq<Seq<char>> {
    seq![
        "--title"@,
        "Media Studio — расширенные настройки"@,
        "--menu"@,
        "Выберите профиль конвертации"@,
    ] + kdialog_items(e)
}

pub fn kdialog_menu_args(config: &Config) -> (r: Vec<String>)
    ensures
        r.deep_view() == kdialog_menu_spec(config.profiles@),
{
    let ghost e = config.profiles@;
    let mut r: Vec<String> = Vec::new();
    r.push(owned("--title"));
    r.push(owned("Media Studio — расширенные настройки"));
    r.push(owned("--menu"));
    r.push(owned("Выберите профиль конвертации"));
    let ghost head = r.deep_view();
    let mut i: usize = 0;
    assert(e.take(0) =~= Seq::<(Seq<char>, ProfileView)>::empty());
    assert(r.deep_view() =~= head + kdialog_items(e.take(0)));
    while i < config.profiles.len()
        invariant
            i <= e.len(),
            e == config.profiles@,
            r.deep_view() == head + kdialog_items(e.take(i as int)),
        decreases e.len() - i,
    {
        let id = config.profiles.key_at(i);
        let p = config.profiles.profile_at(i);
        let mut item = p.category.clone();
        push_str(&mut item, " — ");
        push_str(&mut item, p.label.as_str());
        let ghost before = r.deep_view();
        r.push(id.clone());
        r.push(item);
        proof {
            assert(e.take(i + 1).drop_last() =~= e.take(i as int));
            assert(r.deep_view() =~= before + seq![id@, p.category@ + " — "@ + p.label@]);
        }
        i = i + 1;
    }
    assert(e.take(i as int) =~= e);
    r
}

/// How the kdialog menu's answer is read: the trimmed output names the
/// profile; an empty answer or an unknown profile is refused.
pub fn parse_kdialog_choice(config: &Config, out: &str) -> (r: Result<String, ChooseError>)
    ensures
        trim(out@).len() > 0 && config.profiles.map().contains_key(trim(out@)) ==> r is Ok
            && r->Ok_0@ == trim(out@),
        !(trim(out@).len() > 0 && config.profiles.map().contains_key(trim(out@))) ==> (r matches Err(
            ChooseError::UnknownProfile(q),
        ) && q@ == trim(out@)),
{
    let profile = str_trim(out);
    if profile.as_str().is_empty() || !config.profiles.contains_key(profile.as_str()) {
        return Err(ChooseError::UnknownProfile(profile));
    }
    Ok(profile)
}

/// The answer of a kdialog yes/no question from its exit code: 0 is yes,
/// 1 is no, anything else (or no code) cancels.
pub fn yesno_answer(code: Option<i32>) -> (r: Result<bool, ChooseError>)
    ensures
        code == Some(0i32) ==> r == Ok::<bool, ChooseError>(true),
        code == Some(1i32) ==> r == Ok::<bool, ChooseError>(false),
        !(code == Some(0i32) || code == Some(1i32)) ==> r matches Err(ChooseError::CancelledByUser),
{
    match code {
        Some(1) => Ok(false),
        Some(0) => Ok(true),
        _ => Err(ChooseError::CancelledByUser),
    }
}

} // verus!
