//! Finding external programs on `PATH`, and what the probes of optional
//! helpers add up to.
use vstd::prelude::*;
use crate::pathname::{file_name, has_root, plain_name};
use crate::text::{owned, push_str};

verus! {

#[verifier::external_type_specification]
#[verifier::external_body]
pub struct ExPathBuf(std::path::PathBuf);

/// A program found on `PATH`: the path that the lookup gave, and its text
/// (the path itself where it is valid UTF-8).
#[derive(Debug)]
pub struct FoundProgram {
    pub path: std::path::PathBuf,
    pub text: String,
}

/// The result of looking for an optional helper and asking it for its version.
#[derive(Debug)]
pub enum OptionalStatus {
    /// Not on `PATH`.
    Missing,
    /// On `PATH`, but `--version` failed.
    Unavailable(std::path::PathBuf),
    /// On `PATH` and working.
    Available(std::path::PathBuf),
}

/// What a path found for the program `name` looks like: an absolute name is
/// found as itself, and a plain name (no `/`) as a file of that name in some
/// directory of `PATH`.
pub open spec fn found_path_for(name: Seq<char>, path: Seq<char>) -> bool {
    &&& has_root(name) ==> path == name
    &&& plain_name(name) ==> file_name(path) == Some(name)
}

/// Some path was found for the program `name`.
pub open spec fn found_somewhere(name: Seq<char>) -> bool {
    exists|p: Seq<char>| #[trigger] found_path_for(name, p)
}

/// Lookup answers that belong to the programs looked up: each `true` in
/// `found` is backed by a path found for the program at that place, and each
/// dialog flag by a path found for that dialog program.
pub open spec fn answers_backed(
    names: Seq<Seq<char>>,
    found: Seq<bool>,
    zenity: bool,
    kdialog: bool,
) -> bool {
    &&& forall|i: int| 0 <= i < found.len() && #[trigger] found[i] ==> found_somewhere(names[i])
    &&& zenity ==> found_somewhere("zenity"@)
    &&& kdialog ==> found_somewhere("kdialog"@)
}

/// Whether the program is on `PATH`; a `true` is backed by a path found for
/// it.
pub fn is_on_path(name: &str) -> (r: bool)
    ensures
        r ==> found_somewhere(name@),
{
    match optional(name) {
        Some(found) => {
            assert(found_path_for(name@, found.text@));
            true
        },
        None => false,
    }
}

/// `which::which`: the path of an executable found on `PATH`, with its text
/// (`to_string_lossy`). Whether one is found depends on `PATH` and on the
/// disk, so that is not stated; what is stated is that an absolute name is
/// returned as it is and that a plain name is looked up as
/// `<directory of PATH>/<name>`, which is what `which` returns on Unix, so
/// that the text ends in the name (the name is UTF-8, whatever the
/// directory is). Which directory it is, is not stated.
#[verifier::external_body]
fn which_path(name: &str) -> (r: Option<FoundProgram>)
    ensures
        r matches Some(f) ==> found_path_for(name@, f.text@),
{
    which::which(name).ok().map(|path| {
        let text = path.to_string_lossy().into_owned();
        FoundProgram { path, text }
    })
}

/// The program on `PATH`, if it is there.
pub fn optional(name: &str) -> (r: Option<FoundProgram>)
    ensures
        r matches Some(f) ==> found_path_for(name@, f.text@),
{
    which_path(name)
}

/// The program on `PATH`, as `doctor` and the installer look for it.
pub fn find_on_path(name: &str) -> (r: Option<FoundProgram>)
    ensures
        r matches Some(f) ==> found_path_for(name@, f.text@),
{
    optional(name)
}

/// A required program that is not on `PATH`.
#[derive(Debug)]
pub struct MissingTool {
    pub name: String,
}

pub open spec fn missing_tool_message(name: Seq<char>) -> Seq<char> {
    "не найден обязательный инструмент `"@ + name
        + "` в PATH; установите пакет и повторите запуск"@
}

impl MissingTool {
    pub fn message(&self) -> (r: String)
        ensures
            r@ == missing_tool_message(self.name@),
    {
        let mut r = owned("не найден обязательный инструмент `");
        push_str(&mut r, self.name.as_str());
        push_str(&mut r, "` в PATH; установите пакет и повторите запуск");
        r
    }
}

/// A program that must be on `PATH`; where it is not, the error names it.
pub fn required(name: &str) -> (r: Result<FoundProgram, MissingTool>)
    ensures
        r matches Ok(f) ==> found_path_for(name@, f.text@),
        r matches Err(e) ==> e.name@ == name@,
{
    match which_path(name) {
        Some(found) => Ok(found),
        None => Err(MissingTool { name: owned(name) }),
    }
}

/// The path of a helper whose probe succeeded.
pub open spec fn usable_path(s: OptionalStatus) -> Option<std::path::PathBuf> {
    match s {
        OptionalStatus::Available(p) => Some(p),
        _ => None,
    }
}

/// The helper's path where its probe succeeded.
pub fn optional_usable(status: OptionalStatus) -> (r: Option<std::path::PathBuf>)
    ensures
        r == usable_path(status),
{
    match status {
        OptionalStatus::Available(path) => Some(path),
        OptionalStatus::Missing | OptionalStatus::Unavailable(_) => None,
    }
}

/// The probes of several candidates, in order: the first available one
/// wins; else the last one that was found but failed; else `Missing`.
pub open spec fn probe_fold(s: Seq<OptionalStatus>, acc: OptionalStatus) -> OptionalStatus
    decreases s.len(),
{
    if s.len() == 0 {
        acc
    } else {
        match s[0] {
            OptionalStatus::Available(_) => s[0],
            OptionalStatus::Unavailable(_) => probe_fold(s.drop_first(), s[0]),
            OptionalStatus::Missing => probe_fold(s.drop_first(), acc),
        }
    }
}

/// What the probes of several candidates amount to.
pub fn probe_first(statuses: Vec<OptionalStatus>) -> (r: OptionalStatus)
    ensures
        r == probe_fold(statuses@, OptionalStatus::Missing),
{
    let mut rest = statuses;
    let mut unavailable: OptionalStatus = OptionalStatus::Missing;
    while rest.len() > 0
        invariant
            probe_fold(rest@, unavailable) == probe_fold(statuses@, OptionalStatus::Missing),
        decreases rest.len(),
    {
        let ghost before = rest@;
        let first = rest.remove(0);
        assert(rest@ =~= before.drop_first());
        match first {
            OptionalStatus::Available(path) => {
                return OptionalStatus::Available(path);
            },
            OptionalStatus::Unavailable(path) => {
                unavailable = OptionalStatus::Unavailable(path);
            },
            OptionalStatus::Missing => {},
        }
    }
    unavailable
}

} // verus!
