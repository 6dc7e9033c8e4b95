//! Package records, operation results, and the package-manager interface.
use vstd::prelude::*;
use crate::text::{chars_of, dec_i32_exec, dec_int};
use crate::sys::string_of;

pub mod builtin;
pub mod lilith;

verus! {

/// Structured information about a package from search results.
#[derive(Debug, Clone)]
pub struct PackageInfo {
    pub name: String,
    pub version: String,
    pub description: String,
    pub source: String,
    pub installed: bool,
}

/// The contents of a [`PackageInfo`].
pub struct PackageInfoView {
    pub name: Seq<char>,
    pub version: Seq<char>,
    pub description: Seq<char>,
    pub source: Seq<char>,
    pub installed: bool,
}

impl View for PackageInfo {
    type V = PackageInfoView;

    open spec fn view(&self) -> PackageInfoView {
        PackageInfoView {
            name: self.name@,
            version: self.version@,
            description: self.description@,
            source: self.source@,
            installed: self.installed,
        }
    }
}

/// The contents of a sequence of package records.
pub open spec fn pkg_views(v: Seq<PackageInfo>) -> Seq<PackageInfoView> {
    v.map_values(|p: PackageInfo| p@)
}

/// A package record with the given fields.
pub open spec fn pkg(
    name: Seq<char>,
    version: Seq<char>,
    description: Seq<char>,
    source: Seq<char>,
    installed: bool,
) -> PackageInfoView {
    PackageInfoView { name, version, description, source, installed }
}

/// A package record built from character vectors.
pub fn make_pkg(
    name: &[char],
    version: &[char],
    description: &[char],
    source: &[char],
    installed: bool,
) -> (p: PackageInfo)
    ensures
        p@ == pkg(name@, version@, description@, source@, installed),
{
    PackageInfo {
        name: string_of(name),
        version: string_of(version),
        description: string_of(description),
        source: string_of(source),
        installed,
    }
}

impl PackageInfo {
    /// A field-by-field copy.
    pub fn copy(&self) -> (p: PackageInfo)
        ensures
            p@ == self@,
    {
        PackageInfo {
            name: self.name.clone(),
            version: self.version.clone(),
            description: self.description.clone(),
            source: self.source.clone(),
            installed: self.installed,
        }
    }
}

/// Result from a package manager operation.
#[derive(Debug)]
pub enum PmResult {
    Success,
    CommandFailed(i32, String),
    Error(String),
}

/// The outcome of a finished command: success when it exited successfully,
/// else the failure with its exit code (`-1` when it has none, as when a signal
/// ended it) and the given text.
pub fn pm_result_from_status(success: bool, code: Option<i32>, failure_text: String) -> (r:
    PmResult)
    ensures
        success ==> r is Success,
        !success ==> (r matches PmResult::CommandFailed(c, t) && t@ == failure_text@ && c == (
        match code {
            Some(x) => x,
            None => -1i32,
        })),
{
    if success {
        PmResult::Success
    } else {
        let c = match code {
            Some(x) => x,
            None => -1,
        };
        PmResult::CommandFailed(c, failure_text)
    }
}

/// The message for a command that exited with a failure: `Exit <code>: <stderr>`.
pub open spec fn exit_message(code: int, stderr: Seq<char>) -> Seq<char> {
    "Exit "@ + dec_int(code) + ": "@ + stderr
}

/// The outcome of a command whose output was captured: its standard output
/// when it succeeded, else [`exit_message`] of its exit code (`-1` when it has
/// none) and its standard error.
pub fn captured_result(success: bool, code: Option<i32>, stdout: String, stderr: String) -> (r:
    Result<String, String>)
    ensures
        success ==> (r matches Ok(o) && o@ == stdout@),
        !success ==> (r matches Err(e) && e@ == exit_message(
            match code {
                Some(x) => x as int,
                None => -1,
            },
            stderr@,
        )),
{
    if success {
        Ok(stdout)
    } else {
        let c: i32 = match code {
            Some(x) => x,
            None => -1,
        };
        let mut m = chars_of("Exit ");
        m.append(&mut dec_i32_exec(c));
        m.append(&mut chars_of(": "));
        m.append(&mut chars_of(stderr.as_str()));
        Err(string_of(m.as_slice()))
    }
}


/// What comes after item `i` of `n` in a run that stops at the first
/// failure.
#[derive(Debug, Clone, Copy, PartialEq, Eq, Structural)]
pub enum ItemStep {
    /// Go on with this item.
    Next(usize),
    /// Every item succeeded.
    AllDone,
    /// Stop here: the item failed.
    Stop,
}

/// The step after item `i` of `n` in a run that stops at the first failure:
/// stop when it failed, else go on with the next item, else all is done.
pub open spec fn item_step(i: nat, n: nat, ok: bool) -> ItemStep {
    if !ok {
        ItemStep::Stop
    } else if i + 1 < n {
        ItemStep::Next((i + 1) as usize)
    } else {
        ItemStep::AllDone
    }
}

/// The step after item `i` of `n` (see [`item_step`]).
pub fn next_item(i: usize, n: usize, ok: bool) -> (r: ItemStep)
    requires
        i < n,
    ensures
        r == item_step(i as nat, n as nat, ok),
{
    if !ok {
        ItemStep::Stop
    } else if i + 1 < n {
        ItemStep::Next(i + 1)
    } else {
        ItemStep::AllDone
    }
}

} // verus!
