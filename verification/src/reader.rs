//! What the accessibility helper reports: the permission state, a snapshot
//! of the focused window, and where the helper binary is found.

use vstd::prelude::*;
use crate::config::{join_path, joined};
use crate::text::{parse_i32, parse_i32_spec, trim, trimmed};

verus! {

/// Whether the process may read other windows through the accessibility API.
#[derive(Clone, Copy, Debug, PartialEq, Eq, Structural)]
pub enum Permission {
    Granted,
    NotGranted,
}

/// The permission that the helper's numeric answer `code` stands for: `1`
/// means granted, every other code means not granted.
pub open spec fn permission_of_code(code: i32) -> Permission {
    if code == 1 {
        Permission::Granted
    } else {
        Permission::NotGranted
    }
}

/// Reads the helper's numeric answer.
pub fn permission_from_code(code: i32) -> (p: Permission)
    ensures
        p == permission_of_code(code),
{
    if code == 1 {
        Permission::Granted
    } else {
        Permission::NotGranted
    }
}

/// The permission that a reply of the helper stands for: a reply that is not
/// an integer counts as code 0, and a helper that could not be run or failed
/// means not granted.
pub open spec fn permission_of_reply(reply: Result<Seq<char>, Seq<char>>) -> Permission {
    match reply {
        Ok(code) => permission_of_code(
            match parse_i32_spec(code) {
                Some(c) => c,
                None => 0,
            },
        ),
        Err(_) => Permission::NotGranted,
    }
}

/// The text of a helper reply: its output, or why it could not be had.
pub open spec fn reply_text(reply: Result<String, String>) -> Result<Seq<char>, Seq<char>> {
    match reply {
        Ok(s) => Ok(s@),
        Err(e) => Err(e@),
    }
}

/// Only a helper that ran and answered `1` grants the permission: a helper
/// that could not be run or failed, or any other answer, leaves it not
/// granted.
pub proof fn lemma_granted_only_by_one(reply: Result<Seq<char>, Seq<char>>)
    ensures
        permission_of_reply(reply) == Permission::Granted <==> (reply matches Ok(c)
            && parse_i32_spec(c) == Some(1i32)),
{
}

fn permission_of(helper_reply: Result<String, String>) -> (p: Permission)
    ensures
        p == permission_of_reply(reply_text(helper_reply)),
{
    match helper_reply {
        Ok(code) => {
            let c = match parse_i32(code.as_str()) {
                Some(c) => c,
                None => 0,
            };
            permission_from_code(c)
        },
        Err(_) => Permission::NotGranted,
    }
}

/// The permission state, from the helper's reply to `permission`.
pub fn permission_status(helper_reply: Result<String, String>) -> (p: Permission)
    ensures
        p == permission_of_reply(reply_text(helper_reply)),
{
    permission_of(helper_reply)
}

/// The permission state after asking for it, from the helper's reply to
/// `request-permission`.
pub fn request_permission(helper_reply: Result<String, String>) -> (p: Permission)
    ensures
        p == permission_of_reply(reply_text(helper_reply)),
{
    permission_of(helper_reply)
}

/// The text of the focused window, as the helper reads it.
#[derive(Clone, Debug)]
pub struct Snapshot {
    pub app: String,
    pub window_title: Option<String>,
    pub document: Option<String>,
    pub url: Option<String>,
    pub text: Vec<String>,
}

/// Name of the helper binary.
pub open spec fn helper_name() -> Seq<char> {
    "ambient-context-ax"@
}

/// Where the helper is looked for beside the running binary, whose directory
/// is `exe_dir`.
pub fn sibling_helper_path(exe_dir: &str) -> (r: String)
    ensures
        r@ == joined(exe_dir@, helper_name()),
{
    join_path(exe_dir, "ambient-context-ax")
}

/// What a `which` lookup of the helper names: the output without surrounding
/// white space, when the lookup succeeded and that is not empty.
pub open spec fn helper_from_which_spec(success: bool, stdout: Seq<char>) -> Option<Seq<char>> {
    if success && trimmed(stdout).len() > 0 {
        Some(trimmed(stdout))
    } else {
        None
    }
}

/// Reads the helper's path from a `which` lookup.
pub fn helper_from_which(success: bool, stdout: &str) -> (r: Option<String>)
    ensures
        match r {
            Some(p) => helper_from_which_spec(success, stdout@) == Some(p@),
            None => helper_from_which_spec(success, stdout@) is None,
        },
{
    if !success {
        return None;
    }
    let p = trim(stdout);
    if p.unicode_len() == 0 {
        None
    } else {
        Some(p)
    }
}


/// A place where the helper binary may be found.
#[derive(Clone, Copy, Debug, PartialEq, Eq, Structural)]
pub enum HelperCandidate {
    /// The path set as `ax_helper_path` in the configuration.
    Configured,
    /// `ambient-context-ax` beside the running binary.
    BesideExecutable,
    /// The `ambient-context-ax` that `which` finds on the `PATH`.
    OnPath,
}

/// The first place to look for the helper: the configured path when one is
/// set, otherwise beside the running binary.
pub open spec fn first_helper_candidate_spec(configured: bool) -> HelperCandidate {
    if configured {
        HelperCandidate::Configured
    } else {
        HelperCandidate::BesideExecutable
    }
}

/// The place to look next once the helper was not found at `tried`: the
/// configured path, then beside the running binary, then on the `PATH`,
/// then nowhere.
pub open spec fn next_helper_candidate_spec(tried: HelperCandidate) -> Option<HelperCandidate> {
    match tried {
        HelperCandidate::Configured => Some(HelperCandidate::BesideExecutable),
        HelperCandidate::BesideExecutable => Some(HelperCandidate::OnPath),
        HelperCandidate::OnPath => None,
    }
}

/// Where the search for the helper starts.
pub fn first_helper_candidate(configured: bool) -> (c: HelperCandidate)
    ensures
        c == first_helper_candidate_spec(configured),
{
    if configured {
        HelperCandidate::Configured
    } else {
        HelperCandidate::BesideExecutable
    }
}

/// Where the search for the helper goes on after a miss at `tried`.
pub fn next_helper_candidate(tried: HelperCandidate) -> (c: Option<HelperCandidate>)
    ensures
        c == next_helper_candidate_spec(tried),
{
    match tried {
        HelperCandidate::Configured => Some(HelperCandidate::BesideExecutable),
        HelperCandidate::BesideExecutable => Some(HelperCandidate::OnPath),
        HelperCandidate::OnPath => None,
    }
}

/// The places the search visits, in order, when the helper is found in none
/// of them.
pub open spec fn helper_search_order(configured: bool) -> Seq<HelperCandidate> {
    if configured {
        seq![HelperCandidate::Configured, HelperCandidate::BesideExecutable, HelperCandidate::OnPath]
    } else {
        seq![HelperCandidate::BesideExecutable, HelperCandidate::OnPath]
    }
}

/// The search for the helper starts at the first place of its order, each
/// miss moves to the following one, and it ends after the `PATH`: every
/// place is looked at once at most, and the configured path is looked at
/// only when one is set.
pub proof fn lemma_helper_search_order(configured: bool)
    ensures
        first_helper_candidate_spec(configured) == helper_search_order(configured)[0],
        forall|i: int|
            0 <= i < helper_search_order(configured).len() - 1 ==> next_helper_candidate_spec(
                #[trigger] helper_search_order(configured)[i],
            ) == Some(helper_search_order(configured)[i + 1]),
        next_helper_candidate_spec(helper_search_order(configured).last()) is None,
{
}

} // verus!
