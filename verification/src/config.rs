//! Where the daemon keeps its files: the per-user configuration directory,
//! the files inside it, the default capture folder, and the check for
//! folders that iCloud Drive syncs.

use vstd::prelude::*;
use crate::text::{contains, contains_text, occurs_at, opt_text};

verus! {

/// `name` appended to `base` the way `Path::join` does on Unix: an absolute
/// `name` replaces `base`; otherwise a `/` separates the two unless `base` is
/// empty or already ends with one.
pub open spec fn joined(base: Seq<char>, name: Seq<char>) -> Seq<char> {
    if name.len() > 0 && name[0] == '/' {
        name
    } else if base.len() == 0 || base.last() == '/' {
        base + name
    } else {
        base + seq!['/'] + name
    }
}

/// Joins two path components as `Path::join` does on Unix.
pub fn join_path(base: &str, name: &str) -> (r: String)
    ensures
        r@ == joined(base@, name@),
{
    proof {
        reveal_strlit("/");
    }
    let m = name.unicode_len();
    if m > 0 && name.get_char(0) == '/' {
        return name.to_owned();
    }
    let n = base.unicode_len();
    let mut r = base.to_owned();
    if n > 0 && base.get_char(n - 1) != '/' {
        r.append("/");
    }
    r.append(name);
    r
}

/// The directory the user's files are placed under when the platform names
/// none: the current directory.
pub open spec fn fallback_dir() -> Seq<char> {
    seq!['.']
}

/// Joining keeps both parts: a relative `name` joined to a `base` gives
/// `base`, at most one `/`, then `name`, so the result starts with `base` and
/// ends with `name`; an absolute `name` is the result.
pub proof fn lemma_joined_parts(base: Seq<char>, name: Seq<char>)
    ensures
        joined(base, name).len() >= name.len(),
        joined(base, name).subrange(joined(base, name).len() - name.len(), joined(base, name).len() as int)
            == name,
        !(name.len() > 0 && name[0] == '/') ==> joined(base, name).subrange(0, base.len() as int)
            == base,
        !(name.len() > 0 && name[0] == '/') ==> joined(base, name).len() <= base.len() + 1
            + name.len(),
        (name.len() > 0 && name[0] == '/') ==> joined(base, name) == name,
{
    let j = joined(base, name);
    assert(j.subrange(j.len() - name.len(), j.len() as int) =~= name);
    if !(name.len() > 0 && name[0] == '/') {
        assert(j.subrange(0, base.len() as int) =~= base);
    }
}

/// The directory that stands for the home directory: `home`, or the current
/// directory when it is unknown.
pub open spec fn home_base(home: Option<Seq<char>>) -> Seq<char> {
    match home {
        Some(h) => h,
        None => fallback_dir(),
    }
}

/// The daemon's own directory, `~/.config/ambient-context`, for the home
/// directory `home`.
pub open spec fn config_dir_spec(home: Option<Seq<char>>) -> Seq<char> {
    joined(joined(home_base(home), ".config"@), "ambient-context"@)
}

/// The file `name` in the daemon's directory, for the home directory `home`.
pub open spec fn config_file_spec(home: Option<Seq<char>>, name: Seq<char>) -> Seq<char> {
    joined(config_dir_spec(home), name)
}

/// The daemon's directory for a given home directory.
pub fn config_dir_from(home: Option<String>) -> (r: String)
    ensures
        r@ == config_dir_spec(opt_text(home)),
{
    proof {
        reveal_strlit(".");
    }
    let base = match home {
        Some(h) => h,
        None => ".".to_owned(),
    };
    let dot_config = join_path(base.as_str(), ".config");
    join_path(dot_config.as_str(), "ambient-context")
}

/// Calls `dirs::home_dir`. What it gives back depends on the environment
/// (`$HOME`, the password database), so nothing is stated of it; the path is
/// handed on as text, lossily where it is not UTF-8.
#[verifier::external_body]
fn platform_home_dir() -> (r: Option<String>) {
    match dirs::home_dir() {
        Some(p) => Some(p.to_string_lossy().into_owned()),
        None => None,
    }
}

/// The daemon's directory: `.config/ambient-context` in the user's home
/// directory (in `.` when the home directory is unknown).
pub fn config_dir() -> (r: String)
    ensures
        exists|home: Option<Seq<char>>| r@ == config_dir_spec(home),
{
    let home = platform_home_dir();
    let ghost h = opt_text(home);
    let r = config_dir_from(home);
    assert(r@ == config_dir_spec(h));
    r
}

/// The file `name` in the daemon's directory for a given home directory.
pub fn config_file_from(home: Option<String>, name: &str) -> (r: String)
    ensures
        r@ == config_file_spec(opt_text(home), name@),
{
    let d = config_dir_from(home);
    join_path(d.as_str(), name)
}

fn config_file(name: &str) -> (r: String)
    ensures
        exists|home: Option<Seq<char>>| r@ == config_file_spec(home, name@),
{
    let home = platform_home_dir();
    let ghost h = opt_text(home);
    let r = config_file_from(home, name);
    assert(r@ == config_file_spec(h, name@));
    r
}

/// Path of the configuration file, `~/.config/ambient-context/config.toml`.
pub fn config_path() -> (r: String)
    ensures
        exists|home: Option<Seq<char>>| r@ == config_file_spec(home, "config.toml"@),
{
    config_file("config.toml")
}

/// Path of the file holding the running daemon's process id,
/// `~/.config/ambient-context/daemon.pid`.
pub fn pid_path() -> (r: String)
    ensures
        exists|home: Option<Seq<char>>| r@ == config_file_spec(home, "daemon.pid"@),
{
    config_file("daemon.pid")
}

/// Path of the file holding the daemon's status record,
/// `~/.config/ambient-context/status.json`.
pub fn status_path() -> (r: String)
    ensures
        exists|home: Option<Seq<char>>| r@ == config_file_spec(home, "status.json"@),
{
    config_file("status.json")
}

/// Path of the daemon's log file, `~/.config/ambient-context/daemon.log`.
pub fn log_path() -> (r: String)
    ensures
        exists|home: Option<Seq<char>>| r@ == config_file_spec(home, "daemon.log"@),
{
    config_file("daemon.log")
}

/// Path that the log file is moved to when a new log is started,
/// `~/.config/ambient-context/daemon.log.1` (the log path with its extension
/// `log` replaced by `log.1`).
pub fn rotated_log_path() -> (r: String)
    ensures
        exists|home: Option<Seq<char>>| r@ == config_file_spec(home, "daemon.log.1"@),
{
    config_file("daemon.log.1")
}

/// For every home directory, the rotated log's path is the log's path with
/// `.1` appended.
pub proof fn lemma_rotated_log_beside_log(home: Option<Seq<char>>)
    ensures
        config_file_spec(home, "daemon.log.1"@) == config_file_spec(home, "daemon.log"@) + ".1"@,
{
    reveal_strlit("daemon.log.1");
    reveal_strlit("daemon.log");
    reveal_strlit(".1");
    reveal_strlit("ambient-context");
    let d = config_dir_spec(home);
    assert(d.len() > 0 && d.last() == 't');
    assert(config_file_spec(home, "daemon.log.1"@) =~= config_file_spec(home, "daemon.log"@)
        + ".1"@);
}

/// Every file of the daemon lies directly in `.config/ambient-context`: its
/// path ends with `.config/ambient-context/` followed by the file's name, and
/// starts with the home directory when that is known and not empty.
pub proof fn lemma_config_file_location(home: Option<Seq<char>>, name: Seq<char>)
    requires
        name.len() > 0,
        name[0] != '/',
    ensures
        ({
            let p = config_file_spec(home, name);
            &&& p.len() >= name.len() + 24
            &&& p.subrange(p.len() - name.len() - 24, p.len() as int) == ".config/ambient-context/"@
                + name
            &&& p.subrange(0, home_base(home).len() as int) == home_base(home)
        }),
{
    reveal_strlit(".config");
    reveal_strlit("ambient-context");
    reveal_strlit(".config/ambient-context/");
    let base = home_base(home);
    let c = ".config"@;
    let a = "ambient-context"@;
    let d1 = joined(base, c);
    let d2 = joined(d1, a);
    let p = joined(d2, name);
    assert(c.len() == 7 && c[0] == '.');
    assert(a.len() == 15 && a[0] == 'a');
    assert(d1.len() >= 7 && d1.last() == 'g');
    assert(d1.subrange(d1.len() - 7, d1.len() as int) =~= c);
    assert(d2 == d1 + seq!['/'] + a);
    assert(d2.last() == 't');
    assert(p == d2 + seq!['/'] + name);
    assert(p.subrange(p.len() - name.len() - 24, p.len() as int) =~= ".config/ambient-context/"@
        + name);
    assert(p.subrange(0, base.len() as int) =~= base);
}

/// The default capture folder: `Ambient Context` in the home directory `home`
/// (in `.` when it is unknown).
pub open spec fn default_folder_spec(home: Option<Seq<char>>) -> Seq<char> {
    joined(home_base(home), "Ambient Context"@)
}

/// The default capture folder for a given home directory.
pub fn default_folder_from(home: Option<String>) -> (r: String)
    ensures
        r@ == default_folder_spec(opt_text(home)),
{
    proof {
        reveal_strlit(".");
    }
    let base = match home {
        Some(h) => h,
        None => ".".to_owned(),
    };
    join_path(base.as_str(), "Ambient Context")
}

/// The default capture folder, from the platform's home directory.
pub fn default_folder() -> (r: String)
    ensures
        exists|home: Option<Seq<char>>| r@ == default_folder_spec(home),
{
    let home = platform_home_dir();
    let ghost h = opt_text(home);
    let r = default_folder_from(home);
    assert(r@ == default_folder_spec(h));
    r
}

/// A path that iCloud Drive syncs: one that names its container.
pub open spec fn icloud_path(path: Seq<char>) -> bool {
    ||| contains_text(path, "Mobile Documents"@)
    ||| contains_text(path, "com~apple~CloudDocs"@)
    ||| contains_text(path, "iCloud Drive"@)
}

/// A path that names an iCloud container anywhere in it, with any text
/// before and after the name, is an iCloud path; and every iCloud path is of
/// that form for one of the three names.
pub proof fn lemma_icloud_anywhere(prefix: Seq<char>, suffix: Seq<char>, path: Seq<char>)
    ensures
        icloud_path(prefix + "Mobile Documents"@ + suffix),
        icloud_path(prefix + "com~apple~CloudDocs"@ + suffix),
        icloud_path(prefix + "iCloud Drive"@ + suffix),
        icloud_path(path) <==> exists|a: Seq<char>, z: Seq<char>|
            path == a + "Mobile Documents"@ + z || path == a + "com~apple~CloudDocs"@ + z || path
                == a + "iCloud Drive"@ + z,
{
    lemma_marker_occurs(prefix, "Mobile Documents"@, suffix);
    lemma_marker_occurs(prefix, "com~apple~CloudDocs"@, suffix);
    lemma_marker_occurs(prefix, "iCloud Drive"@, suffix);
    if icloud_path(path) {
        let m = if contains_text(path, "Mobile Documents"@) {
            "Mobile Documents"@
        } else if contains_text(path, "com~apple~CloudDocs"@) {
            "com~apple~CloudDocs"@
        } else {
            "iCloud Drive"@
        };
        let i = choose|i: int| occurs_at(path, m, i);
        let a = path.subrange(0, i);
        let z = path.subrange(i + m.len(), path.len() as int);
        assert(path =~= a + m + z);
    }
    if exists|a: Seq<char>, z: Seq<char>|
        path == a + "Mobile Documents"@ + z || path == a + "com~apple~CloudDocs"@ + z || path == a
            + "iCloud Drive"@ + z {
        let (a, z) = choose|a: Seq<char>, z: Seq<char>|
            path == a + "Mobile Documents"@ + z || path == a + "com~apple~CloudDocs"@ + z || path
                == a + "iCloud Drive"@ + z;
        lemma_marker_occurs(a, "Mobile Documents"@, z);
        lemma_marker_occurs(a, "com~apple~CloudDocs"@, z);
        lemma_marker_occurs(a, "iCloud Drive"@, z);
    }
}

proof fn lemma_marker_occurs(a: Seq<char>, m: Seq<char>, z: Seq<char>)
    ensures
        contains_text(a + m + z, m),
{
    let p = a + m + z;
    assert(p.subrange(a.len() as int, (a.len() + m.len()) as int) =~= m);
    assert(occurs_at(p, m, a.len() as int));
}

/// Whether `path` lies where iCloud Drive would upload it.
pub fn is_icloud_path(path: &str) -> (b: bool)
    ensures
        b == icloud_path(path@),
        forall|i: int| #[trigger] occurs_at(path@, "Mobile Documents"@, i) ==> b,
        forall|i: int| #[trigger] occurs_at(path@, "com~apple~CloudDocs"@, i) ==> b,
        forall|i: int| #[trigger] occurs_at(path@, "iCloud Drive"@, i) ==> b,
{
    contains(path, "Mobile Documents") || contains(path, "com~apple~CloudDocs") || contains(
        path,
        "iCloud Drive",
    )
}

} // verus!
