//! Where the application keeps its files, and the launch agent that starts
//! it at login.
use vstd::prelude::*;
use vstd::string::{StrSliceExecFns, StringExecFns};
use crate::text::chars_of;

verus! {

/// The label of the launch agent.
pub const LAUNCH_AGENT_LABEL: &'static str = "com.focustrace.agent";

/// `part` appended to the path `base` with one separator between them: the
/// way std's `Path::join` appends a relative part on Unix (no separator is
/// added after an empty base or one that already ends in `/`).
pub open spec fn joined(base: Seq<char>, part: Seq<char>) -> Seq<char> {
    if base.len() == 0 || base.last() == '/' {
        base + part
    } else {
        base + seq!['/'] + part
    }
}

/// The path `part` appended to `base`.
pub fn join_path(base: &str, part: &str) -> (res: String)
    ensures
        res@ == joined(base@, part@),
{
    let chars = chars_of(base);
    let mut out = String::from_str(base);
    let n = chars.len();
    if n > 0 && chars[n - 1] != '/' {
        let sep = "/";
        proof {
            reveal_strlit("/");
        }
        out.append(sep);
    }
    out.append(part);
    out
}

/// The view of an optional string.
pub open spec fn opt_view(o: Option<String>) -> Option<Seq<char>> {
    match o {
        Some(s) => Some(s@),
        None => None,
    }
}

/// A base directory, or the current directory where there is none.
pub open spec fn base_or_current(base: Option<Seq<char>>) -> Seq<char> {
    match base {
        Some(b) => b,
        None => "."@,
    }
}

/// The application's data directory under the user's data directory `base`.
pub open spec fn app_data_dir(base: Option<Seq<char>>) -> Seq<char> {
    joined(base_or_current(base), "FocusTrace"@)
}

/// The database file under the user's data directory `base`.
pub open spec fn data_file_path(base: Option<Seq<char>>) -> Seq<char> {
    joined(app_data_dir(base), "focus.sqlite"@)
}

/// The settings file under the user's data directory `base`.
pub open spec fn settings_file_path(base: Option<Seq<char>>) -> Seq<char> {
    joined(app_data_dir(base), "settings.json"@)
}

/// Where the launch agent's file lies under the home directory `home`.
pub open spec fn launch_agent_path(home: Option<Seq<char>>) -> Seq<char> {
    joined(
        joined(base_or_current(home), "Library/LaunchAgents"@),
        LAUNCH_AGENT_LABEL@ + ".plist"@,
    )
}

/// `base`, or `"."` where there is none.
fn base_or_current_dir(base: Option<String>) -> (res: String)
    ensures
        res@ == base_or_current(opt_view(base)),
{
    match base {
        Some(b) => b,
        None => String::from_str("."),
    }
}

/// The user's data directory, from `dirs::data_dir`, as text (a part that
/// is not UTF-8 is replaced as `to_string_lossy` does). It depends on the
/// platform and the environment, so nothing is stated of it.
#[verifier::external_body]
pub(crate) fn system_data_dir() -> (res: Option<String>) {
    match dirs::data_dir() {
        Some(p) => Some(p.to_string_lossy().into_owned()),
        None => None,
    }
}

/// The user's home directory, from `dirs::home_dir`, as text (a part that
/// is not UTF-8 is replaced as `to_string_lossy` does). It depends on the
/// environment, so nothing is stated of it.
#[verifier::external_body]
fn system_home_dir() -> (res: Option<String>) {
    match dirs::home_dir() {
        Some(p) => Some(p.to_string_lossy().into_owned()),
        None => None,
    }
}

/// The application's data directory under the user's data directory `base`
/// (the current directory where there is none).
pub fn data_dir_under(base: Option<String>) -> (res: String)
    ensures
        res@ == app_data_dir(opt_view(base)),
{
    let b = base_or_current_dir(base);
    join_path(b.as_str(), "FocusTrace")
}

/// The application's data directory, under the user's data directory.
pub fn data_dir() -> (res: String)
    ensures
        exists|base: Option<Seq<char>>| res@ == app_data_dir(base),
{
    let base = system_data_dir();
    data_dir_under(base)
}

/// The database file under the user's data directory `base` (the current
/// directory where there is none).
pub fn data_path_under(base: Option<String>) -> (res: String)
    ensures
        res@ == data_file_path(opt_view(base)),
{
    let dir = data_dir_under(base);
    join_path(dir.as_str(), "focus.sqlite")
}

/// The settings file under the user's data directory `base` (the current
/// directory where there is none).
pub fn settings_path_under(base: Option<String>) -> (res: String)
    ensures
        res@ == settings_file_path(opt_view(base)),
{
    let dir = data_dir_under(base);
    join_path(dir.as_str(), "settings.json")
}

/// The database file, in the application's data directory.
pub fn data_path() -> (res: String)
    ensures
        exists|base: Option<Seq<char>>| res@ == data_file_path(base),
{
    let base = system_data_dir();
    data_path_under(base)
}

/// The database file and the settings file lie side by side in the
/// application's data directory: each is that directory, a `/`, and the
/// file's name.
pub proof fn lemma_files_share_data_dir(base: Option<Seq<char>>)
    ensures
        data_file_path(base) == app_data_dir(base) + "/"@ + "focus.sqlite"@,
        settings_file_path(base) == app_data_dir(base) + "/"@ + "settings.json"@,
{
    reveal_strlit("FocusTrace");
    reveal_strlit("/");
    let dir = app_data_dir(base);
    let b = base_or_current(base);
    if b.len() == 0 || b.last() == '/' {
        assert(dir == b + "FocusTrace"@);
    } else {
        assert(dir == b + seq!['/'] + "FocusTrace"@);
    }
    assert(dir.last() == 'e');
    assert("/"@ == seq!['/']);
}

/// Where the launch agent's file lies under the home directory `home` (the
/// current directory where there is none).
pub fn plist_path_under(home: Option<String>) -> (res: String)
    ensures
        res@ == launch_agent_path(opt_view(home)),
{
    let h = base_or_current_dir(home);
    let agents = join_path(h.as_str(), "Library/LaunchAgents");
    let name = String::from_str(LAUNCH_AGENT_LABEL).concat(".plist");
    join_path(agents.as_str(), name.as_str())
}

/// Where the launch agent's file lies, under the user's home directory.
pub fn plist_path() -> (res: String)
    ensures
        exists|home: Option<Seq<char>>| res@ == launch_agent_path(home),
{
    let home = system_home_dir();
    plist_path_under(home)
}

/// The launch agent's text up to its label.
pub const PLIST_HEAD: &'static str = r#"<?xml version="1.0" encoding="UTF-8"?>
<!DOCTYPE plist PUBLIC "-//Apple//DTD PLIST 1.0//EN" "http://www.apple.com/DTDs/PropertyList-1.0.dtd">
<plist version="1.0">
<dict>
    <key>Label</key><string>"#;

/// The launch agent's text between its label and the program's path.
pub const PLIST_MIDDLE: &'static str = r#"</string>
    <key>ProgramArguments</key>
    <array>
        <string>"#;

/// The launch agent's text after the program's path.
pub const PLIST_TAIL: &'static str = r#"</string>
    </array>
    <key>RunAtLoad</key><true/>
    <key>KeepAlive</key><false/>
</dict>
</plist>
"#;

/// The launch agent that starts the program at `exe` at login, once, and
/// does not restart it.
pub open spec fn launch_agent_text(exe: Seq<char>) -> Seq<char> {
    PLIST_HEAD@ + LAUNCH_AGENT_LABEL@ + PLIST_MIDDLE@ + exe + PLIST_TAIL@
}

/// The text of the launch agent for the program at `exe`.
pub fn launch_agent_plist(exe: &str) -> (res: String)
    ensures
        res@ == launch_agent_text(exe@),
{
    String::from_str(PLIST_HEAD).concat(LAUNCH_AGENT_LABEL).concat(PLIST_MIDDLE).concat(exe).concat(
        PLIST_TAIL,
    )
}

/// The path text `s` has a component ending at `k` (at the end of the text
/// or before a `/`) whose extension is `app`: the component ends in `.app`
/// with something before the dot, as std's `Path::extension` reads it.
pub open spec fn app_bundle_end(s: Seq<char>, k: int) -> bool {
    &&& 5 <= k <= s.len()
    &&& (k == s.len() || s[k] == '/')
    &&& s.subrange(k - 4, k) == seq!['.', 'a', 'p', 'p']
    &&& s[k - 5] != '/'
}

/// The application bundle that contains the program at `exe`: the
/// innermost ancestor of the path (the path itself included) whose
/// extension is `app`, or the program's own path where there is none.
/// For a normalized path such as `current_exe` gives, this is the first of
/// std's `Path::ancestors` with extension `app`.
pub fn app_bundle_path(exe: &str) -> (res: String)
    ensures
        ({
            ||| exists|k: int|
                app_bundle_end(exe@, k) && res@ == exe@.take(k) && forall|j: int|
                    k < j ==> !app_bundle_end(exe@, j)
            ||| (forall|j: int| !app_bundle_end(exe@, j)) && res@ == exe@
        }),
{
    let c = chars_of(exe);
    let n = c.len();
    let mut k: usize = n;
    while k >= 5
        invariant
            c@ == exe@,
            n == c.len(),
            k <= n,
            forall|j: int| k < j ==> !app_bundle_end(exe@, j),
        decreases k,
    {
        let boundary = k == n || c[k] == '/';
        if boundary && c[k - 4] == '.' && c[k - 3] == 'a' && c[k - 2] == 'p' && c[k - 1] == 'p'
            && c[k - 5] != '/' {
            proof {
                assert(exe@.subrange(k - 4, k as int) =~= seq!['.', 'a', 'p', 'p']);
                assert(app_bundle_end(exe@, k as int));
            }
            let part = exe.substring_char(0, k);
            let res = String::from_str(part);
            proof {
                assert(exe@.subrange(0, k as int) =~= exe@.take(k as int));
                assert(res@ == exe@.take(k as int));
            }
            return res;
        }
        proof {
            if app_bundle_end(exe@, k as int) {
                assert(exe@.subrange(k - 4, k as int)[0] == c@[k - 4]);
                assert(exe@.subrange(k - 4, k as int)[1] == c@[k - 3]);
                assert(exe@.subrange(k - 4, k as int)[2] == c@[k - 2]);
                assert(exe@.subrange(k - 4, k as int)[3] == c@[k - 1]);
            }
        }
        k = k - 1;
    }
    String::from_str(exe)
}

/// The launch agent's file lies in `Library/LaunchAgents` under the home
/// directory that is given (or under the current directory where none is),
/// named after the agent's label.
pub proof fn lemma_launch_agent_under_home(home: Option<Seq<char>>)
    requires
        home matches Some(h) ==> h.len() > 0 && h.last() != '/',
    ensures
        launch_agent_path(home) == base_or_current(home) + "/"@ + "Library/LaunchAgents"@ + "/"@
            + LAUNCH_AGENT_LABEL@ + ".plist"@,
{
    reveal_strlit("/");
    reveal_strlit(".");
    reveal_strlit("Library/LaunchAgents");
    let b = base_or_current(home);
    assert(b.len() > 0 && b.last() != '/');
    let agents = joined(b, "Library/LaunchAgents"@);
    assert(agents == b + "/"@ + "Library/LaunchAgents"@);
    assert(agents.last() == 's');
}
} // verus!
