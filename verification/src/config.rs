//! Where the application keeps its files, what a file copied into the
//! managed directory is called, which paths may be deleted there, and when a
//! change of the directory is announced.

use vstd::prelude::*;

verus! {

/// A path of the standard library, carried through unread.
#[verifier::external_type_specification]
#[verifier::external_body]
pub struct ExPathBuf(std::path::PathBuf);

/// The settings of the application.
#[derive(Debug, Clone)]
pub struct AppConfig {
    pub kubeconfig_paths: Vec<std::path::PathBuf>,
}

impl Default for AppConfig {
    fn default() -> (config: Self)
        ensures
            config.kubeconfig_paths@.len() == 0,
    {
        AppConfig { kubeconfig_paths: Vec::new() }
    }
}

// ---------------------------------------------------------------------------
// Directories
// ---------------------------------------------------------------------------

/// The text of the path `name` joined to the path `base`.
pub uninterp spec fn joined_path(base: Seq<char>, name: Seq<char>) -> Seq<char>;

/// `Path::join`, on the texts of the paths: `name` adjoined to `base` as the
/// platform does it. The result depends on the two texts alone.
#[verifier::external_body]
fn join_path(base: &str, name: &str) -> (path: String)
    ensures
        path@ == joined_path(base@, name@),
{
    std::path::Path::new(base).join(name).to_string_lossy().into_owned()
}

/// The directory of the application under the user's home directory.
pub fn get_app_config_dir(home: &str) -> (dir: String)
    ensures
        dir@ == joined_path(home@, ".rustylens"@),
{
    join_path(home, ".rustylens")
}

/// The managed directory of credential files under the user's home
/// directory.
pub fn get_kubeconfigs_dir(home: &str) -> (dir: String)
    ensures
        dir@ == joined_path(joined_path(home@, ".rustylens"@), "kubeconfigs"@),
{
    let app_dir = get_app_config_dir(home);
    join_path(app_dir.as_str(), "kubeconfigs")
}

/// The user's own credential file under the home directory.
pub fn default_kubeconfig(home: &str) -> (path: String)
    ensures
        path@ == joined_path(joined_path(home@, ".kube"@), "config"@),
{
    let kube_dir = join_path(home, ".kube");
    join_path(kube_dir.as_str(), "config")
}

// ---------------------------------------------------------------------------
// Decimal numbers
// ---------------------------------------------------------------------------

/// The digit for a number below ten.
pub open spec fn digit_text(d: nat) -> Seq<char> {
    if d == 0 {
        "0"@
    } else if d == 1 {
        "1"@
    } else if d == 2 {
        "2"@
    } else if d == 3 {
        "3"@
    } else if d == 4 {
        "4"@
    } else if d == 5 {
        "5"@
    } else if d == 6 {
        "6"@
    } else if d == 7 {
        "7"@
    } else if d == 8 {
        "8"@
    } else {
        "9"@
    }
}

/// The decimal numeral of a natural number, without leading zeros.
pub open spec fn decimal_text(n: nat) -> Seq<char>
    decreases n,
{
    if n < 10 {
        digit_text(n)
    } else {
        decimal_text(n / 10) + digit_text(n % 10)
    }
}

fn digit(d: u64) -> (text: &'static str)
    requires
        d < 10,
    ensures
        text@ == digit_text(d as nat),
{
    if d == 0 {
        "0"
    } else if d == 1 {
        "1"
    } else if d == 2 {
        "2"
    } else if d == 3 {
        "3"
    } else if d == 4 {
        "4"
    } else if d == 5 {
        "5"
    } else if d == 6 {
        "6"
    } else if d == 7 {
        "7"
    } else if d == 8 {
        "8"
    } else {
        "9"
    }
}

/// Writes a number in decimal.
pub fn decimal(n: u64) -> (text: String)
    ensures
        text@ == decimal_text(n as nat),
    decreases n,
{
    if n < 10 {
        String::from_str(digit(n))
    } else {
        let mut text = decimal(n / 10);
        text.append(digit(n % 10));
        text
    }
}

/// The name under which a file copied into the managed directory at
/// `timestamp` is kept: the time, then the file's own name.
pub fn import_file_name(timestamp: u64, file_name: &str) -> (name: String)
    ensures
        name@ == decimal_text(timestamp as nat) + "_"@ + file_name@,
{
    let mut name = decimal(timestamp);
    name.append("_");
    name.append(file_name);
    name
}

// ---------------------------------------------------------------------------
// Paths that may be deleted
// ---------------------------------------------------------------------------

/// Whether the path of the components `path` lies inside the directory of
/// the components `dir`: it continues `dir` by at least one component, and
/// none of its components steps back to a parent.
pub open spec fn lies_inside(dir: Seq<Seq<char>>, path: Seq<Seq<char>>) -> bool {
    &&& dir.len() < path.len()
    &&& forall|i: int| 0 <= i < dir.len() ==> #[trigger] path[i] == dir[i]
    &&& forall|i: int| 0 <= i < path.len() ==> #[trigger] path[i] != ".."@
}

/// Checks that a path lies inside the managed directory, both given by
/// their components, before anything is deleted there.
pub fn validate_kubeconfig_path(dir: &Vec<String>, path: &Vec<String>) -> (r: Result<(), String>)
    ensures
        r is Ok <==> lies_inside(
            dir@.map_values(|s: String| s@),
            path@.map_values(|s: String| s@),
        ),
        r matches Err(m) ==> m@ == "Path is outside the kubeconfigs directory"@,
{
    let ghost d = dir@.map_values(|s: String| s@);
    let ghost p = path@.map_values(|s: String| s@);
    if dir.len() >= path.len() {
        return Err(String::from_str("Path is outside the kubeconfigs directory"));
    }
    let parent = String::from_str("..");
    let mut i: usize = 0;
    while i < path.len()
        invariant
            i <= path.len(),
            dir.len() < path.len(),
            parent@ == ".."@,
            d == dir@.map_values(|s: String| s@),
            p == path@.map_values(|s: String| s@),
            forall|k: int| 0 <= k < i && k < dir.len() ==> #[trigger] p[k] == d[k],
            forall|k: int| 0 <= k < i ==> #[trigger] p[k] != ".."@,
        decreases path.len() - i,
    {
        assert(p[i as int] == path@[i as int]@);
        if path[i] == parent {
            return Err(String::from_str("Path is outside the kubeconfigs directory"));
        }
        if i < dir.len() {
            assert(d[i as int] == dir@[i as int]@);
            if !(path[i] == dir[i]) {
                return Err(String::from_str("Path is outside the kubeconfigs directory"));
            }
        }
        i += 1;
    }
    Ok(())
}

// ---------------------------------------------------------------------------
// Announcing changes of the managed directory
// ---------------------------------------------------------------------------

/// How long after an announcement further changes are passed over, in
/// milliseconds.
pub const DEBOUNCE_MILLIS: u64 = 500;

/// What happened to a file of the managed directory.
#[derive(Debug, Clone, Copy, PartialEq, Eq, Structural)]
pub enum FileChange {
    Created,
    Removed,
    Modified,
    /// Anything else, such as a file being read.
    Other,
}

/// Whether a change is announced: only a creation, a removal or a
/// modification that comes at least `DEBOUNCE_MILLIS` after the last
/// announcement. An announced change becomes the last announcement.
pub open spec fn announces(since_last_millis: u64, change: FileChange) -> bool {
    since_last_millis >= DEBOUNCE_MILLIS && change != FileChange::Other
}

pub fn should_announce(since_last_millis: u64, change: FileChange) -> (announce: bool)
    ensures
        announce == announces(since_last_millis, change),
{
    if since_last_millis < DEBOUNCE_MILLIS {
        return false;
    }
    match change {
        FileChange::Created => true,
        FileChange::Removed => true,
        FileChange::Modified => true,
        FileChange::Other => false,
    }
}

} // verus!
