use vstd::prelude::*;

verus! {

/// What is known of the current user's home directory.
pub enum HomeDir {
    /// No home directory is known.
    Unknown,
    /// The home directory is known but its path is not Unicode text.
    NotUnicode,
    /// The home directory's path.
    Path(String),
}

/// The directory, under a home directory, that holds analytics state.
pub open spec fn metrics_dir() -> Seq<char> {
    seq!['.', 'f', 'u', 'c', 'h', 's', 'i', 'a', '/', 'm', 'e', 't', 'r', 'i', 'c', 's', '/']
}

/// Where analytics state lives when no usable home directory is known.
pub open spec fn fallback_folder() -> Seq<char> {
    seq!['/', 't', 'm', 'p', '/'] + metrics_dir()
}

/// `rel` appended to the path `base` as one more component: a `/` goes
/// between them unless `base` is empty or already ends in one.
pub open spec fn joined(base: Seq<char>, rel: Seq<char>) -> Seq<char> {
    if base.len() > 0 && base.last() != '/' {
        base + seq!['/'] + rel
    } else {
        base + rel
    }
}

/// The analytics folder for a given home directory.
pub open spec fn folder_for(home: HomeDir) -> Seq<char> {
    match home {
        HomeDir::Path(p) => joined(p@, metrics_dir()),
        _ => fallback_folder(),
    }
}

/// A variable named `name` is among the set variables `vars`.
pub open spec fn is_set(vars: Seq<String>, name: Seq<char>) -> bool {
    exists|i: int| 0 <= i < vars.len() && (#[trigger] vars[i])@ == name
}

/// The variable that marks a test run.
pub open spec fn test_env_var() -> Seq<char> {
    "FUCHSIA_TEST_OUTDIR"@
}

/// The variable that turns analytics off explicitly.
pub open spec fn analytics_disabled_var() -> Seq<char> {
    "FUCHSIA_ANALYTICS_DISABLED"@
}

/// One of the variables that continuous-integration services set is set.
pub open spec fn ci_bot_env(vars: Seq<String>) -> bool {
    ||| is_set(vars, "TF_BUILD"@)
    ||| is_set(vars, "bamboo.buildKey"@)
    ||| is_set(vars, "BUILDKITE"@)
    ||| is_set(vars, "CIRCLECI"@)
    ||| is_set(vars, "CIRRUS_CI"@)
    ||| is_set(vars, "CODEBUILD_BUILD_ID"@)
    ||| is_set(vars, "SWARMING_BOT_ID"@)
    ||| is_set(vars, "GITHUB_ACTIONS"@)
    ||| is_set(vars, "GITLAB_CI"@)
    ||| is_set(vars, "HEROKU_TEST_RUN_ID"@)
    ||| is_set(vars, "BUILD_ID"@)
    ||| is_set(vars, "TEAMCITY_VERSION"@)
    ||| is_set(vars, "TRAVIS"@)
}

/// Relies on `home::home_dir`: the current user's home directory, if one is
/// known. Which directory that is depends on the environment, so nothing is
/// promised of it.
#[verifier::external_body]
fn home_dir_lookup() -> (r: HomeDir) {
    match home::home_dir() {
        None => HomeDir::Unknown,
        Some(p) => match p.into_os_string().into_string() {
            Ok(s) => HomeDir::Path(s),
            Err(_) => HomeDir::NotUnicode,
        },
    }
}

/// `rel` appended to `base` as one more path component.
fn join_path(base: &String, rel: &str) -> (r: String)
    ensures
        r@ == joined(base@, rel@),
{
    let n = base.as_str().unicode_len();
    let mut r = base.clone();
    if n > 0 && base.as_str().get_char(n - 1) != '/' {
        r.append("/");
        proof {
            reveal_strlit("/");
        }
    }
    r.append(rel);
    r
}

/// The analytics folder under the home directory `home`.
pub fn analytics_folder_in(home: &HomeDir) -> (r: String)
    ensures
        r@ == folder_for(*home),
{
    proof {
        reveal_strlit(".fuchsia/metrics/");
        reveal_strlit("/tmp/.fuchsia/metrics/");
    }
    match home {
        HomeDir::Path(p) => join_path(p, ".fuchsia/metrics/"),
        _ => {
            let r = String::from_str("/tmp/.fuchsia/metrics/");
            assert(r@ =~= fallback_folder());
            r
        },
    }
}

/// The analytics folder of the current user.
pub fn analytics_folder() -> (r: String)
    ensures
        exists|home: HomeDir| r@ == folder_for(home),
{
    let home = home_dir_lookup();
    analytics_folder_in(&home)
}

/// The path of the analytics file named `status_file_name` under the home
/// directory `home`.
pub fn path_for_analytics_file_in(home: &HomeDir, status_file_name: &str) -> (r: String)
    ensures
        r@ == folder_for(*home) + status_file_name@,
{
    let mut r = analytics_folder_in(home);
    r.append(status_file_name);
    r
}

/// The path of the analytics file named `status_file_name` for the current user.
pub fn path_for_analytics_file(status_file_name: &str) -> (r: String)
    ensures
        exists|home: HomeDir| r@ == folder_for(home) + status_file_name@,
{
    let home = home_dir_lookup();
    path_for_analytics_file_in(&home, status_file_name)
}

/// Whether a variable named `name` is among `vars`.
fn var_is_set(vars: &Vec<String>, name: &str) -> (r: bool)
    ensures
        r == is_set(vars@, name@),
{
    let wanted = String::from_str(name);
    let mut i: usize = 0;
    while i < vars.len()
        invariant
            i <= vars.len(),
            wanted@ == name@,
            forall|j: int| 0 <= j < i ==> (#[trigger] vars@[j])@ != name@,
        decreases vars.len() - i,
    {
        if vars[i] == wanted {
            return true;
        }
        i = i + 1;
    }
    false
}

/// Whether this is a test run, given the names of the set environment variables.
pub fn is_test_env(vars: &Vec<String>) -> (r: bool)
    ensures
        r == is_set(vars@, test_env_var()),
{
    var_is_set(vars, "FUCHSIA_TEST_OUTDIR")
}

/// Whether analytics are turned off explicitly, given the names of the set
/// environment variables.
pub fn is_fuchsia_analytics_disabled_set(vars: &Vec<String>) -> (r: bool)
    ensures
        r == is_set(vars@, analytics_disabled_var()),
{
    var_is_set(vars, "FUCHSIA_ANALYTICS_DISABLED")
}

/// Whether this runs under a continuous-integration service, given the
/// names of the set environment variables.
pub fn is_running_in_ci_bot_env(vars: &Vec<String>) -> (r: bool)
    ensures
        r == ci_bot_env(vars@),
{
    var_is_set(vars, "TF_BUILD") || var_is_set(vars, "bamboo.buildKey") || var_is_set(
        vars,
        "BUILDKITE",
    ) || var_is_set(vars, "CIRCLECI") || var_is_set(vars, "CIRRUS_CI") || var_is_set(
        vars,
        "CODEBUILD_BUILD_ID",
    ) || var_is_set(vars, "SWARMING_BOT_ID") || var_is_set(vars, "GITHUB_ACTIONS") || var_is_set(
        vars,
        "GITLAB_CI",
    ) || var_is_set(vars, "HEROKU_TEST_RUN_ID") || var_is_set(vars, "BUILD_ID") || var_is_set(
        vars,
        "TEAMCITY_VERSION",
    ) || var_is_set(vars, "TRAVIS")
}

/// Whether the environment turns analytics off: in a test run, when turned
/// off explicitly, or under a continuous-integration service.
pub fn is_analytics_disabled_by_env(vars: &Vec<String>) -> (r: bool)
    ensures
        r == (is_set(vars@, test_env_var()) || is_set(vars@, analytics_disabled_var())
            || ci_bot_env(vars@)),
{
    is_test_env(vars) || is_fuchsia_analytics_disabled_set(vars) || is_running_in_ci_bot_env(vars)
}

/// The operating system's description: its name and the machine's hardware
/// name, separated by a space.
pub fn os_description(sysname: &str, machine: &str) -> (r: String)
    ensures
        r@ == sysname@ + seq![' '] + machine@,
{
    let mut r = String::from_str(sysname);
    r.append(" ");
    proof {
        reveal_strlit(" ");
    }
    r.append(machine);
    r
}

} // verus!
