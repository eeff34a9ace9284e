//! The Python environment that helper scripts run in.
use crate::text::texts;
use vstd::prelude::*;

verus! {

/// The path of an entry below a directory.
pub open spec fn below(directory: Seq<char>, entry: Seq<char>) -> Seq<char> {
    if directory.len() == 0 || directory.last() == '/' {
        directory + entry
    } else {
        directory + "/"@ + entry
    }
}

/// The path of an entry below a directory. The entry is a relative path.
pub fn join_path(directory: &str, entry: &str) -> (r: String)
    ensures
        r@ == below(directory@, entry@),
{
    let chars: Vec<char> = crate::text::chars_of(directory);
    if chars.len() == 0 || chars[chars.len() - 1] == '/' {
        directory.to_owned().concat(entry)
    } else {
        directory.to_owned().concat("/").concat(entry)
    }
}

/// The directory for cached files: the one that the environment names, the
/// usual one below the home directory, or that for temporary files.
pub open spec fn cache_path(xdg_cache_home: Option<Seq<char>>, home: Option<Seq<char>>) -> Seq<
    char,
> {
    match (xdg_cache_home, home) {
        (Some(xdg), _) => xdg,
        (None, Some(home)) => below(home, ".cache"@),
        (None, None) => "/tmp"@,
    }
}

/// The directory for cached files, from the environment's `XDG_CACHE_HOME`
/// and `HOME`.
pub fn cache_dir(xdg_cache_home: Option<&str>, home: Option<&str>) -> (r: String)
    ensures
        r@ == cache_path(
            crate::clients::option_text(xdg_cache_home),
            crate::clients::option_text(home),
        ),
{
    match xdg_cache_home {
        Some(xdg) => xdg.to_owned(),
        None => match home {
            Some(home) => join_path(home, ".cache"),
            None => "/tmp".to_owned(),
        },
    }
}

/// The directory of the Python environment.
pub open spec fn environment_path(cache: Seq<char>) -> Seq<char> {
    below(below(cache, "lucida-downloader"@), "venv"@)
}

/// The directory of the Python environment below the one for cached files.
pub fn venv_dir(cache: &str) -> (r: String)
    ensures
        r@ == environment_path(cache@),
{
    join_path(join_path(cache, "lucida-downloader").as_str(), "venv")
}

/// The interpreter of a Python environment.
pub open spec fn interpreter_path(venv: Seq<char>) -> Seq<char> {
    below(below(venv, "bin"@), "python3"@)
}

/// The interpreter's arguments to make a Python environment.
pub open spec fn venv_arguments(venv: Seq<char>) -> Seq<Seq<char>> {
    seq!["-m"@, "venv"@, venv]
}

/// The command that Python is run by.
pub open spec fn python_command(python3_runs: bool, python_runs: bool) -> Option<Seq<char>> {
    if python3_runs {
        Some("python3"@)
    } else if python_runs {
        Some("python"@)
    } else {
        None
    }
}

/// The interpreter of a Python environment.
pub fn venv_python(venv: &str) -> (r: String)
    ensures
        r@ == below(below(venv@, "bin"@), "python3"@),
        r@ == interpreter_path(venv@),
{
    join_path(join_path(venv, "bin").as_str(), "python3")
}

/// The command that Python is run by: the first of `python3` and `python` that
/// can be run, if one can.
pub fn find_python(python3_runs: bool, python_runs: bool) -> (r: Option<&'static str>)
    ensures
        match r {
            Some(command) => command@ == (if python3_runs {
                "python3"@
            } else {
                "python"@
            }) && (python3_runs || python_runs),
            None => !python3_runs && !python_runs,
        },
        python_command(python3_runs, python_runs) == match r {
            Some(command) => Some(command@),
            None => None,
        },
{
    if python3_runs {
        Some("python3")
    } else if python_runs {
        Some("python")
    } else {
        None
    }
}

/// The interpreter's arguments to make a Python environment.
pub fn ensure_venv(venv: &str) -> (r: Vec<String>)
    ensures
        texts(r@) == seq!["-m"@, "venv"@, venv@],
        texts(r@) == venv_arguments(venv@),
{
    let r: Vec<String> = vec!["-m".to_owned(), "venv".to_owned(), venv.to_owned()];
    assert(texts(r@) =~= seq!["-m"@, "venv"@, venv@]);
    r
}

/// A package that a helper script needs.
#[derive(Clone, Copy, PartialEq, Eq, Structural, Debug)]
pub enum Package {
    Playwright,
    BrowserCookie3,
}

/// A command on the way to an installed package.
#[derive(Clone, Copy, PartialEq, Eq, Structural, Debug)]
pub enum InstallStep {
    /// The package is tried.
    Probe,
    /// The package is installed.
    Install,
    /// The browser that the package drives is installed.
    InstallBrowser,
}

/// What is done next to have a package.
#[derive(Clone, Copy, PartialEq, Eq, Structural, Debug)]
pub enum InstallAction {
    Run(InstallStep),
    Ready,
    Failed,
}

/// What follows on a command, which could not be run or ended with success or
/// failure. Only a package that cannot be used is installed, and only
/// Playwright then needs a browser.
pub open spec fn install_step(package: Package, step: InstallStep, outcome: Option<bool>) ->
    InstallAction {
    match (step, outcome) {
        (_, None) => InstallAction::Failed,
        (InstallStep::Probe, Some(true)) => InstallAction::Ready,
        (InstallStep::Probe, Some(false)) => InstallAction::Run(InstallStep::Install),
        (InstallStep::Install, Some(true)) => match package {
            Package::Playwright => InstallAction::Run(InstallStep::InstallBrowser),
            Package::BrowserCookie3 => InstallAction::Ready,
        },
        (InstallStep::InstallBrowser, Some(true)) => InstallAction::Ready,
        (_, Some(false)) => InstallAction::Failed,
    }
}

/// What follows on a command, which could not be run or ended with success or
/// failure.
fn after_command(package: Package, step: InstallStep, outcome: Option<bool>) -> (r: InstallAction)
    ensures
        r == install_step(package, step, outcome),
{
    let success: bool = match outcome {
        Some(success) => success,
        None => {
            return InstallAction::Failed;
        },
    };
    match step {
        InstallStep::Probe => if success {
            InstallAction::Ready
        } else {
            InstallAction::Run(InstallStep::Install)
        },
        InstallStep::Install => if !success {
            InstallAction::Failed
        } else {
            match package {
                Package::Playwright => InstallAction::Run(InstallStep::InstallBrowser),
                Package::BrowserCookie3 => InstallAction::Ready,
            }
        },
        InstallStep::InstallBrowser => if success {
            InstallAction::Ready
        } else {
            InstallAction::Failed
        },
    }
}

/// What follows on a command while Playwright is made ready.
pub fn ensure_playwright(step: InstallStep, outcome: Option<bool>) -> (r: InstallAction)
    ensures
        r == install_step(Package::Playwright, step, outcome),
{
    after_command(Package::Playwright, step, outcome)
}

/// What follows on a command while `browser_cookie3` is made ready.
pub fn ensure_browser_cookie3(step: InstallStep, outcome: Option<bool>) -> (r: InstallAction)
    ensures
        r == install_step(Package::BrowserCookie3, step, outcome),
{
    after_command(Package::BrowserCookie3, step, outcome)
}

/// The name of a package.
pub open spec fn package_name(package: Package) -> Seq<char> {
    match package {
        Package::Playwright => "playwright"@,
        Package::BrowserCookie3 => "browser_cookie3"@,
    }
}

/// The interpreter's arguments for a command.
pub open spec fn install_arguments(package: Package, step: InstallStep) -> Seq<Seq<char>> {
    match step {
        InstallStep::Probe => seq!["-c"@, "import "@ + package_name(package)],
        InstallStep::Install => seq![
            "-m"@,
            "pip"@,
            "install"@,
            "--quiet"@,
            package_name(package),
        ],
        InstallStep::InstallBrowser => seq!["-m"@, package_name(package), "install"@, "chromium"@],
    }
}

/// The interpreter's arguments for a command.
pub fn install_command(package: Package, step: InstallStep) -> (r: Vec<String>)
    ensures
        texts(r@) == install_arguments(package, step),
{
    let name: &str = match package {
        Package::Playwright => "playwright",
        Package::BrowserCookie3 => "browser_cookie3",
    };
    let r: Vec<String> = match step {
        InstallStep::Probe => vec!["-c".to_owned(), "import ".to_owned().concat(name)],
        InstallStep::Install => vec![
            "-m".to_owned(),
            "pip".to_owned(),
            "install".to_owned(),
            "--quiet".to_owned(),
            name.to_owned(),
        ],
        InstallStep::InstallBrowser => vec![
            "-m".to_owned(),
            name.to_owned(),
            "install".to_owned(),
            "chromium".to_owned(),
        ],
    };
    assert(texts(r@) =~= install_arguments(package, step));
    r
}

/// What comes of a package where the commands end as given, from the given
/// one on.
pub open spec fn install_run(package: Package, step: InstallStep, outcomes: Seq<Option<bool>>) ->
    InstallAction
    decreases outcomes.len(),
{
    if outcomes.len() == 0 {
        InstallAction::Run(step)
    } else {
        match install_step(package, step, outcomes[0]) {
            InstallAction::Run(next) => install_run(package, next, outcomes.skip(1)),
            settled => settled,
        }
    }
}

/// A package is ready or has failed after three commands at most, and after
/// two where no browser is needed.
pub proof fn law_install_ends(package: Package, outcomes: Seq<Option<bool>>)
    requires
        outcomes.len() >= if package is Playwright {
            3int
        } else {
            2int
        },
    ensures
        install_run(package, InstallStep::Probe, outcomes) is Ready || install_run(
            package,
            InstallStep::Probe,
            outcomes,
        ) is Failed,
{
    reveal_with_fuel(install_run, 4);
    assert(outcomes.skip(1)[0] == outcomes[1]);
    if package is Playwright {
        assert(outcomes.skip(1).skip(1)[0] == outcomes[2]);
    }
}

/// A package that can be used is not installed again.
pub proof fn law_usable_package_is_left_alone(package: Package, outcomes: Seq<Option<bool>>)
    requires
        outcomes.len() > 0,
        outcomes[0] == Some(true),
    ensures
        install_run(package, InstallStep::Probe, outcomes) is Ready,
{
}

} // verus!
