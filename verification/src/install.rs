//! Installing the Hermes agent from the onboarding wizard: which installer
//! runs, how its output is reported, and what its exit means.

use vstd::prelude::*;
use crate::config::strs_view;
use crate::json::ostring;

verus! {

/// One line of installer output.
#[derive(Debug, Clone, PartialEq, Eq)]
pub struct InstallProgress {
    pub line: String,
    /// `stdout` or `stderr`.
    pub stream: String,
}

/// What an install gave.
#[derive(Debug, Clone, PartialEq, Eq)]
pub struct InstallResult {
    pub success: bool,
    pub error: Option<String>,
    pub hermes_home: Option<String>,
}

/// The installer to run.
#[derive(Debug, Clone, PartialEq, Eq)]
pub struct InstallerCommand {
    pub program: String,
    pub args: Vec<String>,
    /// Extra environment variables.
    pub env: Vec<(String, String)>,
}

/// The PowerShell line that runs the official Windows installer.
pub open spec fn windows_install_script() -> Seq<char> {
    "iex (irm https://hermes-agent.nousresearch.com/install.ps1)"@
}

/// The shell line that runs the official installer elsewhere.
pub open spec fn unix_install_script() -> Seq<char> {
    "curl -fsSL https://raw.githubusercontent.com/NousResearch/hermes-agent/main/scripts/install.sh | bash"@
}

/// The installer for a platform: PowerShell with the official script on
/// Windows, `bash -c` with the install one-liner elsewhere; output is
/// unbuffered.
pub fn installer_command(windows: bool) -> (r: InstallerCommand)
    ensures
        windows ==> r.program@ == "powershell.exe"@ && strs_view(r.args@) == seq![
            "-ExecutionPolicy"@,
            "ByPass"@,
            "-NoProfile"@,
            "-Command"@,
            windows_install_script(),
        ],
        !windows ==> r.program@ == "bash"@ && strs_view(r.args@) == seq!["-c"@, unix_install_script()],
        crate::config::pairs_view(r.env@) == seq![("PYTHONUNBUFFERED"@, "1"@)],
{
    let mut args: Vec<String> = Vec::new();
    let program = if windows {
        args.push("-ExecutionPolicy".to_owned());
        args.push("ByPass".to_owned());
        args.push("-NoProfile".to_owned());
        args.push("-Command".to_owned());
        args.push("iex (irm https://hermes-agent.nousresearch.com/install.ps1)".to_owned());
        "powershell.exe".to_owned()
    } else {
        args.push("-c".to_owned());
        args.push(
            "curl -fsSL https://raw.githubusercontent.com/NousResearch/hermes-agent/main/scripts/install.sh | bash".to_owned(),
        );
        "bash".to_owned()
    };
    let mut env: Vec<(String, String)> = Vec::new();
    env.push(("PYTHONUNBUFFERED".to_owned(), "1".to_owned()));
    proof {
        if windows {
            assert(strs_view(args@) =~= seq![
                "-ExecutionPolicy"@,
                "ByPass"@,
                "-NoProfile"@,
                "-Command"@,
                windows_install_script(),
            ]);
        } else {
            assert(strs_view(args@) =~= seq!["-c"@, unix_install_script()]);
        }
        assert(crate::config::pairs_view(env@) =~= seq![("PYTHONUNBUFFERED"@, "1"@)]);
    }
    InstallerCommand { program, args, env }
}

/// A second install is refused while one runs.
pub fn check_no_install_running(running: bool) -> (r: Result<(), String>)
    ensures
        running <==> r is Err,
        r matches Err(e) ==> e@ == "An install is already running"@,
{
    if running {
        Err("An install is already running".to_owned())
    } else {
        Ok(())
    }
}

/// The error when the installer could not be started.
pub fn spawn_failure(error: &str) -> (r: String)
    ensures
        r@ == "Failed to start installer: "@ + error@,
{
    "Failed to start installer: ".to_owned().concat(error)
}

/// One line of installer output, from standard output or standard error.
pub fn install_progress(line: &str, from_stderr: bool) -> (r: InstallProgress)
    ensures
        r.line@ == line@,
        r.stream@ == (if from_stderr { "stderr"@ } else { "stdout"@ }),
{
    InstallProgress {
        line: line.to_owned(),
        stream: if from_stderr {
            "stderr".to_owned()
        } else {
            "stdout".to_owned()
        },
    }
}

/// How the installer process ended.
#[derive(Debug, Clone, PartialEq, Eq)]
pub enum InstallerExit {
    /// It exited; `status` is the exit status as text.
    Exited { success: bool, status: String },
    /// Waiting for it failed.
    WaitFailed { error: String },
    /// Its process was gone before it could be waited for.
    Vanished,
}

/// What an installer's end means: success with the default agent home
/// (when it is known), or the reason it failed.
pub fn install_result(exit: &InstallerExit, default_home: Option<&str>) -> (r: InstallResult)
    ensures
        match exit {
            InstallerExit::Exited { success, status } => {
                &&& r.success == *success
                &&& *success ==> r.error is None && ostring(r.hermes_home) == (match default_home {
                    Some(h) => Some(h@),
                    None => None::<Seq<char>>,
                })
                &&& !*success ==> r.hermes_home is None && ostring(r.error) == Some("Installer exited with status "@ + status@)
            },
            InstallerExit::WaitFailed { error } => !r.success && r.hermes_home is None && ostring(r.error) == Some(
                "Installer wait failed: "@ + error@,
            ),
            InstallerExit::Vanished => !r.success && r.hermes_home is None && ostring(r.error) == Some(
                "Installer process vanished"@,
            ),
        },
{
    match exit {
        InstallerExit::Exited { success, status } => {
            if *success {
                InstallResult {
                    success: true,
                    error: None,
                    hermes_home: match default_home {
                        Some(h) => Some(h.to_owned()),
                        None => None,
                    },
                }
            } else {
                InstallResult {
                    success: false,
                    error: Some("Installer exited with status ".to_owned().concat(status.as_str())),
                    hermes_home: None,
                }
            }
        },
        InstallerExit::WaitFailed { error } => InstallResult {
            success: false,
            error: Some("Installer wait failed: ".to_owned().concat(error.as_str())),
            hermes_home: None,
        },
        InstallerExit::Vanished => InstallResult {
            success: false,
            error: Some("Installer process vanished".to_owned()),
            hermes_home: None,
        },
    }
}

/// The agent home that the installer creates, as a base directory and the
/// directory inside it: `hermes` in the local data directory on Windows,
/// `.hermes` in the home directory elsewhere; unknown without that base.
pub fn default_hermes_home(windows: bool, data_local_dir: Option<&str>, home_dir: Option<&str>) -> (r: Option<(String, String)>)
    ensures
        windows ==> match data_local_dir {
            Some(d) => r matches Some((b, s)) && b@ == d@ && s@ == "hermes"@,
            None => r is None,
        },
        !windows ==> match home_dir {
            Some(h) => r matches Some((b, s)) && b@ == h@ && s@ == ".hermes"@,
            None => r is None,
        },
{
    if windows {
        match data_local_dir {
            Some(d) => Some((d.to_owned(), "hermes".to_owned())),
            None => None,
        }
    } else {
        match home_dir {
            Some(h) => Some((h.to_owned(), ".hermes".to_owned())),
            None => None,
        }
    }
}

} // verus!
