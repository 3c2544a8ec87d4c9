//! What differs from one operating system to the next: how processes are stopped and asked after,
//! and where the pinned tools come from.

use crate::location;
use crate::location::JoinedPath;
use crate::text;
use vstd::prelude::*;

verus! {

/// The families of operating systems that are told apart.
#[derive(Debug, Clone, Copy, PartialEq, Eq, Structural)]
pub enum Os {
    Windows,
    Macos,
    Linux,
    OtherUnix,
}

/// How a pinned tool is installed.
#[derive(Debug)]
pub enum Install {
    /// An installer is downloaded and run without questions.
    Installer { url: String, name: String },
    /// An archive is downloaded and unpacked below `~/.stack/tools`.
    Archive { url: String, name: String, version: String },
}

/// What an `Install` says.
pub enum InstallText {
    Installer { url: Seq<char>, name: Seq<char> },
    Archive { url: Seq<char>, name: Seq<char>, version: Seq<char> },
}

impl View for Install {
    type V = InstallText;

    open spec fn view(&self) -> InstallText {
        match *self {
            Install::Installer { url, name } => InstallText::Installer { url: url@, name: name@ },
            Install::Archive { url, name, version } => InstallText::Archive {
                url: url@,
                name: name@,
                version: version@,
            },
        }
    }
}

/// How a pinned tool is installed on Windows.
pub open spec fn windows_install(tool: Seq<char>, version: Seq<char>) -> Option<InstallText> {
    if tool == "vfox"@ {
        Some(
            InstallText::Installer {
                url: "https://github.com/version-fox/vfox/releases/download/v"@ + version
                    + "/vfox_"@ + version + "_windows_setup_x86_64.exe"@,
                name: "vfox"@,
            },
        )
    } else if tool == "uv"@ {
        Some(
            InstallText::Archive {
                url: "https://github.com/astral-sh/uv/releases/download/"@ + version
                    + "/uv-x86_64-pc-windows-msvc.zip"@,
                name: "uv"@,
                version,
            },
        )
    } else if tool == "caddy"@ {
        Some(
            InstallText::Archive {
                url: "https://github.com/caddyserver/caddy/releases/download/v"@ + version
                    + "/caddy_"@ + version + "_windows_amd64.zip"@,
                name: "caddy"@,
                version,
            },
        )
    } else {
        None
    }
}

/// What is reported where a pinned tool cannot be installed.
pub open spec fn no_install_text(os: Os, tool: Seq<char>, version: Seq<char>) -> Seq<char> {
    match os {
        Os::Windows => "no install_pinned strategy known for '"@ + tool + "' on Windows"@,
        Os::Macos => "install_pinned("@ + tool + ", "@ + version
            + ") not yet implemented — see PLAN.md step 25"@,
        Os::Linux => "install_pinned("@ + tool + ", "@ + version + ") not yet implemented"@,
        Os::OtherUnix => "no install_pinned implementation for this Unix target ("@ + tool + " "@
            + version + ")"@,
    }
}

/// How a pinned tool is installed, or what is reported where it cannot be.
pub fn install_pinned(os: Os, tool: &str, version: &str) -> (r: Result<Install, String>)
    ensures
        match r {
            Ok(i) => os == Os::Windows && windows_install(tool@, version@) == Some(i@),
            Err(why) => {
                &&& os == Os::Windows ==> windows_install(tool@, version@) is None
                &&& why@ == no_install_text(os, tool@, version@)
            },
        },
{
    match os {
        Os::Windows => {
            if text::same(tool, "vfox") {
                let mut url = "https://github.com/version-fox/vfox/releases/download/v".to_owned();
                url.append(version);
                url.append("/vfox_");
                url.append(version);
                url.append("_windows_setup_x86_64.exe");
                Ok(Install::Installer { url, name: "vfox".to_owned() })
            } else if text::same(tool, "uv") {
                let mut url = "https://github.com/astral-sh/uv/releases/download/".to_owned();
                url.append(version);
                url.append("/uv-x86_64-pc-windows-msvc.zip");
                Ok(Install::Archive { url, name: "uv".to_owned(), version: version.to_owned() })
            } else if text::same(tool, "caddy") {
                let mut url =
                    "https://github.com/caddyserver/caddy/releases/download/v".to_owned();
                url.append(version);
                url.append("/caddy_");
                url.append(version);
                url.append("_windows_amd64.zip");
                Ok(Install::Archive { url, name: "caddy".to_owned(), version: version.to_owned() })
            } else {
                let mut why = "no install_pinned strategy known for '".to_owned();
                why.append(tool);
                why.append("' on Windows");
                Err(why)
            }
        },
        Os::Macos => {
            let mut why = "install_pinned(".to_owned();
            why.append(tool);
            why.append(", ");
            why.append(version);
            why.append(") not yet implemented — see PLAN.md step 25");
            Err(why)
        },
        Os::Linux => {
            let mut why = "install_pinned(".to_owned();
            why.append(tool);
            why.append(", ");
            why.append(version);
            why.append(") not yet implemented");
            Err(why)
        },
        Os::OtherUnix => {
            let mut why = "no install_pinned implementation for this Unix target (".to_owned();
            why.append(tool);
            why.append(" ");
            why.append(version);
            why.append(")");
            Err(why)
        },
    }
}

/// Where an archive is unpacked.
pub fn install_dir(home: &str, name: &str, version: &str) -> (r: JoinedPath)
    ensures
        r@ == location::stack_dir(home@).join("tools"@).join(name@).join(version@),
{
    location::stack_directory(home).join("tools").join(name).join(version)
}

/// What is done with an entry of an archive.
#[derive(Debug, PartialEq, Eq, Structural)]
pub enum Extract {
    /// It would land outside the target.
    Skip,
    MakeDir,
    WriteFile,
}

/// What is done with an entry of an archive. `enclosed` says that its path stays inside the target.
pub fn extract_step(enclosed: bool, entry_name: &str) -> (r: Extract)
    ensures
        r == (if !enclosed {
            Extract::Skip
        } else if text::has_suffix(entry_name@, "/"@) {
            Extract::MakeDir
        } else {
            Extract::WriteFile
        }),
{
    if !enclosed {
        Extract::Skip
    } else if text::ends_with(entry_name, "/") {
        Extract::MakeDir
    } else {
        Extract::WriteFile
    }
}

/// A program and its arguments.
#[derive(Debug)]
pub struct Call {
    pub program: &'static str,
    pub args: Vec<String>,
}

/// How a process and everything that it started is stopped.
pub fn kill_tree(os: Os, pid: u32) -> (r: Call)
    ensures
        os == Os::Windows ==> r.program@ == "taskkill"@ && text::texts(r.args@) == seq![
            "/T"@,
            "/F"@,
            "/PID"@,
            text::decimal(pid as nat),
        ],
        os != Os::Windows ==> r.program@ == "kill"@ && text::texts(r.args@) == seq![
            "-TERM"@,
            "-"@ + text::decimal(pid as nat),
        ],
{
    let number = text::decimal_text(pid as u64);
    let mut args: Vec<String> = Vec::new();
    if os == Os::Windows {
        args.push("/T".to_owned());
        args.push("/F".to_owned());
        args.push("/PID".to_owned());
        args.push(number);
        assert(text::texts(args@) =~= seq!["/T"@, "/F"@, "/PID"@, text::decimal(pid as nat)]);
        Call { program: "taskkill", args }
    } else {
        let mut group = "-".to_owned();
        group.append(number.as_str());
        args.push("-TERM".to_owned());
        args.push(group);
        assert(text::texts(args@) =~= seq!["-TERM"@, "-"@ + text::decimal(pid as nat)]);
        Call { program: "kill", args }
    }
}

/// What is reported where a process could not be stopped.
pub fn kill_failed(os: Os, pid: u32) -> (r: String)
    ensures
        r@ == (if os == Os::Windows {
            "taskkill"@
        } else {
            "kill"@
        }) + " failed for pid "@ + text::decimal(pid as nat),
{
    let mut r = if os == Os::Windows {
        "taskkill".to_owned()
    } else {
        "kill".to_owned()
    };
    r.append(" failed for pid ");
    r.append(text::decimal_text(pid as u64).as_str());
    r
}

/// How a process is asked after.
pub fn alive_query(os: Os, pid: u32) -> (r: Call)
    ensures
        os == Os::Windows ==> r.program@ == "tasklist"@ && text::texts(r.args@) == seq![
            "/FI"@,
            "PID eq "@ + text::decimal(pid as nat),
            "/NH"@,
        ],
        os != Os::Windows ==> r.program@ == "kill"@ && text::texts(r.args@) == seq![
            "-0"@,
            text::decimal(pid as nat),
        ],
{
    let number = text::decimal_text(pid as u64);
    let mut args: Vec<String> = Vec::new();
    if os == Os::Windows {
        let mut filter = "PID eq ".to_owned();
        filter.append(number.as_str());
        args.push("/FI".to_owned());
        args.push(filter);
        args.push("/NH".to_owned());
        assert(text::texts(args@) =~= seq!["/FI"@, "PID eq "@ + text::decimal(pid as nat), "/NH"@]);
        Call { program: "tasklist", args }
    } else {
        args.push("-0".to_owned());
        args.push(number);
        assert(text::texts(args@) =~= seq!["-0"@, text::decimal(pid as nat)]);
        Call { program: "kill", args }
    }
}

/// Whether a process still runs, by what the query came to: Windows lists it, and elsewhere the
/// query succeeds.
pub fn is_alive(os: Os, pid: u32, success: bool, stdout: &str) -> (r: bool)
    ensures
        r == if os == Os::Windows {
            text::occurs_in(stdout@, text::decimal(pid as nat))
        } else {
            success
        },
{
    if os == Os::Windows {
        text::contains(stdout, text::decimal_text(pid as u64).as_str())
    } else {
        success
    }
}

} // verus!
