//! The hook that activates a project's environment in the user's shell.

use crate::text;
use vstd::prelude::*;

verus! {

/// What tells the hook's line from the rest of a shell's profile.
pub const HOOK_MARKER: &'static str = "# stack shell hook";

/// The PowerShell hook, up to the red part of the accent colour. It wraps the `prompt` function that
/// is there and calls it at the end, so that a custom prompt keeps working.
pub const PWSH_HOOK_START: &'static str = r#"$global:__StackOriginalPath = $env:PATH
$global:__StackOriginalPrompt = $function:prompt
function prompt {
    $env:PATH = $global:__StackOriginalPath
    Remove-Item Function:\composer -ErrorAction SilentlyContinue
    $global:__StackActive = $false
    $stackOut = & stack activate pwsh
    if ($stackOut) { $stackOut | Out-String | Invoke-Expression }
    $__stackOrigPrompt = if ($global:__StackOriginalPrompt) {
        & $global:__StackOriginalPrompt
    } else {
        "PS $($executionContext.SessionState.Path.CurrentLocation)$('>' * ($nestedPromptLevel + 1)) "
    }
    if ($global:__StackActive) {
        $e = [char]27
        "$e[38;2;"#;

/// The PowerShell hook, behind the blue part of the accent colour.
pub const PWSH_HOOK_END: &'static str = r#"m[stack]$e[0m " + $__stackOrigPrompt
    } else {
        $__stackOrigPrompt
    }
}
function stack {
    if ($args.Count -gt 0 -and $args[0] -eq "load-env") {
        $stackOut = & stack.exe @args
        if ($LASTEXITCODE -eq 0) {
            if ($stackOut) { $stackOut | ForEach-Object { Invoke-Expression $_ } }
        } else {
            $stackOut | ForEach-Object { Write-Error $_ }
        }
    } else {
        & stack.exe @args
    }
}"#;

/// The hook of the Windows command prompt.
pub const CMD_HOOK: &'static str = r#"@echo off
for /f "delims=" %%i in ('"%~dp0stack.exe" activate cmd') do %%i"#;

/// A colour by its red, green and blue parts.
#[derive(Debug, Clone, Copy)]
pub struct Rgb {
    pub red: u8,
    pub green: u8,
    pub blue: u8,
}

/// A colour as it is written in an escape sequence.
pub open spec fn rgb_text(c: Rgb) -> Seq<char> {
    text::decimal(c.red as nat) + ";"@ + text::decimal(c.green as nat) + ";"@ + text::decimal(
        c.blue as nat,
    )
}

/// A colour as it is written in an escape sequence.
pub fn rgb(c: Rgb) -> (r: String)
    ensures
        r@ == rgb_text(c),
{
    let mut r = text::decimal_text(c.red as u64);
    r.append(";");
    r.append(text::decimal_text(c.green as u64).as_str());
    r.append(";");
    r.append(text::decimal_text(c.blue as u64).as_str());
    r
}

/// The shell is PowerShell.
pub open spec fn is_pwsh(shell: Seq<char>) -> bool {
    shell == "pwsh"@ || shell == "powershell"@
}

/// Whether the shell is PowerShell.
pub fn pwsh(shell: &str) -> (r: bool)
    ensures
        r == is_pwsh(shell@),
{
    text::same(shell, "pwsh") || text::same(shell, "powershell")
}

/// Why a shell is not served.
#[derive(Debug)]
pub enum ShellError {
    /// There is no hook for it.
    NoScript(String),
    /// Nobody knows where its profile is.
    NoProfile(String),
    /// Neither PowerShell is on the search path.
    NoPowerShell,
    /// PowerShell does not say where its profile is.
    EmptyProfile,
}

impl ShellError {
    /// What is reported to the user.
    pub fn message(&self) -> (r: String)
        ensures
            r@ == match *self {
                ShellError::NoScript(shell) => "no activation script for shell '"@ + shell@
                    + "' yet"@,
                ShellError::NoProfile(shell) => "no profile-path resolution for shell '"@ + shell@
                    + "' yet"@,
                ShellError::NoPowerShell => "neither pwsh nor powershell found on PATH"@,
                ShellError::EmptyProfile => "PowerShell returned an empty $PROFILE path"@,
            },
    {
        match self {
            ShellError::NoScript(shell) => {
                let mut r = "no activation script for shell '".to_owned();
                r.append(shell.as_str());
                r.append("' yet");
                r
            },
            ShellError::NoProfile(shell) => {
                let mut r = "no profile-path resolution for shell '".to_owned();
                r.append(shell.as_str());
                r.append("' yet");
                r
            },
            ShellError::NoPowerShell => "neither pwsh nor powershell found on PATH".to_owned(),
            ShellError::EmptyProfile => "PowerShell returned an empty $PROFILE path".to_owned(),
        }
    }
}

/// The shell that a process of this name, in small letters, is. One that is not known is taken for
/// PowerShell.
pub open spec fn shell_called(lower: Seq<char>) -> Seq<char> {
    let bare = text::without_suffix(lower, ".exe"@);
    if bare == "cmd"@ {
        "cmd"@
    } else if bare == "powershell"@ {
        "powershell"@
    } else {
        "pwsh"@
    }
}

/// The shell that a process of this name, in small letters, is.
pub fn shell_of_lower(lower: &str) -> (r: &'static str)
    ensures
        r@ == shell_called(lower@),
{
    let bare = text::strip_suffix(lower, ".exe");
    if text::same(bare.as_str(), "cmd") {
        "cmd"
    } else if text::same(bare.as_str(), "powershell") {
        "powershell"
    } else {
        "pwsh"
    }
}

/// The shell that runs a process whose parent has this name; PowerShell where there is none.
pub fn shell_of_parent(name: Option<&str>) -> (r: &'static str)
    ensures
        r@ == match name {
            Some(n) => shell_called(text::lowercased(n@)),
            None => "pwsh"@,
        },
{
    match name {
        Some(n) => shell_of_lower(text::lowercase(n).as_str()),
        None => "pwsh",
    }
}

/// The hook of a shell.
pub open spec fn script(shell: Seq<char>, accent: Rgb) -> Option<Seq<char>> {
    if is_pwsh(shell) {
        Some(PWSH_HOOK_START@ + rgb_text(accent) + PWSH_HOOK_END@)
    } else if shell == "cmd"@ {
        Some(CMD_HOOK@)
    } else {
        None
    }
}

/// The hook of a shell, with the prompt's mark in the accent colour.
pub fn hook_script(shell: &str, accent: Rgb) -> (r: Result<String, ShellError>)
    ensures
        match r {
            Ok(s) => script(shell@, accent) == Some(s@),
            Err(ShellError::NoScript(s)) => script(shell@, accent) is None && s@ == shell@,
            Err(_) => false,
        },
{
    if pwsh(shell) {
        let mut r = PWSH_HOOK_START.to_owned();
        r.append(rgb(accent).as_str());
        r.append(PWSH_HOOK_END);
        Ok(r)
    } else if text::same(shell, "cmd") {
        Ok(CMD_HOOK.to_owned())
    } else {
        Err(ShellError::NoScript(shell.to_owned()))
    }
}

/// Where the profile of a shell is, by what PowerShell says when asked for it: nothing where it
/// cannot be asked.
pub fn profile_path(shell: &str, answer: Option<&str>) -> (r: Result<String, ShellError>)
    ensures
        match r {
            Ok(p) => is_pwsh(shell@) && answer is Some && p@ == text::trimmed(answer->0@)
                && p@.len() > 0,
            Err(ShellError::NoProfile(s)) => !is_pwsh(shell@) && s@ == shell@,
            Err(ShellError::NoPowerShell) => is_pwsh(shell@) && answer is None,
            Err(ShellError::EmptyProfile) => is_pwsh(shell@) && answer is Some && text::trimmed(
                answer->0@,
            ).len() == 0,
            Err(ShellError::NoScript(_)) => false,
        },
{
    if !pwsh(shell) {
        return Err(ShellError::NoProfile(shell.to_owned()));
    }
    match answer {
        None => Err(ShellError::NoPowerShell),
        Some(answer) => {
            let path = text::trim(answer);
            proof {
                reveal_strlit("");
                if path@.len() == 0 {
                    assert(path@ =~= ""@);
                }
            }
            if text::same(path.as_str(), "") {
                Err(ShellError::EmptyProfile)
            } else {
                Ok(path)
            }
        },
    }
}

/// The line that calls the hook.
pub open spec fn hook_call(shell: Seq<char>) -> Seq<char> {
    "Invoke-Expression (& stack hook "@ + shell + " | Out-String)  "@ + HOOK_MARKER@
}

/// The line that calls the hook.
pub fn hook_line(shell: &str) -> (r: String)
    ensures
        r@ == hook_call(shell@),
{
    let mut r = "Invoke-Expression (& stack hook ".to_owned();
    r.append(shell);
    r.append(" | Out-String)  ");
    r.append(HOOK_MARKER);
    r
}

/// What is appended to a shell's profile so that it calls the hook; nothing where it does already.
pub open spec fn profile_addition(shell: Seq<char>, existing: Seq<char>) -> Option<Seq<char>> {
    if text::occurs_in(existing, HOOK_MARKER@) {
        None
    } else {
        Some("\n"@ + hook_call(shell) + "\n"@)
    }
}

/// What is appended to a shell's profile so that it calls the hook; nothing where it does already.
pub fn ensure_hook_installed(shell: &str, existing: &str) -> (r: Option<String>)
    ensures
        text::opt_text(r) == profile_addition(shell@, existing@),
{
    if text::contains(existing, HOOK_MARKER) {
        return None;
    }
    let mut r = "\n".to_owned();
    r.append(hook_line(shell).as_str());
    r.append("\n");
    Some(r)
}

/// The hook is installed once: a profile that it was added to gets nothing more.
pub proof fn hook_is_installed_once(shell: Seq<char>, other: Seq<char>, existing: Seq<char>)
    requires
        profile_addition(shell, existing) is Some,
    ensures
        profile_addition(other, existing + profile_addition(shell, existing)->0) is None,
{
    let line = "Invoke-Expression (& stack hook "@ + shell + " | Out-String)  "@;
    let whole = existing + profile_addition(shell, existing)->0;
    let at: int = existing.len() + "\n"@.len() + line.len() as int;
    assert(whole.subrange(at, at + HOOK_MARKER@.len()) =~= HOOK_MARKER@);
    assert(text::occurs_at(whole, HOOK_MARKER@, at));
}

/// What the hook file of the command prompt is to hold, where it does not hold it yet.
pub fn ensure_cmd_hook_installed(existing: Option<&str>) -> (r: Option<String>)
    ensures
        match r {
            Some(s) => s@ == CMD_HOOK@ && (existing matches Some(e) ==> text::trimmed(e@)
                != text::trimmed(CMD_HOOK@)),
            None => existing matches Some(e) && text::trimmed(e@) == text::trimmed(CMD_HOOK@),
        },
{
    match existing {
        Some(e) => {
            if text::same(text::trim(e).as_str(), text::trim(CMD_HOOK).as_str()) {
                return None;
            }
        },
        None => {},
    }
    Some(CMD_HOOK.to_owned())
}

} // verus!
