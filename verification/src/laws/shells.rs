//! Laws on shells: the hook, the prompt, environment files, and what pinned tools are fetched from.

use crate::commands::shell_integration as lines;
use crate::commands::shell_integration::LoadedEnv;
use crate::laws::strings;
use crate::platform;
use crate::platform::{InstallText, Os};
use crate::shell;
use crate::shell::Rgb;
use crate::text;
use vstd::prelude::*;

verus! {

/// A process is the shell that its name says, with or without `.exe`; any other is taken for
/// PowerShell's newer form.
pub proof fn shells_go_by_their_name(lower: Seq<char>)
    ensures
        shell::shell_called(lower) == "cmd"@ <==> lower == "cmd"@ || lower == "cmd.exe"@,
        shell::shell_called(lower) == "powershell"@ <==> lower == "powershell"@ || lower
            == "powershell.exe"@,
        shell::shell_called(lower) == "cmd"@ || shell::shell_called(lower) == "powershell"@
            || shell::shell_called(lower) == "pwsh"@,
{
    reveal_strlit("cmd");
    reveal_strlit("powershell");
    reveal_strlit("pwsh");
    reveal_strlit(".exe");
    reveal_strlit("cmd.exe");
    reveal_strlit("powershell.exe");
    assert("cmd"@.len() == 3 && "powershell"@.len() == 10 && "pwsh"@.len() == 4 && ".exe"@.len()
        == 4);
    assert("cmd.exe"@ =~= "cmd"@ + ".exe"@);
    assert("powershell.exe"@ =~= "powershell"@ + ".exe"@);
    strings::suffixes_are_endings("cmd"@, ".exe"@, lower);
    strings::suffixes_are_endings("powershell"@, ".exe"@, lower);
    strings::suffixes_are_endings("cmd"@, ".exe"@, "cmd"@);
    strings::suffixes_are_endings("powershell"@, ".exe"@, "powershell"@);
    assert("powershell"@[6] == 'h' && ".exe"@[0] == '.');
    if text::has_suffix(lower, ".exe"@) {
        let bare = lower.take(lower.len() - 4);
        assert(lower =~= bare + ".exe"@);
    }
}

/// There is a hook for both PowerShells and for cmd, and for nothing else; PowerShell's shows the
/// mark in the colour that was asked for.
pub proof fn hooks_are_for_known_shells(name: Seq<char>, accent: Rgb)
    ensures
        shell::script(name, accent) is Some <==> name == "pwsh"@ || name == "powershell"@ || name
            == "cmd"@,
        name == "pwsh"@ || name == "powershell"@ ==> (shell::script(name, accent) matches Some(s)
            && text::occurs_in(s, shell::rgb_text(accent))),
        shell::script("pwsh"@, accent) == shell::script("powershell"@, accent),
        shell::rgb_text(accent) == text::decimal(accent.red as nat) + ";"@ + text::decimal(
            accent.green as nat,
        ) + ";"@ + text::decimal(accent.blue as nat),
{
    strings::occurrences_have_a_before_and_a_behind(
        shell::PWSH_HOOK_START@,
        shell::rgb_text(accent),
        shell::PWSH_HOOK_END@,
        shell::PWSH_HOOK_START@ + shell::rgb_text(accent) + shell::PWSH_HOOK_END@,
    );
}

/// The hook is added to a profile exactly where its mark is not in it, on a line of its own that
/// calls the hook of that very shell and carries the mark.
pub proof fn hooks_are_added_where_they_are_not(name: Seq<char>, existing: Seq<char>)
    ensures
        shell::profile_addition(name, existing) is None <==> text::occurs_in(
            existing,
            "# stack shell hook"@,
        ),
        shell::profile_addition(name, existing) matches Some(added) ==> {
            &&& text::occurs_in(added, "stack hook "@ + name)
            &&& text::occurs_in(added, "# stack shell hook"@)
            &&& added[0] == '\n' && added.last() == '\n'
        },
{
    if !text::occurs_in(existing, "# stack shell hook"@) {
        reveal_strlit("\n");
        reveal_strlit("Invoke-Expression (& stack hook ");
        reveal_strlit("Invoke-Expression (& ");
        reveal_strlit("stack hook ");
        let added = shell::profile_addition(name, existing)->0;
        let a = "\n"@ + "Invoke-Expression (& "@;
        let b = " | Out-String)  "@;
        let mark = "# stack shell hook"@;
        assert("Invoke-Expression (& stack hook "@ =~= "Invoke-Expression (& "@ + "stack hook "@);
        let call = "stack hook "@ + name;
        assert(added =~= a + call + (b + mark + "\n"@));
        strings::occurrences_have_a_before_and_a_behind(a, call, b + mark + "\n"@, added);
        assert(added =~= (a + call + b) + mark + "\n"@);
        strings::occurrences_have_a_before_and_a_behind(a + call + b, mark, "\n"@, added);
    }
}

/// Both PowerShells count as PowerShell, and nothing else does.
pub proof fn powershells_are_two(name: Seq<char>)
    ensures
        shell::is_pwsh(name) <==> seq!["pwsh"@, "powershell"@].contains(name),
{
    let both = seq!["pwsh"@, "powershell"@];
    assert(both[0] == "pwsh"@ && both[1] == "powershell"@);
}

/// The prompt of cmd is marked once, in front of what it was, whether or not it was marked before;
/// PowerShell is told that stack is active.
pub proof fn the_prompt_is_marked_once(accent: Rgb, prompt: Seq<char>)
    ensures
        !text::has_prefix(prompt, lines::prompt_mark(accent)) ==> lines::indicator(
            "cmd"@,
            accent,
            Some(prompt),
        ) == Some("SET PROMPT="@ + lines::prompt_mark(accent) + prompt),
        lines::indicator("cmd"@, accent, Some(lines::prompt_mark(accent) + prompt)) == Some(
            "SET PROMPT="@ + lines::prompt_mark(accent) + prompt,
        ),
        lines::indicator("pwsh"@, accent, Some(prompt)) == Some("$global:__StackActive = $true"@),
        lines::indicator("powershell"@, accent, Some(prompt)) == Some(
            "$global:__StackActive = $true"@,
        ),
        text::occurs_in(lines::prompt_mark(accent), shell::rgb_text(accent)),
        forall|name: Seq<char>|
            name != "cmd"@ && name != "pwsh"@ && name != "powershell"@ ==> #[trigger] lines::indicator(
                name,
                accent,
                Some(prompt),
            ) is None,
{
    reveal_strlit("cmd");
    reveal_strlit("pwsh");
    reveal_strlit("powershell");
    assert("cmd"@.len() == 3 && "pwsh"@.len() == 4 && "powershell"@.len() == 10);
    let mark = lines::prompt_mark(accent);
    strings::prefixes_are_beginnings(mark, prompt, prompt);
    let a = "\x1b[38;2;"@;
    let b = "m[stack]\x1b[0m "@;
    strings::occurrences_have_a_before_and_a_behind(a, shell::rgb_text(accent), b, mark);
}

/// Escaping goes character by character: a backtick comes before each backtick, dollar sign and
/// quotation mark, and nothing else changes.
pub proof fn escaping_marks_just_the_telling_characters(a: Seq<char>, c: char, b: Seq<char>)
    ensures
        c == '`' || c == '$' || c == '"' ==> lines::escaped(a + seq![c] + b) == lines::escaped(a)
            + seq!['`', c] + lines::escaped(b),
        c != '`' && c != '$' && c != '"' ==> lines::escaped(a + seq![c] + b) == lines::escaped(a)
            + seq![c] + lines::escaped(b),
        lines::escaped(Seq::empty()) == Seq::<char>::empty(),
    decreases a.len(),
{
    let s = a + seq![c] + b;
    if a.len() == 0 {
        assert(s.skip(1) =~= b);
        assert(lines::escaped(a) =~= Seq::empty());
        assert(lines::escaped(a) + lines::escaped_char(c) + lines::escaped(b)
            =~= lines::escaped_char(c) + lines::escaped(b));
    } else {
        let t = a.skip(1);
        assert(s.skip(1) =~= t + seq![c] + b);
        escaping_marks_just_the_telling_characters(t, c, b);
        let first = lines::escaped_char(a[0]);
        let middle = lines::escaped_char(c);
        assert(first + (lines::escaped(t) + middle + lines::escaped(b)) =~= first + lines::escaped(
            t,
        ) + middle + lines::escaped(b));
    }
}

/// A line sets the variable that the file declares to its value, escaped.
pub proof fn lines_set_the_declared_variable(key: Seq<char>, value: Seq<char>)
    ensures
        lines::env_line(key, value) == "$env:"@ + key + " = \""@ + lines::escaped(value) + "\""@,
        lines::unescaped(lines::escaped(value)) == value,
{
    lines::escaping_is_undone_by_reading(value);
}

/// A file without a faulty declaration is loaded whole: a line for each variable, in order, and a
/// summary that names them all. A faulty one ends it: the lines before it stand, and why is told.
pub proof fn files_are_loaded_up_to_the_first_fault(
    path: Seq<char>,
    items: Seq<Result<(String, String), String>>,
    r: LoadedEnv,
    k: int,
)
    requires
        lines::is_loaded(path, items, r),
        0 <= k <= items.len(),
        forall|i: int| 0 <= i < k ==> #[trigger] items[i] is Ok,
        k < items.len() ==> items[k] is Err,
    ensures
        r.lines@.len() == k,
        forall|i: int|
            0 <= i < k ==> (#[trigger] r.lines@[i])@ == lines::env_line(
                items[i]->Ok_0.0@,
                items[i]->Ok_0.1@,
            ),
        k == items.len() ==> r.end is Ok,
        k < items.len() ==> (r.end matches Err(e) && text::has_suffix(e@, items[k]->Err_0@)
            && text::occurs_in(e@, path)),
        k == items.len() ==> forall|i: int|
            0 <= i < k ==> text::occurs_in(r.end->Ok_0@, (#[trigger] items[i])->Ok_0.0@),
{
    let n = r.lines@.len() as int;
    if n < k {
        assert(items[n] is Ok);
    }
    if n > k {
        assert(items[k] is Ok);
    }
    if k < items.len() {
        let why = items[k]->Err_0@;
        let e = "failed to parse "@ + path + ": "@ + why;
        strings::suffixes_are_endings("failed to parse "@ + path + ": "@, why, e);
        assert(e =~= "failed to parse "@ + path + (": "@ + why));
        strings::occurrences_have_a_before_and_a_behind("failed to parse "@, path, ": "@ + why, e);
    } else {
        let names = lines::env_names(items);
        assert forall|i: int| 0 <= i < k implies text::occurs_in(
            r.end->Ok_0@,
            (#[trigger] items[i])->Ok_0.0@,
        ) by {
            let name = items[i]->Ok_0.0@;
            assert(names[i] == name);
            strings::joined_texts_hold_their_parts(names, ", "@, i);
            let list = text::joined(names, ", "@);
            strings::occurrences_have_a_before_and_a_behind(
                Seq::empty(),
                name,
                Seq::empty(),
                list,
            );
            let m = choose|m: int|
                0 <= m <= list.len() - name.len() && list == #[trigger] list.take(m) + name
                    + list.skip(m + name.len());
            let head = "loaded: "@;
            assert(head + list =~= (head + list.take(m)) + name + list.skip(m + name.len()));
            strings::occurrences_have_a_before_and_a_behind(
                head + list.take(m),
                name,
                list.skip(m + name.len()),
                head + list,
            );
        }
    }
}

/// A file that declares nothing is said to.
pub proof fn empty_files_are_said_to_be(path: Seq<char>)
    ensures
        text::occurs_in(lines::env_summary(path, Seq::empty()), path),
        lines::env_summary(path, Seq::empty()) == "loaded: (no variables found in "@ + path + ")"@,
{
    strings::occurrences_have_a_before_and_a_behind(
        "loaded: (no variables found in "@,
        path,
        ")"@,
        lines::env_summary(path, Seq::empty()),
    );
}

/// A quoted path has each of its apostrophes twice, and else is as it was.
pub proof fn apostrophes_are_doubled(a: Seq<char>, b: Seq<char>)
    requires
        !a.contains('\''),
    ensures
        lines::single_quoted(a) == a,
        lines::single_quoted(a + seq!['\''] + b) == a + seq!['\'', '\''] + lines::single_quoted(b),
{
    reveal_strlit("'");
    reveal_strlit("''");
    let p = "'"@;
    let w = "''"@;
    assert(p =~= seq!['\'']);
    assert(w =~= seq!['\'', '\'']);
    assert forall|i: int| 0 <= i <= a.len() - p.len() implies #[trigger] a.subrange(i, i + p.len())
        != p by {
        assert(a.contains(a[i]));
        assert(a.subrange(i, i + p.len())[0] == a[i]);
    }
    strings::replacing_what_is_not_there(a, p, w);
    let s = a + seq!['\''] + b;
    let n = a.len() as int;
    assert(s.subrange(n, n + p.len()) =~= p);
    assert forall|j: int| 0 <= j < n implies #[trigger] s.subrange(j, j + p.len()) != p by {
        assert(a.contains(a[j]));
        assert(s.subrange(j, j + p.len())[0] == a[j]);
    }
    strings::replacing_the_first_and_the_rest(s, p, w, n);
    assert(s.take(n) =~= a);
    assert(s.skip(n + p.len()) =~= b);
}

/// On Windows the three pinned tools are fetched, each from its own address, in the version that
/// was asked for; nothing else is, and nothing is on another system.
pub proof fn pinned_tools_are_fetched_in_their_version(tool: Seq<char>, version: Seq<char>)
    ensures
        platform::windows_install(tool, version) is Some <==> tool == "vfox"@ || tool == "uv"@ || tool
            == "caddy"@,
        platform::windows_install("vfox"@, version) matches Some(
            InstallText::Installer { url, name },
        ) && name == "vfox"@ && text::occurs_in(url, version) && text::has_suffix(url, ".exe"@),
        platform::windows_install("uv"@, version) matches Some(
            InstallText::Archive { url, name, version: v },
        ) && name == "uv"@ && v == version && text::occurs_in(url, version) && text::has_suffix(
            url,
            ".zip"@,
        ),
        platform::windows_install("caddy"@, version) matches Some(
            InstallText::Archive { url, name, version: v },
        ) && name == "caddy"@ && v == version && text::occurs_in(url, version)
            && text::has_suffix(url, ".zip"@),
        text::occurs_in(platform::no_install_text(Os::Windows, tool, version), tool),
        text::occurs_in(platform::no_install_text(Os::Macos, tool, version), tool),
        text::occurs_in(platform::no_install_text(Os::Linux, tool, version), tool),
        text::occurs_in(platform::no_install_text(Os::OtherUnix, tool, version), tool),
{
    reveal_strlit("vfox");
    reveal_strlit("uv");
    reveal_strlit("caddy");
    assert("vfox"@.len() == 4 && "uv"@.len() == 2 && "caddy"@.len() == 5);
    reveal_strlit(".exe");
    reveal_strlit(".zip");
    reveal_strlit("_windows_setup_x86_64.exe");
    reveal_strlit("/uv-x86_64-pc-windows-msvc.zip");
    reveal_strlit("_windows_amd64.zip");
    let a = "https://github.com/version-fox/vfox/releases/download/v"@;
    let vfox = a + version + "/vfox_"@ + version + "_windows_setup_x86_64.exe"@;
    strings::occurrences_have_a_before_and_a_behind(
        a + version + "/vfox_"@,
        version,
        "_windows_setup_x86_64.exe"@,
        vfox,
    );
    assert(vfox.skip(vfox.len() - 4) =~= ".exe"@);
    let b = "https://github.com/astral-sh/uv/releases/download/"@;
    let uv = b + version + "/uv-x86_64-pc-windows-msvc.zip"@;
    strings::occurrences_have_a_before_and_a_behind(
        b,
        version,
        "/uv-x86_64-pc-windows-msvc.zip"@,
        uv,
    );
    assert(uv.skip(uv.len() - 4) =~= ".zip"@);
    let c = "https://github.com/caddyserver/caddy/releases/download/v"@;
    let caddy = c + version + "/caddy_"@ + version + "_windows_amd64.zip"@;
    strings::occurrences_have_a_before_and_a_behind(
        c + version + "/caddy_"@,
        version,
        "_windows_amd64.zip"@,
        caddy,
    );
    assert(caddy.skip(caddy.len() - 4) =~= ".zip"@);
    let w = platform::no_install_text(Os::Windows, tool, version);
    strings::occurrences_have_a_before_and_a_behind(
        "no install_pinned strategy known for '"@,
        tool,
        "' on Windows"@,
        w,
    );
    let m = ", "@ + version + ") not yet implemented — see PLAN.md step 25"@;
    assert(platform::no_install_text(Os::Macos, tool, version) =~= "install_pinned("@ + tool + m);
    strings::occurrences_have_a_before_and_a_behind("install_pinned("@, tool, m, w);
    let l = ", "@ + version + ") not yet implemented"@;
    assert(platform::no_install_text(Os::Linux, tool, version) =~= "install_pinned("@ + tool + l);
    strings::occurrences_have_a_before_and_a_behind("install_pinned("@, tool, l, w);
    let u = " "@ + version + ")"@;
    let head = "no install_pinned implementation for this Unix target ("@;
    assert(platform::no_install_text(Os::OtherUnix, tool, version) =~= head + tool + u);
    strings::occurrences_have_a_before_and_a_behind(head, tool, u, w);
}

} // verus!
