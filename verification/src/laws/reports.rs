//! Laws on what is reported: a report names what it is about.

use crate::commands::lifecycle::{ActionText, StaleText};
use crate::commands::profile::{ArgsFault, NameError};
use crate::commands::services::ServiceFault;
use crate::commands::shared::ToolFault;
use crate::commands::startup;
use crate::laws::strings;
use crate::manifest::PortFault;
use crate::manifest_edit::EditFault;
use crate::output::LineText;
use crate::text;
use crate::text::NumberFault;
use crate::toolchain;
use crate::toolchain::{SourceFault, Wanted};
use vstd::prelude::*;

verus! {

/// What stands in a text stands in each longer one.
proof fn still_stands(before: Seq<char>, s: Seq<char>, behind: Seq<char>, x: Seq<char>)
    requires
        text::occurs_in(s, x),
    ensures
        text::occurs_in(before + s + behind, x),
{
    strings::occurrences_have_a_before_and_a_behind(before, x, behind, s);
    let k = choose|k: int|
        0 <= k <= s.len() - x.len() && s == #[trigger] s.take(k) + x + s.skip(k + x.len());
    let a = before + s.take(k);
    let b = s.skip(k + x.len()) + behind;
    assert(before + s + behind =~= a + x + b);
    strings::occurrences_have_a_before_and_a_behind(a, x, b, s);
}

/// A fault in a port names every missing value, or the template, what it came to and why that is no
/// port.
pub proof fn port_faults_say_what_is_wrong(
    names: Seq<Seq<char>>,
    template: Seq<char>,
    resolved: Seq<char>,
    fault: NumberFault,
    i: int,
)
    ensures
        0 <= i < names.len() ==> text::occurs_in((PortFault::Missing(names)).full_report(), names[i]),
        ({
            let s = (PortFault::NotAPort { template, resolved, fault }).full_report();
            &&& text::occurs_in(s, template)
            &&& text::occurs_in(s, resolved)
            &&& text::has_suffix(s, fault.spec_message())
        }),
{
    if 0 <= i < names.len() {
        let list = text::joined(names, ", "@);
        strings::joined_texts_hold_their_parts(names, ", "@, i);
        let head = "missing required value(s): "@;
        still_stands(head, list, Seq::empty(), names[i]);
        assert(head + list + Seq::empty() =~= head + list);
    }
    let a = "'"@;
    let b = "' resolved to '"@;
    let c = "', which isn't a valid port number"@;
    let why = ": "@ + fault.spec_message();
    let s = (PortFault::NotAPort { template, resolved, fault }).full_report();
    assert(s =~= a + template + (b + resolved + c + why));
    strings::occurrences_have_a_before_and_a_behind(a, template, b + resolved + c + why, s);
    assert(s =~= (a + template + b) + resolved + (c + why));
    strings::occurrences_have_a_before_and_a_behind(a + template + b, resolved, c + why, s);
    let front = a + template + b + resolved + c + ": "@;
    assert(s =~= front + fault.spec_message());
    strings::suffixes_are_endings(front, fault.spec_message(), s);
}

/// A fault in a service names the engine, and the port that nobody, or somebody else, listens on.
pub proof fn service_faults_name_the_engine_and_the_port(
    engine: Seq<char>,
    version: Seq<char>,
    port: u16,
    names: Seq<Seq<char>>,
    i: int,
)
    ensures
        ({
            let s = (ServiceFault::NotListening(port)).report(engine, version);
            text::occurs_in(s, engine) && text::has_suffix(s, text::decimal(port as nat))
        }),
        ({
            let s = (ServiceFault::PortTaken(port)).report(engine, version);
            text::occurs_in(s, engine) && text::has_prefix(
                s,
                "port "@ + text::decimal(port as nat),
            )
        }),
        ({
            let s = (ServiceFault::NoPath).report(engine, version);
            text::occurs_in(s, engine + "@"@ + version) && text::occurs_in(
                s,
                "stack register service "@ + engine + " "@ + version,
            )
        }),
        ({
            let s = (ServiceFault::NoExternalPort).report(engine, version);
            text::occurs_in(s, engine)
        }),
        text::occurs_in((ServiceFault::PortRequired).report(engine, version), engine),
        text::occurs_in((ServiceFault::CommandRequired).report(engine, version), engine),
        text::occurs_in((ServiceFault::ExternalStarted).report(engine, version), engine),
        0 <= i < names.len() ==> text::occurs_in(
            (ServiceFault::Missing(names)).report(engine, version),
            names[i],
        ),
{
    let n = text::decimal(port as nat);
    let a = "[service."@;
    let s = (ServiceFault::NotListening(port)).report(engine, version);
    let t = "] is marked external but nothing is listening on port "@;
    assert(s =~= a + engine + (t + n));
    strings::occurrences_have_a_before_and_a_behind(a, engine, t + n, s);
    strings::suffixes_are_endings(a + engine + t, n, s);
    let s = (ServiceFault::PortTaken(port)).report(engine, version);
    let t = " is already in use by something else — if that's an existing "@;
    let u = " you want to reuse, add `external = true` to [service."@;
    let v = "] instead of starting a new one"@;
    assert(s =~= ("port "@ + n) + (t + engine + u + engine + v));
    strings::prefixes_are_beginnings("port "@ + n, t + engine + u + engine + v, s);
    assert(s =~= ("port "@ + n + t) + engine + (u + engine + v));
    strings::occurrences_have_a_before_and_a_behind(
        "port "@ + n + t,
        engine,
        u + engine + v,
        s,
    );
    let s = (ServiceFault::NoPath).report(engine, version);
    let t = "] has no inline `path` and nothing registered for "@;
    let pin = engine + "@"@ + version;
    let u = " — run `stack register service "@;
    let v = " <path>` first"@;
    reveal_strlit(" — run `stack register service ");
    reveal_strlit(" — run `");
    reveal_strlit("stack register service ");
    assert(u =~= " — run `"@ + "stack register service "@);
    let rest = u + engine + " "@ + version + v;
    assert(s =~= (a + engine + t) + pin + rest);
    strings::occurrences_have_a_before_and_a_behind(a + engine + t, pin, rest, s);
    let call = "stack register service "@ + engine + " "@ + version;
    let front = a + engine + t + pin + " — run `"@;
    assert(s =~= front + call + v);
    strings::occurrences_have_a_before_and_a_behind(front, call, v, s);
    let s = (ServiceFault::NoExternalPort).report(engine, version);
    let t = "external, but no port available — set [service."@;
    let u = "].port, or register one via `stack register service "@;
    let v = " --external --port <port>`"@;
    assert(s =~= t + engine + (u + engine + " "@ + version + v));
    strings::occurrences_have_a_before_and_a_behind(
        t,
        engine,
        u + engine + " "@ + version + v,
        s,
    );
    strings::occurrences_have_a_before_and_a_behind(
        a,
        engine,
        "].port is required (no built-in default for this engine)"@,
        s,
    );
    strings::occurrences_have_a_before_and_a_behind(
        a,
        engine,
        "].command is required (no built-in default for this engine)"@,
        s,
    );
    strings::occurrences_have_a_before_and_a_behind(
        a,
        engine,
        "] can't set path/command when external = true — stack only connects to it, never starts it"@,
        s,
    );
    if 0 <= i < names.len() {
        let list = text::joined(names, ", "@);
        strings::joined_texts_hold_their_parts(names, ", "@, i);
        let head = "missing required value(s): "@;
        still_stands(head, list, Seq::empty(), names[i]);
        assert(head + list + Seq::empty() =~= head + list);
    }
}

/// A fault in a language names it, and the manager that is not known.
pub proof fn source_faults_name_the_language(
    name: Seq<char>,
    version: Seq<char>,
    manager: Seq<char>,
    path: Seq<char>,
    registered: bool,
)
    ensures
        text::occurs_in((SourceFault::NoVersion).report(name, version), name),
        text::occurs_in((SourceFault::NoManager).report(name, version), name + " "@ + version),
        text::occurs_in((SourceFault::UnknownManager(manager)).report(name, version), name),
        text::occurs_in((SourceFault::UnknownManager(manager)).report(name, version), manager),
        text::occurs_in(toolchain::missing_file_report(name, path, registered), name),
        text::has_suffix(toolchain::missing_file_report(name, path, registered), path),
{
    let a = "[language."@;
    let s = (SourceFault::NoVersion).report(name, version);
    strings::occurrences_have_a_before_and_a_behind(
        a,
        name,
        "] needs either `version` or `path`"@,
        s,
    );
    let s = (SourceFault::NoManager).report(name, version);
    let t =
        "] has no known default manager — set `manager` explicitly (supported: vfox, uv), or register a BYO path via `stack register language "@;
    let v = " <path>`"@;
    assert(s =~= (a + name + t) + (name + " "@ + version) + v);
    strings::occurrences_have_a_before_and_a_behind(a + name + t, name + " "@ + version, v, s);
    let s = (SourceFault::UnknownManager(manager)).report(name, version);
    let t = "]: unknown manager '"@;
    let v = "' (supported: vfox, uv)"@;
    assert(s =~= a + name + (t + manager + v));
    strings::occurrences_have_a_before_and_a_behind(a, name, t + manager + v, s);
    strings::occurrences_have_a_before_and_a_behind(a + name + t, manager, v, s);
    let s = toolchain::missing_file_report(name, path, registered);
    let t = if registered {
        "] registered path no longer exists: "@
    } else {
        "].path does not exist: "@
    };
    assert(s =~= a + name + (t + path));
    strings::occurrences_have_a_before_and_a_behind(a, name, t + path, s);
    strings::suffixes_are_endings(a + name + t, path, s);
}

/// A fault in a tool names it, and the path or version that is missing.
pub proof fn tool_faults_name_the_tool(name: Seq<char>, what: Seq<char>)
    ensures
        text::occurs_in((ToolFault::Both).report(name), name),
        text::occurs_in((ToolFault::Neither).report(name), name),
        text::occurs_in((ToolFault::MissingPath(what)).report(name), name),
        text::has_suffix((ToolFault::MissingPath(what)).report(name), what),
        text::occurs_in((ToolFault::RegisteredGone(what)).report(name), name),
        text::has_suffix((ToolFault::RegisteredGone(what)).report(name), what),
        text::occurs_in((ToolFault::NotFetched(what)).report(name), what),
        text::occurs_in((ToolFault::Unknown(what)).report(name), name + " "@ + what),
{
    let a = "[tool."@;
    let s = Seq::<char>::empty();
    strings::occurrences_have_a_before_and_a_behind(
        a,
        name,
        "] can't set both `path` and `version` — pick one (BYO path, or a version stack fetches itself)"@,
        s,
    );
    strings::occurrences_have_a_before_and_a_behind(
        a,
        name,
        "] needs either `path` or `version`"@,
        s,
    );
    let t = "].path does not exist: "@;
    let r = (ToolFault::MissingPath(what)).report(name);
    assert(r =~= a + name + (t + what));
    strings::occurrences_have_a_before_and_a_behind(a, name, t + what, r);
    strings::suffixes_are_endings(a + name + t, what, r);
    let t = "] registered path no longer exists: "@;
    let r = (ToolFault::RegisteredGone(what)).report(name);
    assert(r =~= a + name + (t + what));
    strings::occurrences_have_a_before_and_a_behind(a, name, t + what, r);
    strings::suffixes_are_endings(a + name + t, what, r);
    strings::occurrences_have_a_before_and_a_behind(
        "[tool.composer] "@,
        what,
        " not yet fetched — run `stack doctor --fix` or `stack up`"@,
        s,
    );
    let r = (ToolFault::Unknown(what)).report(name);
    let b = "stack doesn't know how to auto-fetch '"@;
    let c =
        "' — provide `path` for a BYO binary, or register one via `stack register tool "@;
    let d = " <path>`"@;
    assert(r =~= (b + name + c) + (name + " "@ + what) + d);
    strings::occurrences_have_a_before_and_a_behind(b + name + c, name + " "@ + what, d, r);
}

/// A refused edit names what stands in the way.
pub proof fn edit_faults_name_what_is_in_the_way(key: Seq<char>, name: Seq<char>, why: Seq<char>)
    ensures
        text::has_suffix((EditFault::Unparsable(why)).report(), why),
        text::has_prefix((EditFault::NotATable(key)).report(), "["@ + key + "]"@),
        text::occurs_in((EditFault::UnknownKind(key)).report(), key),
        text::occurs_in((EditFault::NoEntry { kind: key, name }).report(), "["@ + key + "."@ + name),
{
    strings::suffixes_are_endings("failed to parse stack.toml: "@, why, why);
    reveal_strlit("]");
    reveal_strlit("] already exists in stack.toml but isn't a table");
    reveal_strlit(" already exists in stack.toml but isn't a table");
    let rest = " already exists in stack.toml but isn't a table"@;
    assert("] already exists in stack.toml but isn't a table"@ =~= "]"@ + rest);
    let r = (EditFault::NotATable(key)).report();
    assert(r =~= ("["@ + key + "]"@) + rest);
    strings::prefixes_are_beginnings("["@ + key + "]"@, rest, r);
    strings::occurrences_have_a_before_and_a_behind(
        "unknown kind '"@,
        key,
        "' — supported: language, service, tool"@,
        why,
    );
    reveal_strlit("no [");
    reveal_strlit("no ");
    reveal_strlit("[");
    assert("no ["@ =~= "no "@ + "["@);
    let r = (EditFault::NoEntry { kind: key, name }).report();
    let tail = "] entry found in stack.toml"@;
    assert(r =~= "no "@ + ("["@ + key + "."@ + name) + tail);
    strings::occurrences_have_a_before_and_a_behind("no "@, "["@ + key + "."@ + name, tail, r);
}

/// A refused profile is named, and so are arguments that are too many.
pub proof fn profile_faults_name_the_profile(name: Seq<char>, args: Seq<Seq<char>>, i: int)
    ensures
        text::occurs_in((NameError::Malformed).report(name), name),
        text::has_prefix((NameError::Reserved).report(name), "'"@ + name + "' is reserved"@),
        0 <= i < args.len() ==> text::occurs_in((ArgsFault::Extra(args)).report(), args[i]),
        forall|why: NameError|
            (#[trigger] (ArgsFault::BadName { name, why }).report()) == why.report(name),
{
    let s = Seq::<char>::empty();
    strings::occurrences_have_a_before_and_a_behind(
        "profile name '"@,
        name,
        "' isn't valid — use letters, digits, '-', '_', or '.' only"@,
        s,
    );
    reveal_strlit("' is reserved for `stack profile ");
    reveal_strlit("' is reserved");
    reveal_strlit(" for `stack profile ");
    assert("' is reserved for `stack profile "@ =~= "' is reserved"@ + " for `stack profile "@);
    let head = "'"@ + name + "' is reserved"@;
    let tail = " for `stack profile "@ + name + " <...>` — pick a different profile name"@;
    let r = (NameError::Reserved).report(name);
    assert(r =~= head + tail);
    strings::prefixes_are_beginnings(head, tail, r);
    if 0 <= i < args.len() {
        let list = text::joined(args, " "@);
        strings::joined_texts_hold_their_parts(args, " "@, i);
        let front = "unexpected extra argument(s) after profile name: "@;
        still_stands(front, list, Seq::empty(), args[i]);
        assert(front + list + Seq::empty() =~= front + list);
    }
}

/// What is dropped is named with its process or its port.
pub proof fn dropped_entries_are_named(name: Seq<char>, pid: u32, port: u16)
    ensures
        text::occurs_in(
            (StaleText::Project { name, pid }).report(),
            "project "@ + name + ", pid "@ + text::decimal(pid as nat),
        ),
        text::occurs_in(
            (StaleText::Service { name, pid }).report(),
            "service "@ + name + ", pid "@ + text::decimal(pid as nat),
        ),
        text::occurs_in(
            (StaleText::ExternalRun { name, port }).report(),
            "external run "@ + name + ", port "@ + text::decimal(port as nat),
        ),
{
    reveal_strlit("  (dropping stale entry: ");
    reveal_strlit("  (dropping stale entry: project ");
    reveal_strlit("  (dropping stale entry: service ");
    reveal_strlit("  (dropping stale entry: external run ");
    reveal_strlit("project ");
    reveal_strlit("service ");
    reveal_strlit("external run ");
    let a = "  (dropping stale entry: "@;
    assert("  (dropping stale entry: project "@ =~= a + "project "@);
    assert("  (dropping stale entry: service "@ =~= a + "service "@);
    assert("  (dropping stale entry: external run "@ =~= a + "external run "@);
    let n = text::decimal(pid as nat);
    let m = text::decimal(port as nat);
    let x = "project "@ + name + ", pid "@ + n;
    let r = (StaleText::Project { name, pid }).report();
    assert(r =~= a + x + " no longer alive)"@);
    strings::occurrences_have_a_before_and_a_behind(a, x, " no longer alive)"@, r);
    let x = "service "@ + name + ", pid "@ + n;
    let r = (StaleText::Service { name, pid }).report();
    assert(r =~= a + x + " no longer alive)"@);
    strings::occurrences_have_a_before_and_a_behind(a, x, " no longer alive)"@, r);
    let x = "external run "@ + name + ", port "@ + m;
    let r = (StaleText::ExternalRun { name, port }).report();
    assert(r =~= a + x + " no longer listening)"@);
    strings::occurrences_have_a_before_and_a_behind(a, x, " no longer listening)"@, r);
}

proof fn numbered(head: Seq<char>, name: Seq<char>, between: Seq<char>, n: Seq<char>)
    ensures
        text::occurs_in(head + name + between + n + ")"@, name + between + n + ")"@),
{
    let none = Seq::<char>::empty();
    let x = name + between + n + ")"@;
    assert(head + name + between + n + ")"@ =~= head + x + none);
    strings::occurrences_have_a_before_and_a_behind(head, x, none, none);
}

/// What was stopped is named with its process, and what was forgotten with its port.
pub proof fn stopped_things_are_named(name: Seq<char>, pid: u32, port: u16, all: bool)
    ensures
        (ActionText::StopProject { name, pid }).report(all, None) matches Some(LineText::Out(l))
            && text::occurs_in(l, name + " (pid "@ + text::decimal(pid as nat) + ")"@),
        (ActionText::StopService { key: name, pid }).report(all, None) matches Some(
            LineText::Out(l),
        ) && text::occurs_in(l, name + " (pid "@ + text::decimal(pid as nat) + ")"@),
        (ActionText::ForgetRun { name, port }).report(all, None) matches Some(LineText::Out(l))
            && text::occurs_in(l, name + " (port "@ + text::decimal(port as nat) + ")"@),
{
    let n = text::decimal(pid as nat);
    let m = text::decimal(port as nat);
    numbered("  stopped project "@, name, " (pid "@, n);
    numbered("stopped "@, name, " (pid "@, n);
    numbered("  stopped service "@, name, " (pid "@, n);
    numbered("  un-registered external run "@, name, " (port "@, m);
    numbered("un-registered external run "@, name, " (port "@, m);
}

/// What is left running is named with whoever runs with it, Caddy is named with its process, and a
/// name that nothing goes by is repeated.
pub proof fn kept_and_unknown_things_are_named(
    name: Seq<char>,
    user: Seq<char>,
    pid: u32,
    all: bool,
)
    ensures
        (ActionText::KeepService { key: name, user }).report(all, None) matches Some(
            LineText::Out(l),
        ) && text::occurs_in(l, name) && text::occurs_in(l, user),
        (ActionText::StopCaddy { pid }).report(all, None) matches Some(LineText::Out(l))
            && text::occurs_in(l, text::decimal(pid as nat)),
        (ActionText::NothingNamed { name }).report(all, None) matches Some(LineText::Alert(l))
            && text::occurs_in(l, name),
{
    let none = Seq::<char>::empty();
    let b = " also in use by '"@;
    let c = "' — leaving it running"@;
    let l = "  "@ + name + b + user + c;
    assert(l =~= "  "@ + name + (b + user + c));
    strings::occurrences_have_a_before_and_a_behind("  "@, name, b + user + c, l);
    strings::occurrences_have_a_before_and_a_behind("  "@ + name + b, user, c, l);
    strings::occurrences_have_a_before_and_a_behind(
        "  stopped caddy (pid "@,
        text::decimal(pid as nat),
        ")"@,
        none,
    );
    strings::occurrences_have_a_before_and_a_behind(
        "stack down: no running project or external run named '"@,
        name,
        "'"@,
        none,
    );
}

/// A missing FastCGI binary is named by where it was looked for, and what an install did not bring
/// by what was wanted.
pub proof fn missing_binaries_are_named(
    exe: Seq<char>,
    php: Seq<char>,
    plugin: String,
    version: String,
)
    ensures
        text::occurs_in(startup::no_php_cgi_report(exe, php), php),
        text::has_prefix(startup::no_php_cgi_report(exe, php), "php-cgi"@ + exe),
        text::has_prefix(
            (Wanted::Vfox { plugin, version }).still_missing(),
            plugin@ + "@"@ + version@,
        ),
        text::occurs_in((Wanted::Python { version }).still_missing(), version@),
{
    let r = startup::no_php_cgi_report(exe, php);
    let b = " not found next to "@;
    let c =
        " — expected in every official PHP build; set [run].command explicitly if this PHP install is non-standard"@;
    assert(r =~= ("php-cgi"@ + exe) + (b + php + c));
    strings::prefixes_are_beginnings("php-cgi"@ + exe, b + php + c, r);
    strings::occurrences_have_a_before_and_a_behind("php-cgi"@ + exe + b, php, c, r);
    let head = plugin@ + "@"@ + version@;
    strings::prefixes_are_beginnings(head, " still not found after install"@, r);
    strings::occurrences_have_a_before_and_a_behind(
        "uv could not resolve python "@,
        version@,
        " after install"@,
        r,
    );
}

} // verus!
