//! Laws on finding binaries: where a language or a tool comes from, and what its manager says.

use crate::commands::shared;
use crate::commands::shared::{ToolFault, ToolSourceText};
use crate::laws::strings;
use crate::laws::strings::all_of;
use crate::manifest::{Language, Tool};
use crate::registry::{Installation, Registry};
use crate::text;
use crate::text::Class;
use crate::toolchain;
use crate::toolchain::{AnswerText, Ran, SourceFault, SourceText};
use vstd::prelude::*;

verus! {

/// The fields of a language are those of its table; one that is a version alone has no other.
pub proof fn languages_say_what_is_written(
    simple: String,
    version: Option<String>,
    manager: Option<String>,
    plugin: Option<String>,
    binary: Option<String>,
    path: Option<String>,
    workers: Option<u32>,
)
    ensures
        ({
            let s = Language::Simple(simple);
            &&& s.version_text() == Some(simple@)
            &&& s.manager_text() is None && s.plugin_text() is None && s.binary_text() is None
            &&& s.path_text() is None && s.worker_count() is None
        }),
        ({
            let d = Language::Detailed { version, manager, plugin, binary, path, workers };
            &&& d.version_text() == text::opt_text(version)
            &&& d.manager_text() == text::opt_text(manager)
            &&& d.plugin_text() == text::opt_text(plugin)
            &&& d.binary_text() == text::opt_text(binary)
            &&& d.path_text() == text::opt_text(path)
            &&& d.worker_count() == workers
        }),
        forall|o: Option<String>| #[trigger] text::opt_text(o) is Some == o is Some,
        forall|o: Option<String>| o is Some ==> #[trigger] text::opt_text(o) == Some(o->0@),
{
}

/// A language with a path of its own is that path, whatever else it says. Without one it needs a
/// version.
pub proof fn own_paths_come_before_versions(
    name: Seq<char>,
    entry: Language,
    registry: Registry,
    exe: Seq<char>,
    path: Seq<char>,
)
    ensures
        entry.path_text() == Some(path) ==> toolchain::source_of(name, entry, registry, exe)
            == Ok::<_, SourceFault>(SourceText::OwnPath(path)),
        entry.path_text() is None && entry.version_text() is None ==> toolchain::source_of(
            name,
            entry,
            registry,
            exe,
        ) == Err::<SourceText, _>(SourceFault::NoVersion),
{
}

/// A pinned language without a path comes from the manager that it names: vfox or uv, and no other
/// is known. vfox is asked for the plugin and the binary that the entry names, or for those of the
/// language.
pub proof fn named_managers_are_asked(
    name: Seq<char>,
    entry: Language,
    registry: Registry,
    exe: Seq<char>,
    version: Seq<char>,
    manager: Seq<char>,
)
    requires
        entry.path_text() is None,
        entry.version_text() == Some(version),
        entry.manager_text() == Some(manager),
    ensures
        ({
            let source = toolchain::source_of(name, entry, registry, exe);
            &&& manager == "vfox"@ ==> {
                &&& source matches Ok(SourceText::Vfox { plugin, version: v, binary })
                &&& v == version
                &&& entry.plugin_text() matches Some(p) ==> plugin == p
                &&& entry.plugin_text() is None && name == "node"@ ==> plugin == "nodejs"@
                &&& entry.plugin_text() is None && name != "node"@ ==> plugin == name
                &&& entry.binary_text() matches Some(b) ==> binary == b
                &&& entry.binary_text() is None ==> binary == name + exe
            }
            &&& manager == "uv"@ ==> source == Ok::<_, SourceFault>(SourceText::Uv { version })
            &&& manager != "vfox"@ && manager != "uv"@ ==> source == Err::<SourceText, _>(
                SourceFault::UnknownManager(manager),
            )
        }),
{
    reveal_strlit("vfox");
    reveal_strlit("uv");
    assert("vfox"@.len() != "uv"@.len());
}

/// Without a manager of its own, PHP and Node come from vfox, Python comes from uv, and any other
/// language comes from where it is registered, if it is.
pub proof fn usual_managers_are_asked(
    name: Seq<char>,
    entry: Language,
    registry: Registry,
    exe: Seq<char>,
    version: Seq<char>,
    found: Installation,
)
    requires
        entry.path_text() is None,
        entry.version_text() == Some(version),
        entry.manager_text() is None,
    ensures
        ({
            let source = toolchain::source_of(name, entry, registry, exe);
            &&& name == "php"@ || name == "node"@ ==> (source matches Ok(
                SourceText::Vfox { version: v, .. },
            ) && v == version)
            &&& name == "php"@ && entry.plugin_text() is None ==> (source matches Ok(
                SourceText::Vfox { plugin, .. },
            ) && plugin == "php"@)
            &&& name == "node"@ && entry.plugin_text() is None ==> (source matches Ok(
                SourceText::Vfox { plugin, .. },
            ) && plugin == "nodejs"@)
            &&& name == "python"@ ==> source == Ok::<_, SourceFault>(SourceText::Uv { version })
            &&& name != "php"@ && name != "node"@ && name != "python"@ ==> {
                &&& registry.entry("language"@, name, version) == Some(found) && found.path
                    is Some ==> source == Ok::<_, SourceFault>(
                    SourceText::Registered(found.path->0),
                )
                &&& registry.entry("language"@, name, version) is None ==> source == Err::<
                    SourceText,
                    _,
                >(SourceFault::NoManager)
            }
        }),
{
    reveal_strlit("php");
    reveal_strlit("node");
    reveal_strlit("python");
    reveal_strlit("vfox");
    reveal_strlit("uv");
    assert("php"@.len() == 3 && "node"@.len() == 4 && "python"@.len() == 6);
    assert("vfox"@.len() != "uv"@.len());
}

/// What vfox prints, without the white space around it, is the directory, unless that is nothing or
/// `notfound`. Where it fails, or does not run, why is told.
pub proof fn vfox_is_taken_at_its_word(
    plugin: Seq<char>,
    version: Seq<char>,
    stdout: String,
    stderr: String,
    before: Seq<char>,
    printed: Seq<char>,
    after: Seq<char>,
)
    requires
        all_of(before, Class::White),
        all_of(after, Class::White),
        printed.len() > 0 ==> !Class::White.has(printed[0]) && !Class::White.has(printed.last()),
    ensures
        stdout@ == before + printed + after ==> {
            let ran = Ran::Ended { success: true, stdout, stderr };
            toolchain::vfox_says(plugin, version, ran) == if printed.len() == 0 || printed
                == "notfound"@ {
                AnswerText::NotInstalled
            } else {
                AnswerText::At(printed)
            }
        },
        stderr@ == before + printed + after ==> {
            let ran = Ran::Ended { success: false, stdout, stderr };
            &&& toolchain::vfox_says(plugin, version, ran) matches AnswerText::NotRunnable(why)
            &&& text::has_suffix(why, printed)
            &&& text::occurs_in(why, plugin + "@"@ + version)
        },
        toolchain::vfox_says(plugin, version, Ran::NotFound) is NotRunnable,
        toolchain::vfox_says(plugin, version, Ran::Failed(stderr)) matches AnswerText::NotRunnable(
            why,
        ) && text::has_suffix(why, stderr@),
{
    strings::trimming_gives_the_text_within(before, printed, after);
    let head = "vfox info "@ + plugin + "@"@ + version + " failed: "@;
    strings::suffixes_are_endings(head, printed, head + printed);
    let why = head + printed;
    strings::occurrences_have_a_before_and_a_behind(
        "vfox info "@,
        plugin + "@"@ + version,
        " failed: "@ + printed,
        why,
    );
    assert("vfox info "@ + (plugin + "@"@ + version) + (" failed: "@ + printed) =~= why);
    strings::suffixes_are_endings("failed to run vfox: "@, stderr@, stderr@);
}

/// What uv prints, without the white space around it, is the binary; nothing, or a failure, means
/// that it is not installed.
pub proof fn uv_is_taken_at_its_word(
    stdout: String,
    stderr: String,
    before: Seq<char>,
    printed: Seq<char>,
    after: Seq<char>,
)
    requires
        all_of(before, Class::White),
        all_of(after, Class::White),
        printed.len() > 0 ==> !Class::White.has(printed[0]) && !Class::White.has(printed.last()),
        stdout@ == before + printed + after,
    ensures
        toolchain::uv_says(Ran::Ended { success: true, stdout, stderr }) == if printed.len() == 0 {
            AnswerText::NotInstalled
        } else {
            AnswerText::At(printed)
        },
        toolchain::uv_says(Ran::Ended { success: false, stdout, stderr })
            == AnswerText::NotInstalled,
        toolchain::uv_says(Ran::NotFound) is NotRunnable,
        toolchain::uv_says(Ran::Failed(stderr)) is NotRunnable,
{
    strings::trimming_gives_the_text_within(before, printed, after);
}

/// A tool has a path or a version, not both and not neither. One with a path is that path. Composer
/// with a version is the archive that stack keeps for that version below the home directory; any
/// other tool with a version comes from where it is registered.
pub proof fn tools_have_a_path_or_a_version(
    name: Seq<char>,
    tool: Tool,
    registry: Registry,
    home: Option<Seq<char>>,
    found: Installation,
)
    ensures
        ({
            let source = shared::tool_source(name, tool, registry, home);
            &&& tool.path is Some && tool.version is Some ==> source == Err::<ToolSourceText, _>(
                ToolFault::Both,
            )
            &&& tool.path is None && tool.version is None ==> source == Err::<ToolSourceText, _>(
                ToolFault::Neither,
            )
            &&& tool.path is Some && tool.version is None ==> source == Ok::<_, ToolFault>(
                ToolSourceText::OwnPath(tool.path->0@),
            )
            &&& tool.path is None && tool.version is Some && name == "composer"@ ==> {
                &&& home is None ==> source == Err::<ToolSourceText, _>(ToolFault::NoHome)
                &&& home is Some ==> {
                    &&& source matches Ok(ToolSourceText::Composer { version, phar })
                    &&& version == tool.version->0@
                    &&& phar.base == home->0
                    &&& phar.segments == seq![
                        ".stack"@,
                        "tools"@,
                        "composer"@,
                        tool.version->0@,
                        "composer.phar"@,
                    ]
                }
            }
            &&& tool.path is None && tool.version is Some && name != "composer"@ ==> {
                &&& registry.entry("tool"@, name, tool.version->0@) == Some(found) && found.path
                    is Some ==> source == Ok::<_, ToolFault>(
                    ToolSourceText::Registered(found.path->0),
                )
                &&& registry.entry("tool"@, name, tool.version->0@) is None ==> source == Err::<
                    ToolSourceText,
                    _,
                >(ToolFault::Unknown(tool.version->0@))
            }
        }),
{
    if home is Some && tool.version is Some {
        let phar = shared::composer_phar(home->0, tool.version->0@);
        assert(phar.segments =~= seq![
            ".stack"@,
            "tools"@,
            "composer"@,
            tool.version->0@,
            "composer.phar"@,
        ]);
    }
}

} // verus!
