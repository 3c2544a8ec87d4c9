//! Writing a manifest for a new project, from what the user chooses and from what the project's own
//! files require.

use crate::data;
use crate::data::Node;
use crate::plain_toml;
use crate::plain_toml::{Document, Section};
use crate::projects;
use crate::text;
use vstd::prelude::*;

verus! {

/// The languages that are offered.
pub const KNOWN_LANGUAGES: [&'static str; 3] = ["php", "node", "python"];

/// The services that are offered.
pub const KNOWN_SERVICES: [&'static str; 5] = ["mysql", "postgres", "mongo", "redis", "meilisearch"];

/// What closes a scaffolded manifest.
pub const RUN_HINT: &'static str = "\n# [run]\n# command isn't guessed — pin the actual dev-server command once you know it, e.g.:\n# command = \"php -S 127.0.0.1:{port} -t public\"\n";

/// The table of the languages; nothing where there are none.
pub open spec fn language_table(languages: Seq<(Seq<char>, Seq<char>)>) -> Seq<char> {
    if languages.len() == 0 {
        Seq::empty()
    } else {
        "\n[language]\n"@ + plain_toml::pair_lines(languages)
    }
}

/// The tables of the services, each with its version.
pub open spec fn service_tables(services: Seq<(Seq<char>, Seq<char>)>) -> Seq<char>
    decreases services.len(),
{
    if services.len() == 0 {
        Seq::empty()
    } else {
        service_tables(services.drop_last()) + "\n[service."@ + services.last().0
            + "]\nversion = \""@ + services.last().1 + "\"\n"@
    }
}

/// A scaffolded manifest.
pub open spec fn manifest_text(
    name: Seq<char>,
    domain: Seq<char>,
    languages: Seq<(Seq<char>, Seq<char>)>,
    services: Seq<(Seq<char>, Seq<char>)>,
) -> Seq<char> {
    "[project]\nname = \""@ + name + "\"\ndomain = \""@ + domain + "\"\n"@ + language_table(
        languages,
    ) + service_tables(services) + RUN_HINT@
}

/// The table of the languages, each with its version.
pub fn write_languages(languages: &Vec<(String, String)>) -> (r: String)
    ensures
        r@ == language_table(projects::pair_texts(languages@)),
{
    let ghost all = projects::pair_texts(languages@);
    if languages.len() == 0 {
        return String::new();
    }
    let mut lines = String::new();
    let mut i: usize = 0;
    assert(lines@ =~= plain_toml::pair_lines(all.take(0)));
    while i < languages.len()
        invariant
            i <= languages@.len(),
            all == projects::pair_texts(languages@),
            lines@ == plain_toml::pair_lines(all.take(i as int)),
        decreases languages@.len() - i,
    {
        assert(all.take(i + 1).drop_last() =~= all.take(i as int));
        assert(all[i as int] == (languages@[i as int].0@, languages@[i as int].1@));
        lines.append(languages[i].0.as_str());
        lines.append(" = \"");
        lines.append(languages[i].1.as_str());
        lines.append("\"\n");
        i += 1;
    }
    assert(all.take(i as int) =~= all);
    let mut r = "\n[language]\n".to_owned();
    r.append(lines.as_str());
    r
}

/// A manifest for a new project.
pub fn build_manifest_toml(
    name: &str,
    domain: &str,
    languages: &Vec<(String, String)>,
    services: &Vec<(String, String)>,
) -> (r: String)
    ensures
        r@ == manifest_text(
            name@,
            domain@,
            projects::pair_texts(languages@),
            projects::pair_texts(services@),
        ),
{
    let ghost all = projects::pair_texts(services@);
    let mut tables = String::new();
    let mut i: usize = 0;
    assert(tables@ =~= service_tables(all.take(0)));
    while i < services.len()
        invariant
            i <= services@.len(),
            all == projects::pair_texts(services@),
            tables@ == service_tables(all.take(i as int)),
        decreases services@.len() - i,
    {
        assert(all.take(i + 1).drop_last() =~= all.take(i as int));
        assert(all[i as int] == (services@[i as int].0@, services@[i as int].1@));
        tables.append("\n[service.");
        tables.append(services[i].0.as_str());
        tables.append("]\nversion = \"");
        tables.append(services[i].1.as_str());
        tables.append("\"\n");
        i += 1;
    }
    assert(all.take(i as int) =~= all);
    let mut r = "[project]\nname = \"".to_owned();
    r.append(name);
    r.append("\"\ndomain = \"");
    r.append(domain);
    r.append("\"\n");
    r.append(write_languages(languages).as_str());
    r.append(tables.as_str());
    r.append(RUN_HINT);
    r
}

/// Names that need no quotation marks and are given once, each with a version that can stand in
/// them as it is.
pub open spec fn plain_choices(
    name: Seq<char>,
    domain: Seq<char>,
    languages: Seq<(Seq<char>, Seq<char>)>,
    services: Seq<(Seq<char>, Seq<char>)>,
) -> bool {
    &&& plain_toml::is_plain_string(name)
    &&& plain_toml::is_plain_string(domain)
    &&& plain_toml::are_plain(languages)
    &&& plain_toml::are_plain(services)
}

/// The items of a service that has a version and nothing else.
pub open spec fn service_item(version: Seq<char>) -> Node {
    Node::Table(Map::empty().insert("version"@, Node::Text(version)))
}

/// The services by their names.
pub open spec fn service_items(services: Seq<(Seq<char>, Seq<char>)>) -> Map<Seq<char>, Node>
    decreases services.len(),
{
    if services.len() == 0 {
        Map::empty()
    } else {
        service_items(services.drop_last()).insert(
            services.last().0,
            service_item(services.last().1),
        )
    }
}

/// What a scaffolded manifest holds: the project's name and domain, the languages and the services
/// that were given, and nothing else.
pub open spec fn manifest_items(
    name: Seq<char>,
    domain: Seq<char>,
    languages: Seq<(Seq<char>, Seq<char>)>,
    services: Seq<(Seq<char>, Seq<char>)>,
) -> Map<Seq<char>, Node> {
    let project = Map::empty().insert("name"@, Node::Text(name)).insert(
        "domain"@,
        Node::Text(domain),
    );
    let items = Map::empty().insert("project"@, Node::Table(project));
    let items = if languages.len() == 0 {
        items
    } else {
        items.insert("language"@, Node::Table(plain_toml::pair_items(languages)))
    };
    if services.len() == 0 {
        items
    } else {
        items.insert("service"@, Node::Table(service_items(services)))
    }
}

/// The tables of the project and of the languages.
spec fn first_sections(
    name: Seq<char>,
    domain: Seq<char>,
    languages: Seq<(Seq<char>, Seq<char>)>,
) -> Seq<Section> {
    let project = Section {
        key: "project"@,
        below: None,
        pairs: seq![("name"@, name), ("domain"@, domain)],
    };
    if languages.len() == 0 {
        seq![project]
    } else {
        seq![project, Section { key: "language"@, below: None, pairs: languages }]
    }
}

/// The table of a service.
spec fn service_section(service: (Seq<char>, Seq<char>)) -> Section {
    Section {
        key: "service"@,
        below: Some(service.0),
        pairs: seq![("version"@, service.1)],
    }
}

/// The tables of the services.
spec fn service_sections(services: Seq<(Seq<char>, Seq<char>)>) -> Seq<Section> {
    Seq::new(services.len(), |i: int| service_section(services[i]))
}

/// The table of a service as it is written, with a blank line before it.
spec fn service_block(service: (Seq<char>, Seq<char>)) -> Seq<char> {
    "\n[service."@ + service.0 + "]\nversion = \""@ + service.1 + "\"\n"@
}

proof fn service_text(service: (Seq<char>, Seq<char>))
    ensures
        "\n"@ + service_section(service).text() == service_block(service),
{
    reveal_strlit("\n");
    reveal_strlit("[");
    reveal_strlit("service");
    reveal_strlit(".");
    reveal_strlit("]\n");
    reveal_strlit("version");
    reveal_strlit(" = \"");
    reveal_strlit("\n[service.");
    reveal_strlit("]\nversion = \"");
    let pairs = seq![("version"@, service.1)];
    assert(pairs.drop_last() =~= Seq::empty());
    assert(plain_toml::pair_lines(pairs.drop_last()) =~= Seq::empty());
    assert(plain_toml::pair_lines(pairs) =~= "version"@ + " = \""@ + service.1 + "\"\n"@);
    assert("\n[service."@ =~= "\n"@ + "["@ + "service"@ + "."@);
    assert("]\nversion = \""@ =~= "]\n"@ + "version"@ + " = \""@);
    assert("\n"@ + service_section(service).text() =~= service_block(service));
}

proof fn tables_step(services: Seq<(Seq<char>, Seq<char>)>)
    requires
        services.len() > 0,
    ensures
        service_tables(services) == service_tables(services.drop_last()) + service_block(
            services.last(),
        ),
{
    let before = service_tables(services.drop_last());
    let last = services.last();
    assert(before + "\n[service."@ + last.0 + "]\nversion = \""@ + last.1 + "\"\n"@ =~= before + (
    "\n[service."@ + last.0 + "]\nversion = \""@ + last.1 + "\"\n"@));
}

proof fn sections_step(sections: Seq<Section>)
    requires
        sections.len() > 1,
    ensures
        plain_toml::sections_text(sections) == plain_toml::sections_text(sections.drop_last()) + (
        "\n"@ + sections.last().text()),
{
    let before = plain_toml::sections_text(sections.drop_last());
    let own = sections.last().text();
    assert(before + "\n"@ + own =~= before + ("\n"@ + own));
}

proof fn services_text(first: Seq<Section>, services: Seq<(Seq<char>, Seq<char>)>)
    requires
        first.len() > 0,
    ensures
        plain_toml::sections_text(first + service_sections(services)) == plain_toml::sections_text(
            first,
        ) + service_tables(services),
    decreases services.len(),
{
    let all = first + service_sections(services);
    let head = plain_toml::sections_text(first);
    if services.len() == 0 {
        assert(all =~= first);
        assert(head + service_tables(services) =~= head);
    } else {
        let rest = services.drop_last();
        services_text(first, rest);
        assert(all.drop_last() =~= first + service_sections(rest));
        assert(all.last() == service_section(services.last()));
        sections_step(all);
        service_text(services.last());
        tables_step(services);
        let block = service_block(services.last());
        assert(head + service_tables(rest) + block =~= head + (service_tables(rest) + block));
    }
}

proof fn services_items(first: Seq<Section>, services: Seq<(Seq<char>, Seq<char>)>)
    requires
        !plain_toml::section_items(first).contains_key("service"@),
    ensures
        plain_toml::section_items(first + service_sections(services)) == if services.len() == 0 {
            plain_toml::section_items(first)
        } else {
            plain_toml::section_items(first).insert(
                "service"@,
                Node::Table(service_items(services)),
            )
        },
    decreases services.len(),
{
    let all = first + service_sections(services);
    if services.len() == 0 {
        assert(all =~= first);
    } else {
        let rest = services.drop_last();
        services_items(first, rest);
        assert(all.drop_last() =~= first + service_sections(rest));
        assert(all.last() == service_section(services.last()));
        let pairs = seq![("version"@, services.last().1)];
        assert(pairs.drop_last() =~= Seq::empty());
        assert(plain_toml::pair_items(pairs.drop_last()) =~= Map::empty());
        assert(service_item(services.last().1) == Node::Table(plain_toml::pair_items(pairs)));
        assert(rest.len() == 0 ==> service_items(rest) =~= Map::empty());
        assert(plain_toml::section_items(all) =~= plain_toml::section_items(first).insert(
            "service"@,
            Node::Table(service_items(services)),
        ));
    }
}

proof fn hint_is_filler()
    ensures
        plain_toml::is_filler(RUN_HINT@),
{
    reveal_strlit("\n# [run]\n# command isn't guessed — pin the actual dev-server command once you know it, e.g.:\n# command = \"php -S 127.0.0.1:{port} -t public\"\n");
    let c = RUN_HINT@;
    assert(c.len() == 141);
    reveal_with_fuel(plain_toml::goes_on_from, 26);
    assert(plain_toml::goes_on_from(c, 125));
    assert(plain_toml::goes_on_from(c, 100));
    assert(plain_toml::goes_on_from(c, 75));
    assert(plain_toml::goes_on_from(c, 50));
    assert(plain_toml::goes_on_from(c, 25));
    assert(plain_toml::goes_on_from(c, 0));
    assert forall|k: int| 0 <= k < c.len() implies #[trigger] plain_toml::goes_on(c, k) by {
        plain_toml::goes_on_throughout(c, 0, k);
    }
}

proof fn first_text(
    name: Seq<char>,
    domain: Seq<char>,
    languages: Seq<(Seq<char>, Seq<char>)>,
)
    ensures
        plain_toml::sections_text(first_sections(name, domain, languages))
            == "[project]\nname = \""@ + name + "\"\ndomain = \""@ + domain + "\"\n"@
            + language_table(languages),
{
    let first = first_sections(name, domain, languages);
    let pairs = seq![("name"@, name), ("domain"@, domain)];
    reveal_strlit("[");
    reveal_strlit("project");
    reveal_strlit("]\n");
    reveal_strlit("name");
    reveal_strlit("domain");
    reveal_strlit(" = \"");
    reveal_strlit("\"\n");
    reveal_strlit("[project]\nname = \"");
    reveal_strlit("\"\ndomain = \"");
    let one = pairs.drop_last();
    assert(one =~= seq![("name"@, name)]);
    assert(one.drop_last() =~= Seq::empty());
    assert(plain_toml::pair_lines(one.drop_last()) =~= Seq::empty());
    assert(plain_toml::pair_lines(one) =~= "name"@ + " = \""@ + name + "\"\n"@);
    assert(plain_toml::pair_lines(pairs) =~= "name"@ + " = \""@ + name + "\"\n"@ + "domain"@
        + " = \""@ + domain + "\"\n"@);
    assert("[project]\nname = \""@ =~= "["@ + "project"@ + "]\n"@ + "name"@ + " = \""@);
    assert("\"\ndomain = \""@ =~= "\"\n"@ + "domain"@ + " = \""@);
    let project = "[project]\nname = \""@ + name + "\"\ndomain = \""@ + domain + "\"\n"@;
    assert(first[0].text() =~= project);
    if languages.len() == 0 {
        assert(project + language_table(languages) =~= project);
    } else {
        reveal_strlit("\n");
        reveal_strlit("language");
        reveal_strlit("\n[language]\n");
        assert("\n[language]\n"@ =~= "\n"@ + "["@ + "language"@ + "]\n"@);
        assert(first.drop_last() =~= seq![first[0]]);
        assert(plain_toml::sections_text(seq![first[0]]) == project);
        assert("\n"@ + first[1].text() =~= language_table(languages));
        assert(project + "\n"@ + first[1].text() =~= project + ("\n"@ + first[1].text()));
        assert(plain_toml::sections_text(first) == project + "\n"@ + first[1].text());
    }
}

proof fn first_is_plain(
    name: Seq<char>,
    domain: Seq<char>,
    languages: Seq<(Seq<char>, Seq<char>)>,
)
    requires
        plain_toml::is_plain_string(name),
        plain_toml::is_plain_string(domain),
        plain_toml::are_plain(languages),
    ensures
        forall|i: int|
            0 <= i < first_sections(name, domain, languages).len() ==> (
            #[trigger] first_sections(name, domain, languages)[i]).is_plain(),
{
    reveal_strlit("project");
    reveal_strlit("language");
    reveal_strlit("name");
    reveal_strlit("domain");
    let first = first_sections(name, domain, languages);
    assert("name"@.len() != "domain"@.len());
    assert(plain_toml::is_bare("project"@));
    assert(plain_toml::is_bare("language"@));
    assert(plain_toml::is_bare("name"@));
    assert(plain_toml::is_bare("domain"@));
    let pairs = first[0].pairs;
    assert(pairs.len() == 2 && pairs[0] == ("name"@, name) && pairs[1] == ("domain"@, domain));
    assert(first[0].is_plain());
}

proof fn service_is_plain(service: (Seq<char>, Seq<char>))
    requires
        plain_toml::is_bare(service.0),
        plain_toml::is_plain_string(service.1),
    ensures
        service_section(service).is_plain(),
{
    reveal_strlit("service");
    reveal_strlit("version");
    assert(plain_toml::is_bare("service"@));
    assert(plain_toml::is_bare("version"@));
}

proof fn sections_are_plain(
    name: Seq<char>,
    domain: Seq<char>,
    languages: Seq<(Seq<char>, Seq<char>)>,
    services: Seq<(Seq<char>, Seq<char>)>,
    after: Seq<char>,
)
    requires
        plain_choices(name, domain, languages, services),
        plain_toml::is_filler(after),
    ensures
        (Document {
            before: Seq::empty(),
            sections: first_sections(name, domain, languages) + service_sections(services),
            after,
        }).is_plain(),
{
    let first = first_sections(name, domain, languages);
    let all = first + service_sections(services);
    reveal_strlit("project");
    reveal_strlit("language");
    reveal_strlit("service");
    assert("project"@[0] != "service"@[0]);
    assert("language"@.len() == 8 && "project"@.len() == 7 && "service"@.len() == 7);
    first_is_plain(name, domain, languages);
    assert forall|i: int| 0 <= i < all.len() implies (#[trigger] all[i]).is_plain() by {
        if i < first.len() {
            assert(all[i] == first[i]);
        } else {
            let k = i - first.len();
            assert(all[i] == service_section(services[k]));
            service_is_plain(services[k]);
        }
    }
    assert forall|i: int, j: int|
        0 <= i < j < all.len() && (#[trigger] all[i]).key == (
        #[trigger] all[j]).key implies all[i].below is Some && all[j].below is Some && all[i].below
        != all[j].below by {
        if j >= first.len() {
            assert(all[j] == service_section(services[j - first.len()]));
            if i < first.len() {
                assert(all[i] == first[i]);
            } else {
                assert(all[i] == service_section(services[i - first.len()]));
                assert(services[i - first.len()].0 != services[j - first.len()].0);
            }
        } else {
            assert(all[i] == first[i] && all[j] == first[j]);
        }
    }
}

proof fn first_items(name: Seq<char>, domain: Seq<char>, languages: Seq<(Seq<char>, Seq<char>)>)
    ensures
        plain_toml::section_items(first_sections(name, domain, languages)) == manifest_items(
            name,
            domain,
            languages,
            Seq::empty(),
        ),
{
    let first = first_sections(name, domain, languages);
    let pairs = seq![("name"@, name), ("domain"@, domain)];
    let one = pairs.drop_last();
    assert(one =~= seq![("name"@, name)]);
    assert(one.drop_last() =~= Seq::empty());
    assert(plain_toml::pair_items(one.drop_last()) =~= Map::empty());
    let project = Map::empty().insert("name"@, Node::Text(name)).insert(
        "domain"@,
        Node::Text(domain),
    );
    assert(plain_toml::pair_items(one) =~= Map::empty().insert("name"@, Node::Text(name)));
    assert(plain_toml::pair_items(pairs) =~= project);
    let alone = seq![first[0]];
    assert(alone.drop_last() =~= Seq::empty());
    assert(plain_toml::section_items(alone.drop_last()) =~= Map::empty());
    assert(plain_toml::section_items(alone) =~= Map::empty().insert(
        "project"@,
        Node::Table(project),
    ));
    if languages.len() == 0 {
        assert(first =~= alone);
    } else {
        assert(first.drop_last() =~= alone);
    }
}

/// A scaffolded manifest is a plain document of what was given.
proof fn scaffold_is_plain(
    name: Seq<char>,
    domain: Seq<char>,
    languages: Seq<(Seq<char>, Seq<char>)>,
    services: Seq<(Seq<char>, Seq<char>)>,
) -> (doc: Document)
    requires
        plain_choices(name, domain, languages, services),
    ensures
        doc.is_plain(),
        doc.text() == manifest_text(name, domain, languages, services),
        plain_toml::section_items(doc.sections) == manifest_items(
            name,
            domain,
            languages,
            services,
        ),
{
    let first = first_sections(name, domain, languages);
    let all = first + service_sections(services);
    let doc = Document { before: Seq::empty(), sections: all, after: RUN_HINT@ };
    hint_is_filler();
    first_text(name, domain, languages);
    services_text(first, services);
    assert(doc.before + plain_toml::sections_text(all) =~= plain_toml::sections_text(all));
    sections_are_plain(name, domain, languages, services, doc.after);
    first_items(name, domain, languages);
    reveal_strlit("project");
    reveal_strlit("language");
    reveal_strlit("service");
    assert("project"@[0] != "service"@[0]);
    assert("language"@.len() == 8 && "project"@.len() == 7 && "service"@.len() == 7);
    services_items(first, services);
    doc
}

/// Each service that is given once is held under its name with its version, and there is no other.
pub proof fn services_are_held(services: Seq<(Seq<char>, Seq<char>)>)
    requires
        forall|i: int, j: int|
            0 <= i < j < services.len() ==> (#[trigger] services[i]).0 != (
            #[trigger] services[j]).0,
    ensures
        forall|i: int|
            0 <= i < services.len() ==> service_items(services).contains_key(
                (#[trigger] services[i]).0,
            ) && service_items(services)[services[i].0] == service_item(services[i].1),
        forall|k: Seq<char>| #[trigger]
            service_items(services).contains_key(k) ==> exists|i: int|
                0 <= i < services.len() && (#[trigger] services[i]).0 == k,
    decreases services.len(),
{
    if services.len() > 0 {
        let rest = services.drop_last();
        let n = rest.len() as int;
        services_are_held(rest);
        assert(services.last() == services[n]);
        assert forall|i: int| 0 <= i < services.len() implies service_items(services).contains_key(
            (#[trigger] services[i]).0,
        ) && service_items(services)[services[i].0] == service_item(services[i].1) by {
            if i < n {
                assert(rest[i] == services[i]);
                assert(services[i].0 != services[n].0);
            }
        }
        assert forall|k: Seq<char>| #[trigger]
            service_items(services).contains_key(k) implies exists|i: int|
            0 <= i < services.len() && (#[trigger] services[i]).0 == k by {
            if k != services[n].0 {
                assert(service_items(rest).contains_key(k));
                let i = choose|i: int| 0 <= i < rest.len() && (#[trigger] rest[i]).0 == k;
                assert(services[i].0 == k);
            }
        }
    }
}

/// A manifest for a new project, and whether it can be read. Where the names are bare keys, each
/// given once, and all else can stand in quotation marks as it is, it is read as just what was
/// given.
pub fn scaffold_manifest(
    name: &str,
    domain: &str,
    languages: &Vec<(String, String)>,
    services: &Vec<(String, String)>,
) -> (r: (String, bool))
    ensures
        r.0@ == manifest_text(
            name@,
            domain@,
            projects::pair_texts(languages@),
            projects::pair_texts(services@),
        ),
        r.1 == (data::toml_parsed(r.0@) is Some),
        plain_choices(
            name@,
            domain@,
            projects::pair_texts(languages@),
            projects::pair_texts(services@),
        ) ==> data::toml_parsed(r.0@) == Some(
            Node::Table(
                manifest_items(
                    name@,
                    domain@,
                    projects::pair_texts(languages@),
                    projects::pair_texts(services@),
                ),
            ),
        ),
{
    let text = build_manifest_toml(name, domain, languages, services);
    let readable = data::parse_toml(text.as_str()).is_some();
    proof {
        let ls = projects::pair_texts(languages@);
        let ss = projects::pair_texts(services@);
        if plain_choices(name@, domain@, ls, ss) {
            let doc = scaffold_is_plain(name@, domain@, ls, ss);
            assert(doc.text() == text@);
        }
    }
    (text, readable)
}

/// The domain needs a name server of its own: only `.localhost` resolves by itself.
pub open spec fn needs_dns(domain: Seq<char>) -> bool {
    domain != "localhost"@ && !text::has_suffix(domain, ".localhost"@)
}

/// Whether a domain needs a name server of its own.
pub fn needs_tld_setup(domain: &str) -> (r: bool)
    ensures
        r == needs_dns(domain@),
{
    !text::same(domain, "localhost") && !text::ends_with(domain, ".localhost")
}

/// A project's default domain resolves by itself.
pub proof fn default_domains_need_no_setup(name: Seq<char>)
    ensures
        !needs_dns(crate::manifest::project_domain(None, name)),
{
    let d = name + ".localhost"@;
    assert(d.skip(name.len() as int) =~= ".localhost"@);
}

/// Where the one-time setup for a domain is described, where it needs one.
pub fn suggest_tld_setup(domain: &str, tool: &str, website: &str) -> (r: Option<String>)
    ensures
        text::opt_text(r) == (if needs_dns(domain@) {
            Some(
                "tip: '"@ + domain@ + "' needs one-time local DNS setup ("@ + tool@
                    + ") to resolve — see "@ + website@ + "/custom-domains.html"@,
            )
        } else {
            None
        }),
{
    if !needs_tld_setup(domain) {
        return None;
    }
    let mut r = "tip: '".to_owned();
    r.append(domain);
    r.append("' needs one-time local DNS setup (");
    r.append(tool);
    r.append(") to resolve — see ");
    r.append(website);
    r.append("/custom-domains.html");
    Some(r)
}

/// The version that a constraint begins with, behind its operators: digits and dots, without dots
/// at the end.
pub open spec fn constraint_version(raw: Seq<char>) -> Option<Seq<char>> {
    let bare = text::trimmed(text::drop_leading(text::trimmed(raw), text::Class::Operator));
    let core = text::drop_trailing(text::leading(bare, text::Class::Version), text::Class::Dot);
    if core.len() == 0 {
        None
    } else {
        Some(core)
    }
}

/// The version that a constraint begins with, behind its operators.
pub fn extract_version_constraint(raw: &str) -> (r: Option<String>)
    ensures
        text::opt_text(r) == constraint_version(raw@),
{
    let trimmed = text::trim(raw);
    let bare = text::trim(
        text::trim_leading(trimmed.as_str(), text::Class::Operator).as_str(),
    );
    let digits = text::take_leading(bare.as_str(), text::Class::Version);
    let core = text::trim_trailing(digits.as_str(), text::Class::Dot);
    proof {
        reveal_strlit("");
        if core@.len() == 0 {
            assert(core@ =~= ""@);
        }
    }
    if text::same(core.as_str(), "") {
        None
    } else {
        Some(core)
    }
}

/// A language that a project's own files require.
#[derive(Debug)]
pub struct DetectedLanguage {
    pub name: &'static str,
    pub version: String,
    pub source: &'static str,
}

/// A language that is required with this constraint, if it gives a version.
pub open spec fn is_detected(
    r: Option<DetectedLanguage>,
    name: Seq<char>,
    source: Seq<char>,
    constraint: Option<Seq<char>>,
) -> bool {
    match constraint {
        None => r is None,
        Some(raw) => match (constraint_version(raw), r) {
            (None, None) => true,
            (Some(v), Some(d)) => d.name@ == name && d.source@ == source && d.version@ == v,
            _ => false,
        },
    }
}

/// A language that is required with this constraint, if it gives a version.
pub fn detected(name: &'static str, source: &'static str, constraint: Option<&str>) -> (r: Option<
    DetectedLanguage,
>)
    ensures
        is_detected(r, name@, source@, text::opt_str(constraint)),
{
    match constraint {
        None => None,
        Some(raw) => match extract_version_constraint(raw) {
            None => None,
            Some(version) => Some(DetectedLanguage { name, version, source }),
        },
    }
}

/// The string under two keys of a JSON value, one within the other.
fn json_at<'a>(json: &'a serde_json::Value, outer: &str, inner: &str) -> (r: Option<&'a str>)
    ensures
        text::opt_str(r) == data::text_of(
            data::member_of(data::json_node(*json).member(outer@), inner@),
        ),
{
    match data::json_member(json, outer) {
        None => None,
        Some(o) => match data::json_member(o, inner) {
            None => None,
            Some(i) => data::json_str(i),
        },
    }
}

/// The PHP that a parsed `composer.json` requires.
pub open spec fn php_constraint(json: Node) -> Option<Seq<char>> {
    data::text_of(data::member_of(json.member("require"@), "php"@))
}

/// The Node that a parsed `package.json` requires.
pub open spec fn node_constraint(json: Node) -> Option<Seq<char>> {
    data::text_of(data::member_of(json.member("engines"@), "node"@))
}

/// The Python that a parsed `pyproject.toml` requires: that of the project, else that of poetry.
pub open spec fn python_constraint(toml: Node) -> Option<Seq<char>> {
    let project = data::member_of(toml.member("project"@), "requires-python"@);
    let poetry = data::member_of(
        data::member_of(data::member_of(toml.member("tool"@), "poetry"@), "dependencies"@),
        "python"@,
    );
    data::text_of(
        match project {
            Some(p) => Some(p),
            None => poetry,
        },
    )
}

/// What a constraint of a parsed text is, where the text parses.
pub open spec fn constraint_in(parsed: Option<Node>, f: spec_fn(Node) -> Option<Seq<char>>) -> Option<
    Seq<char>,
> {
    match parsed {
        Some(n) => f(n),
        None => None,
    }
}

/// The PHP that a parsed `composer.json` requires.
pub fn php_required(json: &serde_json::Value) -> (r: Option<DetectedLanguage>)
    ensures
        is_detected(r, "php"@, "composer.json"@, php_constraint(data::json_node(*json))),
{
    detected("php", "composer.json", json_at(json, "require", "php"))
}

/// The Node that a parsed `package.json` requires.
pub fn node_required(json: &serde_json::Value) -> (r: Option<DetectedLanguage>)
    ensures
        is_detected(r, "node"@, "package.json"@, node_constraint(data::json_node(*json))),
{
    detected("node", "package.json", json_at(json, "engines", "node"))
}

/// The value under the key of a TOML value, where there is one.
fn toml_at<'a>(toml: Option<&'a toml::Value>, key: &str) -> (r: Option<&'a toml::Value>)
    ensures
        match (toml, r) {
            (Some(t), Some(m)) => data::toml_node(*t).member(key@) == Some(data::toml_node(*m)),
            (Some(t), None) => data::toml_node(*t).member(key@) is None,
            (None, None) => true,
            _ => false,
        },
{
    match toml {
        Some(t) => data::toml_member(t, key),
        None => None,
    }
}

/// The Python that a parsed `pyproject.toml` requires.
pub fn python_required(toml: &toml::Value) -> (r: Option<DetectedLanguage>)
    ensures
        is_detected(r, "python"@, "pyproject.toml"@, python_constraint(data::toml_node(*toml))),
{
    let project = toml_at(toml_at(Some(toml), "project"), "requires-python");
    let wanted = match project {
        Some(p) => Some(p),
        None => toml_at(
            toml_at(toml_at(toml_at(Some(toml), "tool"), "poetry"), "dependencies"),
            "python",
        ),
    };
    let raw = match wanted {
        Some(v) => data::toml_str(v),
        None => None,
    };
    detected("python", "pyproject.toml", raw)
}

/// The PHP that a `composer.json` requires.
pub fn detect_php(composer: &str) -> (r: Option<DetectedLanguage>)
    ensures
        is_detected(
            r,
            "php"@,
            "composer.json"@,
            constraint_in(data::json_parsed(composer@), |n: Node| php_constraint(n)),
        ),
{
    match data::parse_json(composer) {
        Some(json) => php_required(&json),
        None => None,
    }
}

/// The Node that a `package.json` requires.
pub fn detect_node(package: &str) -> (r: Option<DetectedLanguage>)
    ensures
        is_detected(
            r,
            "node"@,
            "package.json"@,
            constraint_in(data::json_parsed(package@), |n: Node| node_constraint(n)),
        ),
{
    match data::parse_json(package) {
        Some(json) => node_required(&json),
        None => None,
    }
}

/// The Python that a `pyproject.toml` requires.
pub fn detect_python(pyproject: &str) -> (r: Option<DetectedLanguage>)
    ensures
        is_detected(
            r,
            "python"@,
            "pyproject.toml"@,
            constraint_in(data::toml_parsed(pyproject@), |n: Node| python_constraint(n)),
        ),
{
    match data::parse_toml(pyproject) {
        Some(toml) => python_required(&toml),
        None => None,
    }
}

/// What is shown of a language that was detected.
pub fn detected_line(d: &DetectedLanguage) -> (r: String)
    ensures
        r@ == "  "@ + d.name@ + " "@ + d.version@ + " (from "@ + d.source@ + ")"@,
{
    let mut r = "  ".to_owned();
    r.append(d.name);
    r.append(" ");
    r.append(d.version.as_str());
    r.append(" (from ");
    r.append(d.source);
    r.append(")");
    r
}

/// The language at `i` is the first detected of this name.
pub open spec fn first_detected(detected: Seq<DetectedLanguage>, name: Seq<char>, i: int) -> bool {
    &&& 0 <= i < detected.len()
    &&& detected[i].name@ == name
    &&& forall|j: int| 0 <= j < i ==> (#[trigger] detected[j]).name@ != name
}

/// The version that is offered for a language: the one that was detected.
pub fn default_version<'a>(detected: &'a Vec<DetectedLanguage>, name: &str) -> (r: Option<&'a str>)
    ensures
        match r {
            Some(v) => exists|i: int| #[trigger]
                first_detected(detected@, name@, i) && v@ == detected@[i].version@,
            None => forall|i: int|
                0 <= i < detected@.len() ==> (#[trigger] detected@[i]).name@ != name@,
        },
{
    let mut i: usize = 0;
    while i < detected.len()
        invariant
            i <= detected@.len(),
            forall|j: int| 0 <= j < i ==> (#[trigger] detected@[j]).name@ != name@,
        decreases detected@.len() - i,
    {
        if text::same(detected[i].name, name) {
            assert(first_detected(detected@, name@, i as int));
            return Some(detected[i].version.as_str());
        }
        i += 1;
    }
    None
}

/// Whether a name that was typed ends the list of names: it is blank.
pub fn ends_list(name: &str) -> (r: bool)
    ensures
        r == (text::trimmed(name@).len() == 0),
{
    let t = text::trim(name);
    proof {
        reveal_strlit("");
        if t@.len() == 0 {
            assert(t@ =~= ""@);
        }
    }
    text::same(t.as_str(), "")
}

/// What is reported where there is a manifest already.
pub fn refuse_overwrite(path: &str) -> (r: String)
    ensures
        r@ == path@ + " already exists — refusing to overwrite it"@,
{
    let mut r = path.to_owned();
    r.append(" already exists — refusing to overwrite it");
    r
}

/// What is shown where an entry was added to a manifest, or removed from one.
pub fn edited_line(added: bool, kind: &str, name: &str, path: &str) -> (r: String)
    ensures
        r@ == if added {
            "added "@ + kind@ + " '"@ + name@ + "' to "@ + path@
        } else {
            "removed "@ + kind@ + " '"@ + name@ + "' from "@ + path@
        },
{
    if added {
        let mut r = "added ".to_owned();
        r.append(kind);
        r.append(" '");
        r.append(name);
        r.append("' to ");
        r.append(path);
        r
    } else {
        let mut r = "removed ".to_owned();
        r.append(kind);
        r.append(" '");
        r.append(name);
        r.append("' from ");
        r.append(path);
        r
    }
}

} // verus!
