//! Laws on routes and on what is shown of a run: where a domain leads, and with what a process is
//! started.

use crate::caddy;
use crate::commands::startup;
use crate::commands::startup::Routing;
use crate::data;
use crate::data::Node;
use crate::laws::strings;
use crate::output::LineText;
use crate::pinned;
use crate::text;
use crate::words;
use vstd::prelude::*;

verus! {

/// The item at `i` of a list.
pub open spec fn item(n: Option<Node>, i: int) -> Option<Node> {
    match n {
        Some(Node::List(s)) => if 0 <= i < s.len() {
            Some(s[i])
        } else {
            None
        },
        _ => None,
    }
}

proof fn keys_differ()
    ensures
        "@id"@ != "match"@,
        "@id"@ != "handle"@,
        "match"@ != "handle"@,
        "handler"@ != "upstreams"@,
        "handler"@ != "routes"@,
        "handler"@ != "transport"@,
        "upstreams"@ != "transport"@,
        "root"@ != "try_files"@,
        "root"@ != "try_policy"@,
        "try_files"@ != "try_policy"@,
        "handler"@ != "uri"@,
        "protocol"@ != "root"@,
        "protocol"@ != "split_path"@,
        "root"@ != "split_path"@,
        "listen"@ != "routes"@,
{
    reveal_strlit("@id");
    reveal_strlit("match");
    reveal_strlit("handle");
    reveal_strlit("handler");
    reveal_strlit("upstreams");
    reveal_strlit("routes");
    reveal_strlit("transport");
    reveal_strlit("root");
    reveal_strlit("try_files");
    reveal_strlit("try_policy");
    reveal_strlit("uri");
    reveal_strlit("protocol");
    reveal_strlit("split_path");
    reveal_strlit("listen");
    assert("@id"@.len() == 3 && "match"@.len() == 5 && "handle"@.len() == 6 && "handler"@.len()
        == 7);
    assert("upstreams"@.len() == 9 && "transport"@.len() == 9 && "upstreams"@[0] == 'u'
        && "transport"@[0] == 't');
    assert("routes"@.len() == 6 && "listen"@.len() == 6 && "routes"@[0] == 'r' && "listen"@[0]
        == 'l');
    assert("root"@.len() == 4 && "try_files"@.len() == 9 && "try_policy"@.len() == 10);
    assert("uri"@.len() == 3 && "protocol"@.len() == 8 && "split_path"@.len() == 10);
}

/// The places in a route that say whom it is for and where it leads: its id, the host it answers
/// to and the address that is dialled.
pub open spec fn host_of(route: Node) -> Option<Node> {
    item(data::member_of(item(route.member("match"@), 0), "host"@), 0)
}

pub open spec fn handler_of(route: Node) -> Option<Node> {
    item(route.member("handle"@), 0)
}

pub open spec fn dial_of(handler: Option<Node>) -> Option<Node> {
    data::member_of(item(data::member_of(handler, "upstreams"@), 0), "dial"@)
}

/// A route answers to the project's domain and to no other host, leads to the project's port on
/// this machine, and goes by an id of the project's own.
pub proof fn routes_lead_from_the_domain_to_the_port(
    name: Seq<char>,
    domain: Seq<char>,
    port: u16,
)
    ensures
        ({
            let route = caddy::route_node(name, domain, port);
            &&& route.member("@id"@) == Some(Node::Text("stack-"@ + name))
            &&& host_of(route) == Some(Node::Text(domain))
            &&& item(data::member_of(item(route.member("match"@), 0), "host"@), 1) is None
            &&& item(route.member("match"@), 1) is None
            &&& data::member_of(handler_of(route), "handler"@) == Some(
                Node::Text("reverse_proxy"@),
            )
            &&& dial_of(handler_of(route)) == Some(
                Node::Text("127.0.0.1:"@ + text::decimal(port as nat)),
            )
        }),
{
    keys_differ();
}

/// A PHP project's route answers to its domain, looks for files below its document root, and hands
/// the rest to FastCGI on the project's port, under the same root.
pub proof fn fastcgi_routes_lead_to_the_port_and_the_root(
    name: Seq<char>,
    domain: Seq<char>,
    port: u16,
    root: Seq<char>,
)
    ensures
        ({
            let route = caddy::fastcgi_route_node(name, domain, port, root);
            let routes = data::member_of(handler_of(route), "routes"@);
            let rewrite = item(routes, 0);
            let serve = item(data::member_of(item(routes, 1), "handle"@), 0);
            let file = data::member_of(item(data::member_of(rewrite, "match"@), 0), "file"@);
            let transport = data::member_of(serve, "transport"@);
            &&& route.member("@id"@) == Some(Node::Text("stack-"@ + name))
            &&& host_of(route) == Some(Node::Text(domain))
            &&& data::member_of(file, "root"@) == Some(Node::Text(root))
            &&& dial_of(serve) == Some(Node::Text("127.0.0.1:"@ + text::decimal(port as nat)))
            &&& data::member_of(transport, "root"@) == Some(Node::Text(root))
            &&& data::member_of(transport, "protocol"@) == Some(Node::Text("fastcgi"@))
            &&& item(data::member_of(transport, "split_path"@), 0) == Some(Node::Text(".php"@))
            &&& item(routes, 2) is None
        }),
{
    keys_differ();
}

/// Caddy is set up to listen on port 80, without a route.
pub proof fn caddy_starts_without_routes()
    ensures
        ({
            let server = data::member_of(
                data::member_of(
                    data::member_of(caddy::base_node().member("apps"@), "http"@),
                    "servers"@,
                ),
                "srv0"@,
            );
            &&& item(data::member_of(server, "listen"@), 0) == Some(Node::Text(":80"@))
            &&& data::member_of(server, "routes"@) == Some(Node::List(Seq::empty()))
        }),
{
    keys_differ();
}

/// The Caddy that stack keeps lies below the home directory, in a directory of its version.
pub proof fn pinned_caddy_lies_below_home(home: Seq<char>, exe: Seq<char>)
    ensures
        caddy::pinned_caddy(home, exe).base == home,
        caddy::pinned_caddy(home, exe).segments == seq![
            ".stack"@,
            "tools"@,
            "caddy"@,
            "2.11.4"@,
            "caddy"@ + exe,
        ],
        pinned::pinned("caddy"@) == Some("2.11.4"@),
        pinned::pinned("vfox"@) == Some("1.0.11"@),
        pinned::pinned("uv"@) == Some("0.11.7"@),
        forall|tool: Seq<char>|
            tool != "caddy"@ && tool != "vfox"@ && tool != "uv"@ ==> #[trigger] pinned::pinned(tool)
                is None,
{
    reveal_strlit("caddy");
    reveal_strlit("vfox");
    reveal_strlit("uv");
    assert("caddy"@.len() == 5 && "vfox"@.len() == 4 && "uv"@.len() == 2);
    assert(caddy::pinned_caddy(home, exe).segments =~= seq![
        ".stack"@,
        "tools"@,
        "caddy"@,
        "2.11.4"@,
        "caddy"@ + exe,
    ]);
}

/// What is shown of a route names the domain and the port, and the document root where there is
/// one; a route that failed is an alert that ends in why.
pub proof fn routes_are_shown_with_domain_and_port(
    domain: Seq<char>,
    port: u16,
    root: Option<Seq<char>>,
    why: String,
)
    ensures
        ({
            &&& startup::route_report(domain, port, root, Routing::Routed) matches LineText::Out(l)
            &&& text::has_prefix(
                l,
                "  routed: http://"@ + domain + " -> 127.0.0.1:"@ + text::decimal(port as nat),
            )
            &&& root matches Some(r) ==> text::occurs_in(l, r)
        }),
        startup::route_report(domain, port, root, Routing::Refused(why)) matches LineText::Alert(l)
            && text::has_suffix(l, why@),
        startup::route_report(domain, port, root, Routing::Unreachable(why)) matches LineText::Alert(
            l,
        ) && text::has_suffix(l, why@),
{
    let head = "  routed: http://"@ + domain + " -> 127.0.0.1:"@ + text::decimal(port as nat);
    match root {
        Some(r) => {
            let tail = " (fastcgi, root "@ + r + ")"@;
            strings::prefixes_are_beginnings(head, tail, head + tail);
            assert(head + tail =~= (head + " (fastcgi, root "@) + r + ")"@);
            strings::occurrences_have_a_before_and_a_behind(
                head + " (fastcgi, root "@,
                r,
                ")"@,
                head + tail,
            );
        },
        None => {
            strings::prefixes_are_beginnings(head, Seq::empty(), head);
        },
    }
    strings::suffixes_are_endings("  warning: failed to push route: "@, why@, why@);
    strings::suffixes_are_endings(
        "  warning: could not start/reach caddy for routing: "@,
        why@,
        why@,
    );
}

/// A process is told its port and its search path; PHP is told how many workers to start, four
/// where nothing is said, and after how many requests to renew them. It is told nothing else.
pub proof fn processes_are_told_their_port_and_path(
    env: Map<Seq<char>, String>,
    port: u16,
    search_path: Seq<char>,
    workers: Option<Option<u32>>,
    key: Seq<char>,
)
    requires
        startup::is_run_environment(env, port, search_path, workers),
    ensures
        env.contains_key("PORT"@) && env["PORT"@]@ == text::decimal(port as nat),
        env.contains_key("PATH"@) && env["PATH"@]@ == search_path,
        workers is None ==> (env.contains_key(key) <==> key == "PORT"@ || key == "PATH"@),
        workers is Some ==> env.contains_key("PHP_FCGI_CHILDREN"@)
            && env["PHP_FCGI_CHILDREN"@]@ == text::decimal(
            match workers->0 {
                Some(n) => n as nat,
                None => 4,
            },
        ),
        workers is Some ==> env.contains_key("PHP_FCGI_MAX_REQUESTS"@)
            && env["PHP_FCGI_MAX_REQUESTS"@]@ == "500"@,
        env.contains_key(key) ==> seq![
            "PORT"@,
            "PATH"@,
            "PHP_FCGI_CHILDREN"@,
            "PHP_FCGI_MAX_REQUESTS"@,
        ].contains(key),
{
    let keys = seq!["PORT"@, "PATH"@, "PHP_FCGI_CHILDREN"@, "PHP_FCGI_MAX_REQUESTS"@];
    assert(keys[0] == "PORT"@ && keys[1] == "PATH"@ && keys[2] == "PHP_FCGI_CHILDREN"@ && keys[3]
        == "PHP_FCGI_MAX_REQUESTS"@);
}

/// PHP listens for FastCGI on the project's port on this machine, and has its opcode cache on.
pub proof fn php_listens_on_its_port(cgi: Seq<char>, port: u16)
    ensures
        startup::php_args(port)[0] == "-b"@,
        startup::php_args(port)[1] == "127.0.0.1:"@ + text::decimal(port as nat),
        startup::php_args(port).contains("opcache.enable=1"@),
        startup::php_args(port).contains("zend_extension=opcache"@),
        text::has_prefix(
            startup::php_text(cgi, port),
            words::quoted(crate::laws::placeholders::slashed(cgi)) + " -b 127.0.0.1:"@
                + text::decimal(port as nat),
        ),
{
    let args = startup::php_args(port);
    assert(args[5] == "opcache.enable=1"@);
    assert(args[3] == "zend_extension=opcache"@);
    assert(crate::commands::services::with_slashes(cgi) =~= crate::laws::placeholders::slashed(
        cgi,
    ));
    let head = words::quoted(crate::laws::placeholders::slashed(cgi)) + " -b 127.0.0.1:"@
        + text::decimal(port as nat);
    let tail = " -d zend_extension=opcache -d opcache.enable=1 -d opcache.enable_cli=1"@;
    strings::prefixes_are_beginnings(head, tail, head + tail);
}

/// Names are shown in quotation marks and brackets, each of them; where there are none, so it is
/// said.
pub proof fn names_are_shown_in_brackets(names: Seq<Seq<char>>, i: int)
    ensures
        names.len() == 0 ==> startup::shown_names(names) == "(none)"@,
        0 <= i < names.len() ==> text::occurs_in(startup::shown_names(names), names[i]),
        names.len() > 0 ==> text::has_prefix(startup::shown_names(names), "[\""@)
            && text::has_suffix(startup::shown_names(names), "\"]"@),
{
    if names.len() > 0 {
        let inner = text::joined(names, "\", \""@);
        let whole = "[\""@ + inner + "\"]"@;
        assert(whole =~= "[\""@ + (inner + "\"]"@));
        strings::prefixes_are_beginnings("[\""@, inner + "\"]"@, whole);
        strings::suffixes_are_endings("[\""@ + inner, "\"]"@, whole);
        if 0 <= i < names.len() {
            strings::joined_texts_hold_their_parts(names, "\", \""@, i);
            strings::occurrences_have_a_before_and_a_behind(
                Seq::empty(),
                names[i],
                Seq::empty(),
                inner,
            );
            let k = choose|k: int|
                0 <= k <= inner.len() - names[i].len() && inner == #[trigger] inner.take(k)
                    + names[i] + inner.skip(k + names[i].len());
            let before = "[\""@ + inner.take(k);
            let behind = inner.skip(k + names[i].len()) + "\"]"@;
            assert(whole =~= before + names[i] + behind);
            strings::occurrences_have_a_before_and_a_behind(before, names[i], behind, whole);
        }
    }
}

/// Of what a binary prints, the first line is shown.
pub proof fn the_first_line_is_shown(line: Seq<char>, rest: Seq<char>)
    requires
        !line.contains('\n'),
        line.len() > 0,
        line.last() != '\r',
    ensures
        startup::first_line(line + seq!['\n'] + rest) == line,
        startup::first_line(line) == line,
        startup::first_line(Seq::empty()) == Seq::<char>::empty(),
{
    strings::lines_end_at_line_feeds(line, rest);
}

/// What is shown of a run that was started: its command, its process, its port and its log.
pub proof fn started_runs_are_shown(command: Seq<char>, pid: u32, port: u16, log: Seq<char>)
    ensures
        ({
            let shown = startup::started_texts(command, pid, port, log);
            &&& shown.len() == 2
            &&& text::has_prefix(shown[0], "  run: "@ + command + "  (pid "@)
            &&& text::occurs_in(shown[0], text::decimal(pid as nat))
            &&& text::has_suffix(shown[0], ", port "@ + text::decimal(port as nat) + ")"@)
            &&& text::has_suffix(shown[1], log)
        }),
{
    let shown = startup::started_texts(command, pid, port, log);
    let a = "  run: "@ + command + "  (pid "@;
    let m = text::decimal(pid as nat);
    let b = ", port "@ + text::decimal(port as nat) + ")"@;
    assert(shown[0] =~= a + (m + b));
    strings::prefixes_are_beginnings(a, m + b, shown[0]);
    assert(shown[0] =~= a + m + b);
    strings::occurrences_have_a_before_and_a_behind(a, m, b, shown[0]);
    strings::suffixes_are_endings(a + m, b, shown[0]);
    strings::suffixes_are_endings("  log: "@, log, shown[1]);
}

/// Below the document root, the path itself is tried, then its own index, then the index of the
/// root, and the first that is there is served.
pub proof fn files_are_tried_in_order(root: Seq<char>)
    ensures
        ({
            let rewrite = caddy::rewrite_node(root);
            let file = data::member_of(item(rewrite.member("match"@), 0), "file"@);
            let tried = data::member_of(file, "try_files"@);
            let handler = item(rewrite.member("handle"@), 0);
            &&& item(tried, 0) == Some(Node::Text("{http.request.uri.path}"@))
            &&& item(tried, 1) == Some(Node::Text("{http.request.uri.path}/index.php"@))
            &&& item(tried, 2) == Some(Node::Text("index.php"@))
            &&& item(tried, 3) is None
            &&& data::member_of(file, "try_policy"@) == Some(Node::Text("first_exist_fallback"@))
            &&& data::member_of(handler, "handler"@) == Some(Node::Text("rewrite"@))
            &&& data::member_of(handler, "uri"@) == Some(
                Node::Text("{http.matchers.file.relative}"@),
            )
        }),
{
    keys_differ();
}

} // verus!
