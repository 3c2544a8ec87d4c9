//! Routing domains to ports through the admin API of caddy.

use crate::data;
use crate::data::Node;
use crate::location;
use crate::location::JoinedPath;
use crate::pinned;
use crate::text;
use crate::words;
use vstd::prelude::*;

verus! {

/// Where the admin API is reached.
pub const ADMIN_API: &'static str = "http://127.0.0.1:2019";

/// How often a started caddy is asked before it is given up.
pub const READY_ATTEMPTS: u32 = 30;

/// The id of a project's route.
pub open spec fn route_name(name: Seq<char>) -> Seq<char> {
    "stack-"@ + name
}

/// The id of a project's route.
pub fn route_id(name: &str) -> (r: String)
    ensures
        r@ == route_name(name@),
{
    let mut r = "stack-".to_owned();
    r.append(name);
    r
}

/// Different projects have different routes.
pub proof fn routes_are_distinct(a: Seq<char>, b: Seq<char>)
    requires
        route_name(a) == route_name(b),
    ensures
        a == b,
{
    let n = "stack-"@.len() as int;
    assert(route_name(a).skip(n) =~= a);
    assert(route_name(b).skip(n) =~= b);
}

/// The address of the configuration, which answers wherever caddy runs.
pub fn config_url() -> (r: String)
    ensures
        r@ == ADMIN_API@ + "/config/"@,
{
    let mut r = ADMIN_API.to_owned();
    r.append("/config/");
    r
}

/// The address that a whole configuration is sent to.
pub fn load_url() -> (r: String)
    ensures
        r@ == ADMIN_API@ + "/load"@,
{
    let mut r = ADMIN_API.to_owned();
    r.append("/load");
    r
}

/// The address of the list of routes.
pub fn routes_url() -> (r: String)
    ensures
        r@ == ADMIN_API@ + "/config/apps/http/servers/srv0/routes"@,
{
    let mut r = ADMIN_API.to_owned();
    r.append("/config/apps/http/servers/srv0/routes");
    r
}

/// The address of a project's route.
pub fn route_url(name: &str) -> (r: String)
    ensures
        r@ == ADMIN_API@ + "/id/"@ + route_name(name@),
{
    let mut r = ADMIN_API.to_owned();
    r.append("/id/");
    r.append(route_id(name).as_str());
    r
}

/// Why there is no caddy to run.
#[derive(Debug, PartialEq, Eq, Structural)]
pub enum CaddyError {
    NoHome,
    /// It is neither on the search path nor in the tools store.
    NotFound,
    /// It was started and never answered.
    NotReady,
}

impl CaddyError {
    /// What is reported to the user.
    pub fn message(&self) -> (r: String)
        ensures
            r@ == match *self {
                CaddyError::NoHome => "could not resolve home directory"@,
                CaddyError::NotFound => "caddy not found on PATH or in the pinned tools store — run `stack doctor --fix`"@,
                CaddyError::NotReady => "caddy started but its admin API never became reachable"@,
            },
    {
        match self {
            CaddyError::NoHome => "could not resolve home directory".to_owned(),
            CaddyError::NotFound =>
                "caddy not found on PATH or in the pinned tools store — run `stack doctor --fix`".to_owned(),
            CaddyError::NotReady =>
                "caddy started but its admin API never became reachable".to_owned(),
        }
    }
}

/// Where the pinned caddy is kept: below `~/.stack/tools`.
pub open spec fn pinned_caddy(home: Seq<char>, exe_suffix: Seq<char>) -> location::PathText {
    location::stack_dir(home).join("tools"@).join("caddy"@).join(pinned::CADDY_VERSION@).join(
        "caddy"@ + exe_suffix,
    )
}

/// The pinned caddy, which is run where none is on the search path.
pub fn pinned_binary(home: &str, exe_suffix: &str) -> (r: JoinedPath)
    ensures
        r@ == pinned_caddy(home@, exe_suffix@),
{
    let mut file = "caddy".to_owned();
    file.append(exe_suffix);
    location::stack_directory(home).join("tools").join("caddy").join(pinned::CADDY_VERSION).join(
        file.as_str(),
    )
}

/// The caddy that is run: the one on the search path, else the pinned one where it is there.
pub fn resolve_caddy_binary(
    on_path: bool,
    home: Option<&str>,
    exe_suffix: &str,
    pinned_is_file: bool,
) -> (r: Result<JoinedPath, CaddyError>)
    ensures
        match r {
            Ok(bin) => if on_path {
                bin@ == location::plain("caddy"@)
            } else {
                pinned_is_file && home is Some && bin@ == pinned_caddy(home->0@, exe_suffix@)
            },
            Err(e) => !on_path && e == (if home is None {
                CaddyError::NoHome
            } else {
                CaddyError::NotFound
            }) && (home is Some ==> !pinned_is_file),
        },
{
    if on_path {
        return Ok(JoinedPath::new("caddy"));
    }
    match home {
        None => Err(CaddyError::NoHome),
        Some(home) => {
            if pinned_is_file {
                Ok(pinned_binary(home, exe_suffix))
            } else {
                Err(CaddyError::NotFound)
            }
        },
    }
}

/// The command that starts caddy. Split into words, it is the binary and "run", whatever
/// characters the binary's path holds.
pub fn run_command(binary: &str) -> (r: String)
    ensures
        r@ == words::quoted(binary@) + " run"@,
        words::is_quoted_list(r@, binary@, seq!["run"@]),
{
    let mut r = words::quote(binary);
    let ghost head = r@;
    r.append(" run");
    proof {
        reveal_strlit(" run");
        reveal_strlit("run");
        reveal_strlit(" ");
        assert(words::is_plain("run"@));
        assert(text::joined(seq!["run"@], " "@) == "run"@);
        assert(head + " run"@ =~= head + " "@ + "run"@);
    }
    r
}

/// What follows an attempt to reach a caddy that was just started.
#[derive(Debug, PartialEq, Eq, Structural)]
pub enum Readiness {
    Ready,
    /// Wait a tenth of a second and ask again.
    AskAgain,
    GiveUp,
}

/// What follows the attempt of the given number, the first being 0.
pub fn after_attempt(attempt: u32, alive: bool) -> (r: Readiness)
    ensures
        r == (if attempt >= READY_ATTEMPTS {
            Readiness::GiveUp
        } else if alive {
            Readiness::Ready
        } else {
            Readiness::AskAgain
        }),
{
    if attempt >= READY_ATTEMPTS {
        Readiness::GiveUp
    } else if alive {
        Readiness::Ready
    } else {
        Readiness::AskAgain
    }
}

/// What came of asking for a route to be removed.
#[derive(Debug)]
pub enum Removal {
    Done,
    /// The API answered with this status.
    Status(u16, String),
    /// The API could not be reached, for the reason given.
    Failed(String),
}

/// Whether a route is gone: one that never was there is no failure.
pub fn remove_route(removal: &Removal) -> (r: Result<(), String>)
    ensures
        match (*removal, r) {
            (Removal::Done, Ok(_)) => true,
            (Removal::Status(status, _), Ok(_)) => status == 404,
            (Removal::Status(status, e), Err(why)) => status != 404 && why@
                == "failed to remove route: "@ + e@,
            (Removal::Failed(e), Err(why)) => why@ == "failed to remove route: "@ + e@,
            _ => false,
        },
{
    let e = match removal {
        Removal::Done => {
            return Ok(());
        },
        Removal::Status(status, e) => {
            if *status == 404 {
                return Ok(());
            }
            e
        },
        Removal::Failed(e) => e,
    };
    let mut why = "failed to remove route: ".to_owned();
    why.append(e.as_str());
    Err(why)
}

/// An object with one member.
pub open spec fn object1(k1: Seq<char>, v1: Node) -> Node {
    Node::Table(Map::empty().insert(k1, v1))
}

/// An object with two members.
pub open spec fn object2(k1: Seq<char>, v1: Node, k2: Seq<char>, v2: Node) -> Node {
    Node::Table(Map::empty().insert(k1, v1).insert(k2, v2))
}

/// An object with three members.
pub open spec fn object3(
    k1: Seq<char>,
    v1: Node,
    k2: Seq<char>,
    v2: Node,
    k3: Seq<char>,
    v3: Node,
) -> Node {
    Node::Table(Map::empty().insert(k1, v1).insert(k2, v2).insert(k3, v3))
}

/// A JSON object with one member.
fn make1(k1: &str, v1: serde_json::Value) -> (r: serde_json::Value)
    ensures
        data::json_node(r) == object1(k1@, data::json_node(v1)),
{
    let mut r = data::json_object();
    data::json_set(&mut r, k1, v1);
    r
}

/// A JSON object with two members.
fn make2(k1: &str, v1: serde_json::Value, k2: &str, v2: serde_json::Value) -> (r:
    serde_json::Value)
    ensures
        data::json_node(r) == object2(k1@, data::json_node(v1), k2@, data::json_node(v2)),
{
    let mut r = make1(k1, v1);
    data::json_set(&mut r, k2, v2);
    r
}

/// A JSON object with three members.
fn make3(
    k1: &str,
    v1: serde_json::Value,
    k2: &str,
    v2: serde_json::Value,
    k3: &str,
    v3: serde_json::Value,
) -> (r: serde_json::Value)
    ensures
        data::json_node(r) == object3(
            k1@,
            data::json_node(v1),
            k2@,
            data::json_node(v2),
            k3@,
            data::json_node(v3),
        ),
{
    let mut r = make2(k1, v1, k2, v2);
    data::json_set(&mut r, k3, v3);
    r
}

/// A JSON array of one value.
fn one(v: serde_json::Value) -> (r: serde_json::Value)
    ensures
        data::json_node(r) == Node::List(seq![data::json_node(v)]),
{
    let mut items: Vec<serde_json::Value> = Vec::new();
    let ghost n = data::json_node(v);
    items.push(v);
    assert(data::json_nodes(items@) =~= seq![n]);
    data::json_list(items)
}

/// A JSON array of two values.
fn two(v1: serde_json::Value, v2: serde_json::Value) -> (r: serde_json::Value)
    ensures
        data::json_node(r) == Node::List(seq![data::json_node(v1), data::json_node(v2)]),
{
    let mut items: Vec<serde_json::Value> = Vec::new();
    let ghost n = seq![data::json_node(v1), data::json_node(v2)];
    items.push(v1);
    items.push(v2);
    assert(data::json_nodes(items@) =~= n);
    data::json_list(items)
}

/// The configuration that caddy starts with: one server on port 80, without routes.
pub open spec fn base_node() -> Node {
    object1(
        "apps"@,
        object1(
            "http"@,
            object1(
                "servers"@,
                object1(
                    "srv0"@,
                    object2(
                        "listen"@,
                        Node::List(seq![Node::Text(":80"@)]),
                        "routes"@,
                        Node::List(Seq::empty()),
                    ),
                ),
            ),
        ),
    )
}

/// The configuration that caddy starts with: one server on port 80, without routes.
pub fn base_config() -> (r: serde_json::Value)
    ensures
        data::json_node(r) == base_node(),
{
    let none: Vec<serde_json::Value> = Vec::new();
    assert(data::json_nodes(none@) =~= Seq::empty());
    let routes = data::json_list(none);
    let server = make2("listen", one(data::json_text(":80")), "routes", routes);
    make1("apps", make1("http", make1("servers", make1("srv0", server))))
}

/// The condition of a route: the request is for this host.
pub open spec fn host_match(domain: Seq<char>) -> Node {
    Node::List(seq![object1("host"@, Node::List(seq![Node::Text(domain)]))])
}

/// What a route hands requests on to.
pub open spec fn upstreams(port: u16) -> Node {
    Node::List(seq![object1("dial"@, Node::Text("127.0.0.1:"@ + text::decimal(port as nat)))])
}

/// A route from a domain to a port.
pub open spec fn route_node(name: Seq<char>, domain: Seq<char>, port: u16) -> Node {
    object3(
        "@id"@,
        Node::Text(route_name(name)),
        "match"@,
        host_match(domain),
        "handle"@,
        Node::List(
            seq![
                object2(
                    "handler"@,
                    Node::Text("reverse_proxy"@),
                    "upstreams"@,
                    upstreams(port),
                ),
            ],
        ),
    )
}

/// The condition of a route: the request is for this host.
fn host_condition(domain: &str) -> (r: serde_json::Value)
    ensures
        data::json_node(r) == host_match(domain@),
{
    one(make1("host", one(data::json_text(domain))))
}

/// What a route hands requests on to.
fn upstream_list(port: u16) -> (r: serde_json::Value)
    ensures
        data::json_node(r) == upstreams(port),
{
    let mut dial = "127.0.0.1:".to_owned();
    dial.append(text::decimal_text(port as u64).as_str());
    one(make1("dial", data::json_text(dial.as_str())))
}

/// A route from a domain to a port.
fn route(name: &str, domain: &str, port: u16) -> (r: serde_json::Value)
    ensures
        data::json_node(r) == route_node(name@, domain@, port),
{
    let handler = make2(
        "handler",
        data::json_text("reverse_proxy"),
        "upstreams",
        upstream_list(port),
    );
    make3(
        "@id",
        data::json_text(route_id(name).as_str()),
        "match",
        host_condition(domain),
        "handle",
        one(handler),
    )
}

/// The files that a request of a PHP project is tried as, in order: what was asked for, the
/// `index.php` of that directory, and the one at the root.
pub open spec fn tried_files() -> Node {
    Node::List(
        seq![
            Node::Text("{http.request.uri.path}"@),
            Node::Text("{http.request.uri.path}/index.php"@),
            Node::Text("index.php"@),
        ],
    )
}

/// The part of a PHP route that settles which file a request is for.
pub open spec fn rewrite_node(docroot: Seq<char>) -> Node {
    object2(
        "match"@,
        Node::List(
            seq![
                object1(
                    "file"@,
                    object3(
                        "root"@,
                        Node::Text(docroot),
                        "try_files"@,
                        tried_files(),
                        "try_policy"@,
                        Node::Text("first_exist_fallback"@),
                    ),
                ),
            ],
        ),
        "handle"@,
        Node::List(
            seq![
                object2(
                    "handler"@,
                    Node::Text("rewrite"@),
                    "uri"@,
                    Node::Text("{http.matchers.file.relative}"@),
                ),
            ],
        ),
    )
}

/// The part of a PHP route that hands a request on over FastCGI.
pub open spec fn fastcgi_node(port: u16, docroot: Seq<char>) -> Node {
    object1(
        "handle"@,
        Node::List(
            seq![
                object3(
                    "handler"@,
                    Node::Text("reverse_proxy"@),
                    "upstreams"@,
                    upstreams(port),
                    "transport"@,
                    object3(
                        "protocol"@,
                        Node::Text("fastcgi"@),
                        "root"@,
                        Node::Text(docroot),
                        "split_path"@,
                        Node::List(seq![Node::Text(".php"@)]),
                    ),
                ),
            ],
        ),
    )
}

/// A route from a domain to a PHP project's FastCGI port.
pub open spec fn fastcgi_route_node(
    name: Seq<char>,
    domain: Seq<char>,
    port: u16,
    docroot: Seq<char>,
) -> Node {
    object3(
        "@id"@,
        Node::Text(route_name(name)),
        "match"@,
        host_match(domain),
        "handle"@,
        Node::List(
            seq![
                object2(
                    "handler"@,
                    Node::Text("subroute"@),
                    "routes"@,
                    Node::List(seq![rewrite_node(docroot), fastcgi_node(port, docroot)]),
                ),
            ],
        ),
    )
}

/// The part of a PHP route that settles which file a request is for.
fn rewrite_part(docroot: &str) -> (r: serde_json::Value)
    ensures
        data::json_node(r) == rewrite_node(docroot@),
{
    let mut tried: Vec<serde_json::Value> = Vec::new();
    tried.push(data::json_text("{http.request.uri.path}"));
    tried.push(data::json_text("{http.request.uri.path}/index.php"));
    tried.push(data::json_text("index.php"));
    assert(data::json_nodes(tried@) =~= tried_files()->List_0);
    let file = make3(
        "root",
        data::json_text(docroot),
        "try_files",
        data::json_list(tried),
        "try_policy",
        data::json_text("first_exist_fallback"),
    );
    let rewrite = make2(
        "handler",
        data::json_text("rewrite"),
        "uri",
        data::json_text("{http.matchers.file.relative}"),
    );
    make2("match", one(make1("file", file)), "handle", one(rewrite))
}

/// The part of a PHP route that hands a request on over FastCGI.
fn fastcgi_part(port: u16, docroot: &str) -> (r: serde_json::Value)
    ensures
        data::json_node(r) == fastcgi_node(port, docroot@),
{
    let transport = make3(
        "protocol",
        data::json_text("fastcgi"),
        "root",
        data::json_text(docroot),
        "split_path",
        one(data::json_text(".php")),
    );
    let proxy = make3(
        "handler",
        data::json_text("reverse_proxy"),
        "upstreams",
        upstream_list(port),
        "transport",
        transport,
    );
    make1("handle", one(proxy))
}

/// A route from a domain to a PHP project's FastCGI port.
fn fastcgi_route(name: &str, domain: &str, port: u16, docroot: &str) -> (r: serde_json::Value)
    ensures
        data::json_node(r) == fastcgi_route_node(name@, domain@, port, docroot@),
{
    let parts = two(rewrite_part(docroot), fastcgi_part(port, docroot));
    let handler = make2("handler", data::json_text("subroute"), "routes", parts);
    make3(
        "@id",
        data::json_text(route_id(name).as_str()),
        "match",
        host_condition(domain),
        "handle",
        one(handler),
    )
}

/// How a route is put in place: what has its id is deleted first, because the API refuses an id
/// that is there already, and then the route is posted.
#[derive(Debug)]
pub struct Push {
    pub delete_url: String,
    pub post_url: String,
    pub route: serde_json::Value,
}

impl Push {
    /// What is sent where.
    pub open spec fn sends(self, name: Seq<char>, route: Node) -> bool {
        &&& self.delete_url@ == ADMIN_API@ + "/id/"@ + route_name(name)
        &&& self.post_url@ == ADMIN_API@ + "/config/apps/http/servers/srv0/routes"@
        &&& data::json_node(self.route) == route
    }
}

/// How the route from a domain to a port is put in place.
pub fn push_route(name: &str, domain: &str, port: u16) -> (r: Push)
    ensures
        r.sends(name@, route_node(name@, domain@, port)),
{
    Push { delete_url: route_url(name), post_url: routes_url(), route: route(name, domain, port) }
}

/// How the route from a domain to a PHP project's FastCGI port is put in place.
pub fn push_fastcgi_route(name: &str, domain: &str, port: u16, docroot: &str) -> (r: Push)
    ensures
        r.sends(name@, fastcgi_route_node(name@, domain@, port, docroot@)),
{
    Push {
        delete_url: route_url(name),
        post_url: routes_url(),
        route: fastcgi_route(name, domain, port, docroot),
    }
}

} // verus!
