//! The managed load balancers: their configuration, and what their upgrade must show.

use crate::commands::{says, value_says};
use crate::identity::{agent_resource_name, enrolled_name};
use crate::naming::agent_name;
use crate::text::{
    decimal, decimal_digits, glued, has_suffix, same, trim, trimmed, view_of, views,
};
use vstd::prelude::*;

verus! {

/// A server behind the load balancers: its resource, and where it is reached.
pub struct BackendServer {
    pub node: String,
    pub address: String,
}

/// A server as its resource and address.
pub open spec fn server_view(server: BackendServer) -> (Seq<char>, Seq<char>) {
    (server.node@, server.address@)
}

/// The server on the node with this ordinal.
pub open spec fn server_on(ordinal: nat) -> (Seq<char>, Seq<char>) {
    (enrolled_name(agent_name(ordinal)), agent_name(ordinal) + ".agents:8080"@)
}

/// The servers on some nodes in a row.
pub fn servers_from(first: usize, count: usize) -> (result: Vec<BackendServer>)
    requires
        first + count <= usize::MAX,
    ensures
        result@.len() == count,
        forall|i: int|
            0 <= i < count ==> server_view(#[trigger] result@[i]) == server_on((first + i) as nat),
{
    let mut result: Vec<BackendServer> = Vec::new();
    let mut index: usize = 0;
    while index < count
        invariant
            index <= count,
            first + count <= usize::MAX,
            result@.len() == index,
            forall|i: int|
                0 <= i < index ==> server_view(#[trigger] result@[i]) == server_on(
                    (first + i) as nat,
                ),
        decreases count - index,
    {
        let mut address = crate::naming::agent_hostname(first + index);
        address.append(".agents:8080");
        result.push(BackendServer { node: agent_resource_name(first + index), address });
        index = index + 1;
    }
    result
}

/// The part of the configuration before what it reports.
pub open spec fn config_start(admin_port: nat) -> Seq<char> {
    "global\n    stats socket ipv4@0.0.0.0:"@ + decimal_digits(admin_port)
        + " level admin\n    stats timeout 30s\n    maxconn 2000\n\ndefaults\n    mode http\n    timeout connect 5s\n    timeout client 30s\n    timeout server 30s\n\nfrontend fe\n    bind :8080\n    monitor-uri /haproxy-healthz\n    http-request return status 200 content-type text/plain "@
}

/// What a configuration of one version has its load balancer report.
pub open spec fn config_report(version: Seq<char>) -> Seq<char> {
    "lf-string \"haproxy "@ + version + "\""@
}

/// The line that opens the servers of the configuration.
pub open spec fn backend_line(backend: Seq<char>) -> Seq<char> {
    "backend "@ + backend + "\n"@
}

/// The part of the configuration from what it reports to the servers.
pub open spec fn config_middle(backend: Seq<char>) -> Seq<char> {
    " if { path /haproxy-version }\n    default_backend "@ + backend + "\n\n"@ + backend_line(
        backend,
    )
}

/// The line of a server. It asks for no check: membership is told to the load balancer.
pub open spec fn server_line(server: BackendServer) -> Seq<char> {
    "    server "@ + server.node@ + " "@ + server.address@ + "\n"@
}

/// The lines of the servers, in order.
pub open spec fn server_lines(servers: Seq<BackendServer>) -> Seq<char> {
    glued(Seq::new(servers.len(), |i: int| server_line(servers[i])))
}

/// The configuration of a load balancer of one version, with every server declared.
pub open spec fn config_text(
    version: Seq<char>,
    servers: Seq<BackendServer>,
    admin_port: nat,
    backend: Seq<char>,
) -> Seq<char> {
    config_start(admin_port) + config_report(version) + config_middle(backend) + server_lines(
        servers,
    )
}

/// The configuration of a load balancer of one version, with every server declared.
pub fn haproxy_cfg(
    version: &str,
    servers: &Vec<BackendServer>,
    admin_port: u16,
    backend: &str,
) -> (result: String)
    ensures
        result@ == config_text(version@, servers@, admin_port as nat, backend@),
{
    let mut text = String::from_str("global\n    stats socket ipv4@0.0.0.0:");
    text.append(decimal(admin_port as u64).as_str());
    text.append(
        " level admin\n    stats timeout 30s\n    maxconn 2000\n\ndefaults\n    mode http\n    timeout connect 5s\n    timeout client 30s\n    timeout server 30s\n\nfrontend fe\n    bind :8080\n    monitor-uri /haproxy-healthz\n    http-request return status 200 content-type text/plain ",
    );
    text.append("lf-string \"haproxy ");
    text.append(version);
    text.append("\"");
    text.append(" if { path /haproxy-version }\n    default_backend ");
    text.append(backend);
    text.append("\n\n");
    text.append("backend ");
    text.append(backend);
    text.append("\n");
    let ghost head = config_start(admin_port as nat) + config_report(version@) + config_middle(
        backend@,
    );
    let mut index: usize = 0;
    assert(text@ =~= head + server_lines(servers@.take(0)));
    while index < servers.len()
        invariant
            index <= servers.len(),
            text@ == head + server_lines(servers@.take(index as int)),
        decreases servers.len() - index,
    {
        let ghost before = text@;
        text.append("    server ");
        text.append(servers[index].node.as_str());
        text.append(" ");
        text.append(servers[index].address.as_str());
        text.append("\n");
        proof {
            lemma_one_more_line(servers@.take(index as int), servers@[index as int]);
            assert(servers@.take(index + 1) =~= servers@.take(index as int).push(
                servers@[index as int],
            ));
            assert(text@ =~= before + server_line(servers@[index as int]));
            assert(text@ =~= head + server_lines(servers@.take(index + 1)));
        }
        index = index + 1;
    }
    assert(servers@.take(servers.len() as int) =~= servers@);
    text
}

proof fn lemma_one_more_line(servers: Seq<BackendServer>, server: BackendServer)
    ensures
        server_lines(servers.push(server)) == server_lines(servers) + server_line(server),
{
    let lines = Seq::new(servers.len(), |i: int| server_line(servers[i]));
    let more = servers.push(server);
    assert(Seq::new(more.len(), |i: int| server_line(more[i])) =~= lines.push(server_line(server)));
    assert(lines.push(server_line(server)).drop_last() =~= lines);
}

/// The upgrade changes nothing but the version that the load balancers report: the configurations of
/// two versions are the same text before and after what they report.
pub proof fn versions_differ_only_in_what_they_report(
    left: Seq<char>,
    right: Seq<char>,
    servers: Seq<BackendServer>,
    admin_port: nat,
    backend: Seq<char>,
)
    ensures
        ({
            let before = config_start(admin_port);
            let after = config_middle(backend) + server_lines(servers);
            &&& config_text(left, servers, admin_port, backend) == before + config_report(left)
                + after
            &&& config_text(right, servers, admin_port, backend) == before + config_report(right)
                + after
        }),
{
    let before = config_start(admin_port);
    let after = config_middle(backend) + server_lines(servers);
    assert(config_text(left, servers, admin_port, backend) =~= before + config_report(left)
        + after);
    assert(config_text(right, servers, admin_port, backend) =~= before + config_report(right)
        + after);
}

/// A configuration is that of no servers, which ends where they are to stand, and one line for each
/// server, in order.
pub proof fn servers_are_declared_line_by_line(
    version: Seq<char>,
    servers: Seq<BackendServer>,
    admin_port: nat,
    backend: Seq<char>,
)
    ensures
        config_text(version, servers, admin_port, backend) == config_text(
            version,
            Seq::empty(),
            admin_port,
            backend,
        ) + glued(Seq::new(servers.len(), |i: int| server_line(servers[i]))),
        has_suffix(
            config_text(version, Seq::empty(), admin_port, backend),
            backend_line(backend),
        ),
{
    let none = Seq::<BackendServer>::empty();
    let empty = config_text(version, none, admin_port, backend);
    let head = config_start(admin_port) + config_report(version) + config_middle(backend);
    assert(server_lines(none) =~= Seq::<char>::empty());
    assert(empty =~= head);
    assert(config_text(version, servers, admin_port, backend) =~= empty + server_lines(servers));
    let line = backend_line(backend);
    assert(empty.skip(empty.len() - line.len()) =~= line);
}

/// Where the load balancers are administered.
pub open spec fn admin_endpoint(ordinal: nat, admin_port: nat) -> Seq<char> {
    "haproxy-"@ + decimal_digits(ordinal) + ".agents:"@ + decimal_digits(admin_port)
}

/// Where so many load balancers are administered.
pub fn admin_endpoints(replicas: usize, admin_port: u16) -> (result: Vec<String>)
    ensures
        views(result@) == Seq::new(
            replicas as nat,
            |i: int| admin_endpoint(i as nat, admin_port as nat),
        ),
{
    let ghost all = Seq::new(
        replicas as nat,
        |i: int| admin_endpoint(i as nat, admin_port as nat),
    );
    let mut result: Vec<String> = Vec::new();
    let mut ordinal: usize = 0;
    assert(views(result@) =~= all.take(0));
    while ordinal < replicas
        invariant
            ordinal <= replicas,
            all == Seq::new(
                replicas as nat,
                |i: int| admin_endpoint(i as nat, admin_port as nat),
            ),
            views(result@) == all.take(ordinal as int),
        decreases replicas - ordinal,
    {
        let ghost before = result@;
        let mut endpoint = crate::naming::numbered("haproxy-", ordinal);
        endpoint.append(".agents:");
        endpoint.append(decimal(admin_port as u64).as_str());
        result.push(endpoint);
        assert(views(result@) =~= views(before).push(endpoint@));
        assert(all.take(ordinal + 1) =~= all.take(ordinal as int).push(all[ordinal as int]));
        ordinal = ordinal + 1;
    }
    assert(all.take(replicas as int) =~= all);
    result
}

/// Whether every one of some reports says this version.
pub open spec fn all_report(reports: Seq<Option<String>>, version: Seq<char>) -> bool {
    forall|i: int| 0 <= i < reports.len() ==> says(view_of(#[trigger] reports[i]), version)
}

/// Whether every one of some reports says this version.
pub fn check_reports(reports: &Vec<Option<String>>, version: &str) -> (result: bool)
    ensures
        result == all_report(reports@, version@),
{
    let mut index: usize = 0;
    while index < reports.len()
        invariant
            index <= reports.len(),
            forall|i: int| 0 <= i < index ==> says(view_of(#[trigger] reports@[i]), version@),
        decreases reports.len() - index,
    {
        if !value_says(&reports[index], version) {
            assert(!says(view_of(reports@[index as int]), version@));
            return false;
        }
        index = index + 1;
    }
    true
}

/// Whether the front served a page: it is not blank.
pub fn is_serving(body: &str) -> (result: bool)
    ensures
        result == (trimmed(body@).len() > 0),
{
    trim(body).unicode_len() > 0
}

/// Whether the front reports a version.
pub fn reports_running(body: &str, version: &str) -> (result: bool)
    ensures
        result == (trimmed(body@) == "haproxy "@ + version@),
{
    let mut wanted = String::from_str("haproxy ");
    wanted.append(version);
    same(trim(body), wanted.as_str())
}

/// The path and digest of the release that the tier is upgraded to, from what its annotations say.
pub fn next_target(path: &str, sha: &str) -> (result: Result<(String, String), String>)
    ensures
        match result {
            Ok((next_path, next_sha)) => {
                &&& next_path@ == trimmed(path@) && next_path@.len() > 0
                &&& next_sha@ == trimmed(sha@) && next_sha@.len() > 0
            },
            Err(message) => (trimmed(path@).len() == 0 || trimmed(sha@).len() == 0) && message@
                == "HAProxy group carries no pre-published 2.0.0 target annotation"@,
        },
{
    let next_path = trim(path);
    let next_sha = trim(sha);
    if next_path.unicode_len() == 0 || next_sha.unicode_len() == 0 {
        return Err("HAProxy group carries no pre-published 2.0.0 target annotation".to_owned());
    }
    Ok((next_path.to_owned(), next_sha.to_owned()))
}

/// A version is reported by all exactly when every report, without the blanks around it, is that version;
/// one report that could not be read is enough for it not to be.
pub proof fn every_load_balancer_reports(reports: Seq<Option<String>>, version: Seq<char>, index: int)
    requires
        0 <= index < reports.len(),
    ensures
        all_report(reports, version) ==> reports[index] is Some && trimmed(reports[index]->Some_0@)
            == version,
        reports.len() == 1 ==> (all_report(reports, version) <==> reports[index] is Some && trimmed(
            reports[index]->Some_0@,
        ) == version),
{
    if all_report(reports, version) {
        assert(says(view_of(reports[index]), version));
    }
}

/// A server is declared by its resource and its address, on a line of its own, and none asks for a
/// check.
pub proof fn servers_are_declared_by_name_and_address(server: BackendServer, ordinal: nat)
    ensures
        server_line(server) == "    server "@ + server.node@ + " "@ + server.address@ + "\n"@,
        server_on(ordinal).0 == enrolled_name(agent_name(ordinal)),
        server_on(ordinal).1 == agent_name(ordinal) + ".agents:8080"@,
{
}

} // verus!
