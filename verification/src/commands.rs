//! The command lines that the exercise runs, and what it reads from their output.

use crate::encoding::{bytes_text, read_text, read_utf8};
use crate::soak::config::{join_path, joined_path};
use crate::text::{
    appended, decimal, decimal_digits, has_substring, holds, is_blank, lines, lines_of, listed,
    occurs_at, parse_usize, parsed_unsigned, replace_char, replaced, same, trim, trimmed, view_of,
    views, words, words_of,
};
use vstd::prelude::*;
use vstd::utf8::{decode_utf8, valid_utf8};

verus! {

/// The namespace that everything runs in.
pub const NAMESPACE: &'static str = "updated-system";

/// The node that the lifecycle's audit log and receipt are read from.
pub const LIFECYCLE_NODE: &'static str = "agent-4";

// ----- output -----

/// Why a command has no output.
pub enum OutputError {
    /// It failed; this is what it said.
    Failed(String),
    /// It succeeded, and its output is not text.
    NotUtf8,
}

/// What a command's output says: its text, trimmed, if the command succeeded.
pub open spec fn is_output(
    success: bool,
    stdout: Seq<u8>,
    stderr: Seq<u8>,
    result: Result<String, OutputError>,
) -> bool {
    if !success {
        result is Err && result->Err_0 is Failed && result->Err_0->Failed_0@ == trimmed(
            bytes_text(stderr),
        )
    } else if valid_utf8(stdout) {
        result is Ok && result->Ok_0@ == trimmed(decode_utf8(stdout))
    } else {
        result == Err::<String, OutputError>(OutputError::NotUtf8)
    }
}

/// What a command's output says.
pub fn output(success: bool, stdout: &Vec<u8>, stderr: &Vec<u8>) -> (result: Result<
    String,
    OutputError,
>)
    ensures
        is_output(success, stdout@, stderr@, result),
{
    if !success {
        let said = read_text(stderr.as_slice());
        return Err(OutputError::Failed(trim(said.as_str()).to_owned()));
    }
    match read_utf8(stdout.as_slice()) {
        Some(text) => {
            proof {
                vstd::utf8::encode_utf8_valid_utf8(text@);
                vstd::utf8::encode_utf8_decode_utf8(text@);
            }
            Ok(trim(text.as_str()).to_owned())
        },
        None => Err(OutputError::NotUtf8),
    }
}

/// Whether a command that was only tried for being there can be run: it ran, whatever came of it.
pub fn command_exists(name: &str, ran: bool, exited: bool) -> (result: Result<(), String>)
    ensures
        match result {
            Ok(_) => ran && exited,
            Err(message) => {
                &&& !ran ==> message@ == "required command "@ + crate::text::quoted_text(name@)
                    + " is not installed"@
                &&& ran ==> !exited && message@ == "could not execute required command "@
                    + crate::text::quoted_text(name@)
            },
        },
{
    if !ran {
        let mut message = String::from_str("required command ");
        message.append(crate::text::quoted(name).as_str());
        message.append(" is not installed");
        return Err(message);
    }
    if exited {
        Ok(())
    } else {
        let mut message = String::from_str("could not execute required command ");
        message.append(crate::text::quoted(name).as_str());
        Err(message)
    }
}

// ----- the cluster -----

/// The context of a kind cluster.
pub fn kube_context(cluster: &str) -> (result: String)
    ensures
        result@ == "kind-"@ + cluster@,
{
    let mut context = String::from_str("kind-");
    context.append(cluster);
    context
}

/// The arguments that pin a call to a kind cluster.
pub fn kubectl_context_args(cluster: &str) -> (result: Vec<String>)
    ensures
        views(result@) == seq!["--context"@, "kind-"@ + cluster@],
{
    let context = kube_context(cluster);
    listed(vec!["--context", context.as_str()])
}

/// The arguments that make a kind cluster the current one.
pub fn use_context_args(cluster: &str) -> (result: Vec<String>)
    ensures
        views(result@) == seq!["config"@, "use-context"@, "kind-"@ + cluster@],
{
    let context = kube_context(cluster);
    listed(vec!["config", "use-context", context.as_str()])
}

/// The arguments of `kind` that delete a cluster.
pub fn delete_cluster_args(cluster: &str) -> (result: Vec<String>)
    ensures
        views(result@) == seq!["delete"@, "cluster"@, "--name"@, cluster@],
{
    listed(vec!["delete", "cluster", "--name", cluster])
}

/// Whether a listing of clusters names one.
pub fn has_cluster(listing: &str, cluster: &str) -> (result: bool)
    ensures
        result == lines_of(listing@).contains(cluster@),
{
    holds(&lines(listing), cluster)
}

/// The directory of a chart.
pub fn chart_path(workspace: &str, name: &str) -> (result: String)
    ensures
        result@ == joined_path(joined_path(workspace@, "deploy/charts"@), name@),
{
    join_path(join_path(workspace, "deploy/charts").as_str(), name)
}

/// The arguments that read a node's capacity for pods.
pub fn pod_capacity_args() -> (result: Vec<String>)
    ensures
        views(result@) == seq![
            "get"@,
            "nodes"@,
            "-o"@,
            "jsonpath={.items[0].status.allocatable.pods}"@,
        ],
{
    listed(vec!["get", "nodes", "-o", "jsonpath={.items[0].status.allocatable.pods}"])
}

/// The capacity for pods that was read; none where it could not be read.
pub open spec fn pod_capacity(outcome: Option<Seq<char>>) -> nat {
    match outcome {
        Some(text) => match parsed_unsigned(trimmed(text), usize::MAX as nat) {
            Some(capacity) => capacity,
            None => 0,
        },
        None => 0,
    }
}

/// The capacity for pods that was read; none where it could not be read.
pub fn cluster_pod_capacity(outcome: &Option<String>) -> (result: usize)
    ensures
        result == pod_capacity(view_of(*outcome)),
{
    match outcome {
        Some(text) => match parse_usize(trim(text.as_str())) {
            Some(capacity) => capacity,
            None => 0,
        },
        None => 0,
    }
}

/// Why a node cannot hold the fleet.
pub open spec fn capacity_error(who: Seq<char>, capacity: nat, required: nat, services: nat) -> Seq<
    char,
> {
    who + " advertises capacity for "@ + decimal_digits(capacity) + " pods; at least "@
        + decimal_digits(required) + " are required for "@ + decimal_digits(services)
        + " services plus system workloads"@
}

/// Whether a node can hold the fleet.
pub fn check_capacity(who: &str, capacity: usize, required: usize, services: usize) -> (result:
    Result<(), String>)
    ensures
        match result {
            Ok(_) => capacity >= required,
            Err(message) => capacity < required && message@ == capacity_error(
                who@,
                capacity as nat,
                required as nat,
                services as nat,
            ),
        },
{
    if capacity >= required {
        return Ok(());
    }
    let mut message = String::from_str(who);
    message.append(" advertises capacity for ");
    message.append(decimal(capacity as u64).as_str());
    message.append(" pods; at least ");
    message.append(decimal(required as u64).as_str());
    message.append(" are required for ");
    message.append(decimal(services as u64).as_str());
    message.append(" services plus system workloads");
    Err(message)
}

// ----- resources -----

/// The arguments that read one value of a resource.
pub open spec fn value_args(kind: Seq<char>, name: Seq<char>, path: Seq<char>) -> Seq<Seq<char>> {
    seq!["-n"@, NAMESPACE@, "get"@, kind, name, "-o"@, "jsonpath="@ + path]
}

/// The arguments that read one value of a resource.
pub fn kubectl_value(kind: &str, name: &str, path: &str) -> (result: Vec<String>)
    ensures
        views(result@) == value_args(kind@, name@, path@),
{
    let mut selector = String::from_str("jsonpath=");
    selector.append(path);
    listed(vec!["-n", NAMESPACE, "get", kind, name, "-o", selector.as_str()])
}

/// A key as a path names it: with its dots escaped.
pub open spec fn escaped_key(key: Seq<char>) -> Seq<char> {
    replaced(key, '.', "\\."@)
}

/// The arguments that read one key of a secret.
pub fn secret_value(name: &str, key: &str) -> (result: Vec<String>)
    ensures
        views(result@) == value_args("secret"@, name@, "{.data."@ + escaped_key(key@) + "}"@),
{
    let mut path = String::from_str("{.data.");
    path.append(replace_char(key, '.', "\\.").as_str());
    path.append("}");
    kubectl_value("secret", name, path.as_str())
}

/// The arguments that read an annotation of a group.
pub fn annotation_args(group: &str, annotation: &str) -> (result: Vec<String>)
    ensures
        views(result@) == value_args(
            "updategroup"@,
            group@,
            "{.metadata.annotations['"@ + escaped_key(annotation@) + "']}"@,
        ),
{
    let mut path = String::from_str("{.metadata.annotations['");
    path.append(replace_char(annotation, '.', "\\.").as_str());
    path.append("']}");
    kubectl_value("updategroup", group, path.as_str())
}

/// The arguments that read a resource as JSON.
pub fn document_args(kind: &str, name: &str) -> (result: Vec<String>)
    ensures
        views(result@) == seq!["-n"@, NAMESPACE@, "get"@, kind@, name@, "-o"@, "json"@],
{
    listed(vec!["-n", NAMESPACE, "get", kind, name, "-o", "json"])
}

/// The arguments that list the endpoints behind a service as JSON.
pub fn endpoint_args(service: &str) -> (result: Vec<String>)
    ensures
        views(result@) == seq![
            "-n"@,
            NAMESPACE@,
            "get"@,
            "endpointslices"@,
            "-l"@,
            "kubernetes.io/service-name="@ + service@,
            "-o"@,
            "json"@,
        ],
{
    let mut selector = String::from_str("kubernetes.io/service-name=");
    selector.append(service);
    listed(
        vec![
            "-n",
            NAMESPACE,
            "get",
            "endpointslices",
            "-l",
            selector.as_str(),
            "-o",
            "json",
        ],
    )
}

/// The arguments that merge a patch into a resource.
pub fn patch_args(kind: &str, name: &str, patch: &str) -> (result: Vec<String>)
    ensures
        views(result@) == seq![
            "-n"@,
            NAMESPACE@,
            "patch"@,
            kind@,
            name@,
            "--type=merge"@,
            "-p"@,
            patch@,
        ],
{
    listed(vec!["-n", NAMESPACE, "patch", kind, name, "--type=merge", "-p", patch])
}

/// The arguments that delete resources which need not be there.
pub fn delete_args(kind: &str, names: Vec<&str>) -> (result: Vec<String>)
    ensures
        views(result@) == seq!["-n"@, NAMESPACE@, "delete"@, kind@] + crate::text::str_views(names@)
            + seq!["--ignore-not-found"@],
{
    let head = appended(listed(vec!["-n", NAMESPACE, "delete", kind]), listed(names));
    appended(head, listed(vec!["--ignore-not-found"]))
}

/// The arguments that set the number of agents.
pub fn scale_args(replicas: usize) -> (result: Vec<String>)
    ensures
        views(result@) == seq![
            "-n"@,
            NAMESPACE@,
            "scale"@,
            "statefulset/agent"@,
            "--replicas="@ + decimal_digits(replicas as nat),
        ],
{
    let mut count = String::from_str("--replicas=");
    count.append(decimal(replicas as u64).as_str());
    listed(vec!["-n", NAMESPACE, "scale", "statefulset/agent", count.as_str()])
}

/// The arguments that wait for a rollout.
pub fn rollout_status_args(resource: &str, timeout_seconds: u64) -> (result: Vec<String>)
    ensures
        views(result@) == seq![
            "-n"@,
            NAMESPACE@,
            "rollout"@,
            "status"@,
            resource@,
            "--timeout="@ + decimal_digits(timeout_seconds as nat) + "s"@,
        ],
{
    let mut timeout = String::from_str("--timeout=");
    timeout.append(decimal(timeout_seconds).as_str());
    timeout.append("s");
    listed(vec!["-n", NAMESPACE, "rollout", "status", resource, timeout.as_str()])
}

/// The arguments that restart a rollout.
pub fn rollout_restart_args(resource: &str) -> (result: Vec<String>)
    ensures
        views(result@) == seq!["-n"@, NAMESPACE@, "rollout"@, "restart"@, resource@],
{
    listed(vec!["-n", NAMESPACE, "rollout", "restart", resource])
}

/// The arguments that forward a local port to a service.
pub fn port_forward_args(service: &str, port: &str) -> (result: Vec<String>)
    ensures
        views(result@) == seq![
            "-n"@,
            NAMESPACE@,
            "port-forward"@,
            "service/"@ + service@,
            port@ + ":80"@,
        ],
{
    let mut target = String::from_str("service/");
    target.append(service);
    let mut ports = String::from_str(port);
    ports.append(":80");
    listed(vec!["-n", NAMESPACE, "port-forward", target.as_str(), ports.as_str()])
}

// ----- running things in pods -----

/// The arguments that run a command in the release server.
pub open spec fn release_server_args(command: Seq<Seq<char>>) -> Seq<Seq<char>> {
    seq!["-n"@, NAMESPACE@, "exec"@, "deployment/release-server"@, "-c"@, "release-server"@, "--"@]
        + command
}

/// The arguments that run a command in the release server.
pub fn release_server_exec(command: Vec<&str>) -> (result: Vec<String>)
    ensures
        views(result@) == release_server_args(crate::text::str_views(command@)),
{
    appended(
        listed(
            vec![
                "-n",
                NAMESPACE,
                "exec",
                "deployment/release-server",
                "-c",
                "release-server",
                "--",
            ],
        ),
        listed(command),
    )
}

/// The arguments that run a shell script in the release server.
pub fn release_server_script(script: &str) -> (result: Vec<String>)
    ensures
        views(result@) == release_server_args(seq!["sh"@, "-c"@, script@]),
{
    release_server_exec(vec!["sh", "-c", script])
}

/// The arguments that run a shell script in the release server, fed from standard input.
pub fn release_server_pipe(script: &str) -> (result: Vec<String>)
    ensures
        views(result@) == seq![
            "-n"@,
            NAMESPACE@,
            "exec"@,
            "-i"@,
            "deployment/release-server"@,
            "-c"@,
            "release-server"@,
            "--"@,
            "sh"@,
            "-c"@,
            script@,
        ],
{
    listed(
        vec![
            "-n",
            NAMESPACE,
            "exec",
            "-i",
            "deployment/release-server",
            "-c",
            "release-server",
            "--",
            "sh",
            "-c",
            script,
        ],
    )
}

/// The arguments that run a command in a node's agent container.
pub open spec fn agent_args(pod: Seq<char>, command: Seq<Seq<char>>) -> Seq<Seq<char>> {
    seq!["-n"@, NAMESPACE@, "exec"@, pod, "-c"@, "agent"@, "--"@] + command
}

/// The arguments that run a command in a node's agent container.
pub fn agent_exec(pod: &str, command: Vec<&str>) -> (result: Vec<String>)
    ensures
        views(result@) == agent_args(pod@, crate::text::str_views(command@)),
{
    appended(listed(vec!["-n", NAMESPACE, "exec", pod, "-c", "agent", "--"]), listed(command))
}

/// The arguments that ask the release server for the digest of a target.
pub fn repository_target_sha(name: &str) -> (result: Vec<String>)
    ensures
        views(result@) == release_server_args(
            seq![
                "server"@,
                "target-sha256"@,
                "--repo"@,
                "/data/repository"@,
                "--name"@,
                name@,
            ],
        ),
{
    release_server_exec(
        vec!["server", "target-sha256", "--repo", "/data/repository", "--name", name],
    )
}

/// The arguments that ask the release server for the platform that it publishes for.
pub fn repository_platform() -> (result: Vec<String>)
    ensures
        views(result@) == release_server_args(seq!["cat"@, "/data/platform"@]),
{
    release_server_exec(vec!["cat", "/data/platform"])
}

/// The arguments that read the root of the release repository.
pub fn release_root_args() -> (result: Vec<String>)
    ensures
        views(result@) == release_server_args(seq!["cat"@, "/data/release-keys/root.json"@]),
{
    release_server_exec(vec!["cat", "/data/release-keys/root.json"])
}

/// The arguments that fetch a page from inside the cluster.
pub fn cluster_curl(url: &str) -> (result: Vec<String>)
    ensures
        views(result@) == release_server_args(
            seq!["curl"@, "-sf"@, "--max-time"@, "3"@, url@],
        ),
{
    release_server_exec(vec!["curl", "-sf", "--max-time", "3", url])
}

/// The arguments that read the lifecycle's audit log.
pub fn lifecycle_audit(state: &str) -> (result: Vec<String>)
    ensures
        views(result@) == agent_args(
            LIFECYCLE_NODE@,
            seq!["cat"@, joined_path(state@, "audit/lifecycle.tsv"@)],
        ),
{
    let path = join_path(state, "audit/lifecycle.tsv");
    agent_exec(LIFECYCLE_NODE, vec!["cat", path.as_str()])
}

/// The arguments that list the markers of an attempt.
pub fn lifecycle_markers_args(state: &str, attempt: &str) -> (result: Vec<String>)
    ensures
        views(result@) == agent_args(
            LIFECYCLE_NODE@,
            seq!["ls"@, "-1"@, joined_path(joined_path(state@, "attempts"@), attempt@)],
        ),
{
    let path = join_path(join_path(state, "attempts").as_str(), attempt);
    agent_exec(LIFECYCLE_NODE, vec!["ls", "-1", path.as_str()])
}

/// The arguments that read the lifecycle's receipt.
pub fn lifecycle_receipt_args(state: &str) -> (result: Vec<String>)
    ensures
        views(result@) == agent_args(
            LIFECYCLE_NODE@,
            seq!["cat"@, joined_path(state@, "legacy-java-home/change-ticket.receipt"@)],
        ),
{
    let path = join_path(state, "legacy-java-home/change-ticket.receipt");
    agent_exec(LIFECYCLE_NODE, vec!["cat", path.as_str()])
}

// ----- what single values say -----

/// Whether a value that was read says `expected`; one that could not be read does not.
pub open spec fn says(outcome: Option<Seq<char>>, expected: Seq<char>) -> bool {
    outcome is Some && trimmed(outcome->Some_0) == expected
}

/// Whether a value that was read says `expected`; one that could not be read does not.
pub fn value_says(outcome: &Option<String>, expected: &str) -> (result: bool)
    ensures
        result == says(view_of(*outcome), expected@),
{
    match outcome {
        Some(text) => same(trim(text.as_str()), expected),
        None => false,
    }
}

/// A value that was read, trimmed; nothing where it is blank or could not be read.
pub open spec fn present_value(outcome: Option<Seq<char>>) -> Option<Seq<char>> {
    match outcome {
        Some(text) => if trimmed(text).len() == 0 {
            None
        } else {
            Some(trimmed(text))
        },
        None => None,
    }
}

/// A value that was read, trimmed; nothing where it is blank or could not be read.
pub fn read_value(outcome: &Option<String>) -> (result: Option<String>)
    ensures
        view_of(result) == present_value(view_of(*outcome)),
{
    match outcome {
        Some(text) => {
            let value = trim(text.as_str());
            if value.unicode_len() == 0 {
                None
            } else {
                Some(value.to_owned())
            }
        },
        None => None,
    }
}

/// The words of a value that was read; none where it could not be read.
pub open spec fn value_words(outcome: Option<Seq<char>>) -> Seq<Seq<char>> {
    match outcome {
        Some(text) => words_of(text),
        None => Seq::empty(),
    }
}

/// The words of a value that was read; none where it could not be read.
pub fn read_words(outcome: &Option<String>) -> (result: Vec<String>)
    ensures
        views(result@) == value_words(view_of(*outcome)),
{
    match outcome {
        Some(text) => words(text.as_str()),
        None => {
            let result: Vec<String> = Vec::new();
            assert(views(result@) =~= Seq::<Seq<char>>::empty());
            result
        },
    }
}

/// A value is there unless it is blank or could not be read, and then it neither begins nor ends with a
/// blank; nothing is said where nothing could be read.
pub proof fn values_are_read_without_outer_blanks(text: Seq<char>, expected: Seq<char>)
    ensures
        present_value(None) is None,
        !says(None, expected),
        value_words(None).len() == 0,
        present_value(Some(text)) is None <==> (forall|i: int|
            0 <= i < text.len() ==> is_blank(#[trigger] text[i])),
        match present_value(Some(text)) {
            Some(value) => value.len() > 0 && !is_blank(value[0]) && !is_blank(value.last())
                && has_substring(text, value) && says(Some(text), value),
            None => says(Some(text), Seq::empty()),
        },
        expected.len() > 0 && !is_blank(expected[0]) && !is_blank(expected.last()) ==> says(
            Some(expected),
            expected,
        ),
{
    let (from, to) = crate::text::trimming_drops_outer_blanks_only(text);
    if trimmed(text).len() > 0 {
        assert(occurs_at(text, trimmed(text), from));
    } else {
        assert(trimmed(text) =~= Seq::<char>::empty());
    }
    if expected.len() > 0 && !is_blank(expected[0]) && !is_blank(expected.last()) {
        crate::text::lemma_nothing_to_trim(expected);
    }
}

/// A capacity is what the node states, and none where it states no number.
pub proof fn capacity_is_what_a_node_states(capacity: nat, text: Seq<char>)
    requires
        capacity <= usize::MAX,
        parsed_unsigned(trimmed(text), usize::MAX as nat) is None,
    ensures
        pod_capacity(Some(decimal_digits(capacity))) == capacity,
        pod_capacity(Some(text)) == 0,
        pod_capacity(None) == 0,
{
    crate::text::decimal_round_trip(capacity, usize::MAX as nat);
    crate::text::lemma_decimal_shape(capacity);
    let digits = decimal_digits(capacity);
    assert(crate::text::is_digit(digits[0]));
    assert(crate::text::is_digit(digits[digits.len() - 1]));
    crate::text::lemma_nothing_to_trim(digits);
}

/// A command that failed has what it said as its error, however it wrote its output; one that succeeded
/// has its output, unless that is no text.
pub proof fn output_is_that_of_a_success(
    success: bool,
    stdout: Seq<u8>,
    stderr: Seq<u8>,
    result: Result<String, OutputError>,
)
    requires
        is_output(success, stdout, stderr, result),
    ensures
        result is Ok <==> success && valid_utf8(stdout),
        result is Err && result->Err_0 is Failed <==> !success,
        !success ==> result->Err_0->Failed_0@ == trimmed(bytes_text(stderr)),
        result is Ok ==> result->Ok_0@ == trimmed(decode_utf8(stdout)),
{
}

/// Every command that runs in a pod, or reads a value, stays in the namespace that everything runs in,
/// names what it is about, and hands on what it is to run.
pub proof fn commands_stay_in_their_namespace(
    kind: Seq<char>,
    name: Seq<char>,
    path: Seq<char>,
    pod: Seq<char>,
    command: Seq<Seq<char>>,
)
    ensures
        value_args(kind, name, path) == seq!["-n"@, "updated-system"@, "get"@, kind, name, "-o"@]
            + seq!["jsonpath="@ + path],
        agent_args(pod, command).take(7) == seq![
            "-n"@,
            "updated-system"@,
            "exec"@,
            pod,
            "-c"@,
            "agent"@,
            "--"@,
        ],
        agent_args(pod, command).skip(7) == command,
        release_server_args(command).skip(7) == command,
        release_server_args(command)[3] == "deployment/release-server"@,
        release_server_args(command)[5] == "release-server"@,
{
    assert(agent_args(pod, command).take(7) =~= seq![
        "-n"@,
        "updated-system"@,
        "exec"@,
        pod,
        "-c"@,
        "agent"@,
        "--"@,
    ]);
    assert(agent_args(pod, command).skip(7) =~= command);
    assert(release_server_args(command).skip(7) =~= command);
}

/// A path names a key with every dot escaped, and nothing else of it changed.
pub proof fn dots_are_escaped(left: Seq<char>, right: Seq<char>)
    requires
        crate::text::is_without(left, '.'),
    ensures
        escaped_key(left) == left,
        escaped_key(left + seq!['.'] + right) == left + "\\."@ + escaped_key(right),
{
    crate::text_laws::replacing_touches_one_character(left, right, '.', "\\."@);
}

} // verus!
