//! What the end-to-end program is asked to do, and the versions that its scenarios roll out.

use crate::e2e::layout::{node_set, node_set_index, set_name, set_name_text, NODE_COUNT};
use crate::naming::{agent_hostname, agent_name, major_of, major_version, version_major, version_of_major};
use crate::text::{
    number_fault, parse_u64, parsed_unsigned, quoted, quoted_text, same, views, write_number_fault,
};
use vstd::prelude::*;

verus! {

/// What the program is asked to do.
pub enum Entry {
    /// Print the name that a host enrolls under.
    AgentName(String),
    /// Receive alerts.
    AlertSink,
    /// Probe a URL, with a pause of so many milliseconds.
    LoadProbe(String, u64),
    /// Run the test.
    Test,
}

/// Whether an entry is what some arguments, without the program's name, ask for.
pub open spec fn is_entry(arguments: Seq<Seq<char>>, entry: Entry) -> bool {
    if arguments.len() == 0 {
        entry is Test
    } else if arguments[0] == "agent-name"@ {
        arguments.len() > 1 && entry is AgentName && entry->AgentName_0@ == arguments[1]
    } else if arguments[0] == "alert-sink"@ {
        entry is AlertSink
    } else {
        arguments[0] == "load-probe"@ && arguments.len() > 2 && entry is LoadProbe
            && entry->LoadProbe_0@ == arguments[1] && parsed_unsigned(
            arguments[2],
            u64::MAX as nat,
        ) == Some(entry->LoadProbe_1 as nat)
    }
}

/// Why some arguments ask for nothing that the program does, if they do not.
pub open spec fn entry_error(arguments: Seq<Seq<char>>) -> Option<Seq<char>> {
    if arguments.len() == 0 {
        None
    } else if arguments[0] == "agent-name"@ {
        if arguments.len() > 1 {
            None
        } else {
            Some("agent-name needs a hostname: `updatec-e2e agent-name <hostname>`"@)
        }
    } else if arguments[0] == "alert-sink"@ {
        None
    } else if arguments[0] == "load-probe"@ {
        if arguments.len() < 2 {
            Some("load-probe needs a URL: `updatec-e2e load-probe <url> <interval_ms>`"@)
        } else if arguments.len() < 3 {
            Some("load-probe needs an interval: `updatec-e2e load-probe <url> <interval_ms>`"@)
        } else if parsed_unsigned(arguments[2], u64::MAX as nat) is None {
            Some(number_fault(arguments[2]))
        } else {
            None
        }
    } else {
        Some(
            "unknown command "@ + quoted_text(arguments[0])
                + "; use `agent-name <hostname>`, `alert-sink`, `load-probe <url> <interval_ms>`, or no argument to run the e2e"@,
        )
    }
}

/// What some arguments, without the program's name, ask for.
pub fn read_entry(arguments: &Vec<String>) -> (result: Result<Entry, String>)
    ensures
        match result {
            Ok(entry) => entry_error(views(arguments@)) is None && is_entry(
                views(arguments@),
                entry,
            ),
            Err(message) => entry_error(views(arguments@)) == Some(message@),
        },
{
    let ghost given = views(arguments@);
    assert(given.len() == arguments@.len());
    if arguments.len() == 0 {
        return Ok(Entry::Test);
    }
    assert(given[0] == arguments@[0]@);
    let command = arguments[0].as_str();
    if same(command, "agent-name") {
        if arguments.len() < 2 {
            return Err(
                String::from_str(
                    "agent-name needs a hostname: `updatec-e2e agent-name <hostname>`",
                ),
            );
        }
        return Ok(Entry::AgentName(arguments[1].clone()));
    }
    if same(command, "alert-sink") {
        return Ok(Entry::AlertSink);
    }
    if same(command, "load-probe") {
        if arguments.len() < 2 {
            return Err(
                String::from_str(
                    "load-probe needs a URL: `updatec-e2e load-probe <url> <interval_ms>`",
                ),
            );
        }
        if arguments.len() < 3 {
            return Err(
                String::from_str(
                    "load-probe needs an interval: `updatec-e2e load-probe <url> <interval_ms>`",
                ),
            );
        }
        assert(given[1] == arguments@[1]@ && given[2] == arguments@[2]@);
        return match parse_u64(arguments[2].as_str()) {
            Some(interval) => Ok(Entry::LoadProbe(arguments[1].clone(), interval)),
            None => Err(write_number_fault(arguments[2].as_str())),
        };
    }
    let mut message = String::from_str("unknown command ");
    message.append(quoted(command).as_str());
    message.append(
        "; use `agent-name <hostname>`, `alert-sink`, `load-probe <url> <interval_ms>`, or no argument to run the e2e",
    );
    Err(message)
}

/// The versions that the scenarios after the generation roll out, each above all before it.
pub struct ScenarioVersions {
    pub node_controls: String,
    pub staleness: String,
    pub rollback_bad: String,
    pub rollback_fixed: String,
    pub dataflow: String,
    pub schedule: String,
}

/// The versions that the scenarios roll out, from the version that the fleet starts on.
pub fn scenario_versions(baseline: &str) -> (result: Result<ScenarioVersions, String>)
    requires
        major_of(baseline@) is Some ==> major_of(baseline@)->0 + 9 <= usize::MAX,
    ensures
        match (result, major_of(baseline@)) {
            (Ok(versions), Some(major)) => {
                &&& versions.node_controls@ == major_version(major + 4)
                &&& versions.staleness@ == major_version(major + 5)
                &&& versions.rollback_bad@ == major_version(major + 6)
                &&& versions.rollback_fixed@ == major_version(major + 7)
                &&& versions.dataflow@ == major_version(major + 8)
                &&& versions.schedule@ == major_version(major + 9)
            },
            (Err(message), None) => message@ == "unparseable baseline version"@,
            _ => false,
        },
{
    match version_major(baseline) {
        Some(major) => Ok(
            ScenarioVersions {
                node_controls: version_of_major(major + 4),
                staleness: version_of_major(major + 5),
                rollback_bad: version_of_major(major + 6),
                rollback_fixed: version_of_major(major + 7),
                dataflow: version_of_major(major + 8),
                schedule: version_of_major(major + 9),
            },
        ),
        None => Err(String::from_str("unparseable baseline version")),
    }
}

/// A pod and the set that it is labelled with.
pub struct SetAssignment {
    pub pod: String,
    pub set: String,
}

/// The sets of the fleet's pods. A pod that is replaced comes back without its label, so it is set
/// again and again.
pub fn pod_sets() -> (result: Vec<SetAssignment>)
    ensures
        result@.len() == NODE_COUNT,
        forall|i: int|
            0 <= i < NODE_COUNT ==> (#[trigger] result@[i]).pod@ == agent_name(i as nat)
                && node_set(agent_name(i as nat)) is Some && result@[i].set@ == set_name_text(
                node_set(agent_name(i as nat))->0,
            ),
{
    let mut result: Vec<SetAssignment> = Vec::new();
    let mut ordinal: usize = 0;
    while ordinal < NODE_COUNT
        invariant
            ordinal <= NODE_COUNT,
            result@.len() == ordinal,
            forall|i: int|
                0 <= i < ordinal ==> (#[trigger] result@[i]).pod@ == agent_name(i as nat)
                    && node_set(agent_name(i as nat)) is Some && result@[i].set@ == set_name_text(
                    node_set(agent_name(i as nat))->0,
                ),
        decreases NODE_COUNT - ordinal,
    {
        let pod = agent_hostname(ordinal);
        proof {
            crate::e2e::layout::nodes_belong_to_their_cohorts_set(ordinal as nat);
        }
        match node_set_index(pod.as_str()) {
            Some(set) => result.push(SetAssignment { pod, set: set_name(set) }),
            None => {},
        }
        ordinal = ordinal + 1;
    }
    result
}

/// Every command asks for what it names, and the lack of one for the test.
pub proof fn commands_ask_for_what_they_name(arguments: Seq<Seq<char>>, entry: Entry)
    requires
        entry_error(arguments) is None,
        is_entry(arguments, entry),
    ensures
        entry is Test <==> arguments.len() == 0,
        entry is AgentName <==> arguments.len() > 1 && arguments[0] == "agent-name"@,
        entry is AgentName ==> entry->AgentName_0@ == arguments[1],
        entry is AlertSink <==> arguments.len() > 0 && arguments[0] == "alert-sink"@,
        entry is LoadProbe <==> arguments.len() > 2 && arguments[0] == "load-probe"@,
        entry is LoadProbe ==> entry->LoadProbe_0@ == arguments[1] && parsed_unsigned(
            arguments[2],
            u64::MAX as nat,
        ) == Some(entry->LoadProbe_1 as nat),
{
    lemma_commands_differ();
}

proof fn lemma_commands_differ()
    ensures
        "agent-name"@ != "alert-sink"@,
        "agent-name"@ != "load-probe"@,
        "alert-sink"@ != "load-probe"@,
{
    reveal_strlit("agent-name");
    reveal_strlit("alert-sink");
    reveal_strlit("load-probe");
    assert("agent-name"@[1] == 'g' && "alert-sink"@[1] == 'l' && "load-probe"@[1] == 'o');
}

/// Arguments are refused exactly where they name no command, or one that lacks what it takes: a host, or
/// an address and a number of milliseconds.
pub proof fn incomplete_commands_are_refused(arguments: Seq<Seq<char>>)
    ensures
        entry_error(arguments) is None <==> arguments.len() == 0 || (arguments[0] == "agent-name"@
            && arguments.len() >= 2) || arguments[0] == "alert-sink"@ || (arguments[0]
            == "load-probe"@ && arguments.len() >= 3 && parsed_unsigned(
            arguments[2],
            u64::MAX as nat,
        ) is Some),
{
    lemma_commands_differ();
}

} // verus!
