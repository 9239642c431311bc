//! What the demo's program is asked to do, and the labels it keeps in place.

use crate::demo::layout::{node_set, node_set_index, set_name, set_name_text, DEMO_NODE_COUNT};
use crate::e2e::entry::SetAssignment;
use crate::naming::{agent_hostname, agent_name};
use crate::text::{holds, parse_usize, parsed_unsigned, quoted, quoted_text, same, views};
use vstd::prelude::*;

verus! {

/// What the program is asked to do.
pub enum Entry {
    /// Build the demo and open it.
    Start,
    /// Build the demo and exercise it; leave when that is done, where asked.
    Exercise { exit_after: bool },
    /// Prepare the demo on a cluster that is there.
    Setup,
    /// Exercise a demo that is there so many times.
    Repeat(usize),
    /// Take the demo down.
    Reset,
    /// Print the name that a host enrolls under.
    AgentName(String),
    /// Serve the console.
    Serve,
}

/// How often a demo that is there is exercised: once, where nothing else is said.
pub open spec fn passes_in(arguments: Seq<Seq<char>>) -> nat {
    if arguments.len() > 1 {
        match parsed_unsigned(arguments[1], usize::MAX as nat) {
            Some(passes) => passes,
            None => 1,
        }
    } else {
        1
    }
}

/// Whether an entry is what some arguments, without the program's name, ask for.
pub open spec fn is_entry(arguments: Seq<Seq<char>>, entry: Entry) -> bool {
    if arguments.len() == 0 || arguments[0] == "serve"@ {
        entry is Serve
    } else if arguments[0] == "start"@ {
        entry is Start
    } else if arguments[0] == "e2e"@ {
        entry is Exercise && entry->exit_after == arguments.contains("--exit"@)
    } else if arguments[0] == "setup"@ {
        entry is Setup
    } else if arguments[0] == "exercise"@ {
        entry is Repeat && entry->Repeat_0 == passes_in(arguments)
    } else if arguments[0] == "reset"@ {
        entry is Reset
    } else {
        arguments[0] == "agent-name"@ && arguments.len() > 1 && entry is AgentName
            && entry->AgentName_0@ == arguments[1]
    }
}

/// Whether the program knows a command.
pub open spec fn is_command(text: Seq<char>) -> bool {
    text == "serve"@ || text == "start"@ || text == "e2e"@ || text == "setup"@ || text
        == "exercise"@ || text == "reset"@ || text == "agent-name"@
}

/// Why some arguments ask for nothing that the program does, if they do not.
pub open spec fn entry_error(arguments: Seq<Seq<char>>) -> Option<Seq<char>> {
    if arguments.len() == 0 {
        None
    } else if !is_command(arguments[0]) {
        Some(
            "unknown command "@ + quoted_text(arguments[0])
                + "; use start, setup, e2e [--exit], exercise [passes], serve, agent-name <hostname>, or reset"@,
        )
    } else if arguments[0] == "agent-name"@ && arguments.len() < 2 {
        Some("agent-name needs a hostname: `updatec-demo agent-name <hostname>`"@)
    } else {
        None
    }
}

/// The commands are seven different words.
pub proof fn lemma_commands_differ()
    ensures
        "serve"@ != "start"@,
        "serve"@ != "e2e"@,
        "serve"@ != "setup"@,
        "serve"@ != "exercise"@,
        "serve"@ != "reset"@,
        "serve"@ != "agent-name"@,
        "start"@ != "agent-name"@,
        "e2e"@ != "agent-name"@,
        "setup"@ != "agent-name"@,
        "exercise"@ != "agent-name"@,
        "reset"@ != "agent-name"@,
{
    reveal_strlit("serve");
    reveal_strlit("start");
    reveal_strlit("e2e");
    reveal_strlit("setup");
    reveal_strlit("exercise");
    reveal_strlit("reset");
    reveal_strlit("agent-name");
    assert("serve"@[1] == 'e' && "start"@[1] == 't' && "setup"@[2] == 't' && "serve"@[2] == 'r');
    assert("reset"@[0] == 'r' && "serve"@[0] == 's');
    assert("e2e"@.len() == 3 && "exercise"@.len() == 8 && "agent-name"@.len() == 10);
    assert("serve"@.len() == 5 && "start"@.len() == 5 && "setup"@.len() == 5 && "reset"@.len()
        == 5);
}

/// What some arguments, without the program's name, ask for.
pub fn read_entry(arguments: &Vec<String>) -> (result: Result<Entry, String>)
    ensures
        match result {
            Ok(entry) => entry_error(views(arguments@)) is None && is_entry(
                views(arguments@),
                entry,
            ),
            Err(message) => entry_error(views(arguments@)) == Some(message@),
        },
{
    let ghost given = views(arguments@);
    assert(given.len() == arguments@.len());
    if arguments.len() == 0 {
        return Ok(Entry::Serve);
    }
    proof {
        lemma_commands_differ();
    }
    assert(given[0] == arguments@[0]@);
    let command = arguments[0].as_str();
    if same(command, "serve") {
        return Ok(Entry::Serve);
    }
    if same(command, "start") {
        return Ok(Entry::Start);
    }
    if same(command, "e2e") {
        return Ok(Entry::Exercise { exit_after: holds(arguments, "--exit") });
    }
    if same(command, "setup") {
        return Ok(Entry::Setup);
    }
    if same(command, "exercise") {
        if arguments.len() > 1 {
            assert(given[1] == arguments@[1]@);
            return match parse_usize(arguments[1].as_str()) {
                Some(passes) => Ok(Entry::Repeat(passes)),
                None => Ok(Entry::Repeat(1)),
            };
        }
        return Ok(Entry::Repeat(1));
    }
    if same(command, "reset") {
        return Ok(Entry::Reset);
    }
    if same(command, "agent-name") {
        if arguments.len() < 2 {
            return Err(
                String::from_str(
                    "agent-name needs a hostname: `updatec-demo agent-name <hostname>`",
                ),
            );
        }
        return Ok(Entry::AgentName(arguments[1].clone()));
    }
    let mut message = String::from_str("unknown command ");
    message.append(quoted(command).as_str());
    message.append(
        "; use start, setup, e2e [--exit], exercise [passes], serve, agent-name <hostname>, or reset",
    );
    Err(message)
}

/// The sets of the fleet's pods. A pod that is replaced comes back without its label, so it is set
/// again and again.
pub fn pod_sets() -> (result: Vec<SetAssignment>)
    ensures
        result@.len() == DEMO_NODE_COUNT,
        forall|i: int|
            0 <= i < DEMO_NODE_COUNT ==> (#[trigger] result@[i]).pod@ == agent_name(i as nat)
                && node_set(agent_name(i as nat)) is Some && result@[i].set@ == set_name_text(
                node_set(agent_name(i as nat))->0,
            ),
{
    let mut result: Vec<SetAssignment> = Vec::new();
    let mut ordinal: usize = 0;
    while ordinal < DEMO_NODE_COUNT
        invariant
            ordinal <= DEMO_NODE_COUNT,
            result@.len() == ordinal,
            forall|i: int|
                0 <= i < ordinal ==> (#[trigger] result@[i]).pod@ == agent_name(i as nat)
                    && node_set(agent_name(i as nat)) is Some && result@[i].set@ == set_name_text(
                    node_set(agent_name(i as nat))->0,
                ),
        decreases DEMO_NODE_COUNT - ordinal,
    {
        let pod = agent_hostname(ordinal);
        proof {
            crate::naming::agent_names_round_trip(ordinal as nat);
        }
        match node_set_index(pod.as_str()) {
            Some(set) => result.push(SetAssignment { pod, set: set_name(set) }),
            None => {},
        }
        ordinal = ordinal + 1;
    }
    result
}

/// Every command asks for what it names, the lack of one for the console; a demo is exercised as often
/// as asked, and once where nothing that reads as a number is said.
pub proof fn commands_ask_for_what_they_name(arguments: Seq<Seq<char>>, entry: Entry)
    requires
        entry_error(arguments) is None,
        is_entry(arguments, entry),
    ensures
        entry is Serve <==> arguments.len() == 0 || arguments[0] == "serve"@,
        entry is Start <==> arguments.len() > 0 && arguments[0] == "start"@,
        entry is Exercise <==> arguments.len() > 0 && arguments[0] == "e2e"@,
        entry is Exercise ==> (entry->exit_after <==> exists|i: int|
            0 <= i < arguments.len() && arguments[i] == "--exit"@),
        entry is Setup <==> arguments.len() > 0 && arguments[0] == "setup"@,
        entry is Repeat <==> arguments.len() > 0 && arguments[0] == "exercise"@,
        entry is Repeat && arguments.len() == 1 ==> entry->Repeat_0 == 1,
        entry is Repeat && arguments.len() > 1 ==> entry->Repeat_0 == (match parsed_unsigned(
            arguments[1],
            usize::MAX as nat,
        ) {
            Some(passes) => passes,
            None => 1,
        }),
        entry is Reset <==> arguments.len() > 0 && arguments[0] == "reset"@,
        entry is AgentName <==> arguments.len() > 1 && arguments[0] == "agent-name"@,
        entry is AgentName ==> entry->AgentName_0@ == arguments[1],
{
    lemma_commands_differ();
    reveal_strlit("serve");
    reveal_strlit("start");
    reveal_strlit("e2e");
    reveal_strlit("setup");
    reveal_strlit("exercise");
    reveal_strlit("reset");
    assert("serve"@.len() == 5 && "start"@.len() == 5 && "e2e"@.len() == 3 && "setup"@.len() == 5);
    assert("exercise"@.len() == 8 && "reset"@.len() == 5);
    assert("serve"@[2] == 'r' && "setup"@[2] == 't' && "start"@[1] == 't' && "setup"@[1] == 'e');
    assert("reset"@[0] == 'r' && "start"@[0] == 's' && "setup"@[0] == 's' && "serve"@[0] == 's');
}

/// A command is refused exactly where the program does not know it, or where it takes a host name and is
/// given none.
pub proof fn unknown_commands_are_refused(arguments: Seq<Seq<char>>)
    ensures
        entry_error(arguments) is None <==> arguments.len() == 0 || (arguments[0] == "serve"@
            || arguments[0] == "start"@ || arguments[0] == "e2e"@ || arguments[0] == "setup"@
            || arguments[0] == "exercise"@ || arguments[0] == "reset"@ || (arguments[0]
            == "agent-name"@ && arguments.len() > 1)),
{
    lemma_commands_differ();
}

} // verus!
