//! Command lines, and how they reach the host from inside a sandbox.

use crate::text::{owned_views, views};
use vstd::prelude::*;

verus! {

/// A program and its arguments.
#[derive(Debug, Clone)]
pub struct CommandLine {
    pub program: String,
    pub args: Vec<String>,
}

/// What a command line holds.
#[verifier::ext_equal]
pub struct CommandView {
    pub program: Seq<char>,
    pub args: Seq<Seq<char>>,
}

impl View for CommandLine {
    type V = CommandView;

    open spec fn view(&self) -> CommandView {
        CommandView { program: self.program@, args: owned_views(self.args@) }
    }
}

/// The command as it is run on the host: as it stands, or handed to
/// `flatpak-spawn --host` inside a Flatpak sandbox.
pub open spec fn on_host(
    in_flatpak: bool,
    program: Seq<char>,
    args: Seq<Seq<char>>,
) -> CommandView {
    if in_flatpak {
        CommandView { program: "flatpak-spawn"@, args: seq!["--host"@, program] + args }
    } else {
        CommandView { program, args }
    }
}

/// The command that runs `program` with `args` on the host.
pub fn host_command(in_flatpak: bool, program: &str, args: &Vec<&str>) -> (res: CommandLine)
    ensures
        res@ == on_host(in_flatpak, program@, views(args@)),
{
    let mut list: Vec<String> = Vec::new();
    if in_flatpak {
        list.push("--host".to_owned());
        list.push(program.to_owned());
    }
    let ghost lead = owned_views(list@);
    proof {
        if in_flatpak {
            assert(lead =~= seq!["--host"@, program@]);
        } else {
            assert(lead =~= Seq::empty());
        }
    }
    let mut i: usize = 0;
    assert(lead + views(args@).take(0) =~= lead);
    while i < args.len()
        invariant
            i <= args@.len(),
            owned_views(list@) == lead + views(args@).take(i as int),
        decreases args@.len() - i,
    {
        let ghost before = list@;
        list.push(args[i].to_owned());
        proof {
            assert(owned_views(list@) =~= owned_views(before).push(args@[i as int]@));
            assert(lead + views(args@).take(i + 1) =~= (lead + views(args@).take(i as int)).push(
                args@[i as int]@,
            ));
        }
        i = i + 1;
    }
    proof {
        assert(views(args@).take(i as int) =~= views(args@));
        if !in_flatpak {
            assert(lead + views(args@) =~= views(args@));
        }
    }
    let name: String = if in_flatpak {
        "flatpak-spawn".to_owned()
    } else {
        program.to_owned()
    };
    CommandLine { program: name, args: list }
}

/// Inside the sandbox the host gets the very command line that is run outside it.
pub proof fn law_sandbox_hands_over(program: Seq<char>, args: Seq<Seq<char>>)
    ensures
        ({
            let inside = on_host(true, program, args);
            let outside = on_host(false, program, args);
            inside.program == "flatpak-spawn"@ && inside.args == seq![
                "--host"@,
                outside.program,
            ] + outside.args
        }),
{
}

/// Outside the sandbox a command is run as it stands; inside it the host is asked to run
/// the program with its arguments, in their order.
pub proof fn law_commands_on_host(program: Seq<char>, args: Seq<Seq<char>>, i: int)
    requires
        0 <= i < args.len(),
    ensures
        on_host(false, program, args).program == program,
        on_host(false, program, args).args == args,
        on_host(true, program, args).program == "flatpak-spawn"@,
        on_host(true, program, args).args.len() == args.len() + 2,
        on_host(true, program, args).args[0] == "--host"@,
        on_host(true, program, args).args[1] == program,
        on_host(true, program, args).args[i + 2] == args[i],
{
}

} // verus!
