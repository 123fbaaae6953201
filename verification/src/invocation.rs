//! Construction of the process invocation for the user command: the program
//! to spawn and its argument list, including the shell-command mode in which
//! the first command token is handed to a fixed shell as source text and the
//! remaining tokens become its positional parameters.

use vstd::prelude::*;

verus! {

/// A fully built process invocation: program name and argument list.
#[derive(Clone, Debug, PartialEq, Eq)]
pub struct Invocation {
    pub program: String,
    pub args: Vec<String>,
}

/// What the invocation for a command must look like. In shell mode the
/// program is the fixed shell binary and the arguments are `-c`, the first
/// command token, `--`, then the remaining tokens; otherwise the program is
/// the first token and the arguments are the remaining tokens.
pub open spec fn is_invocation_for(shell: bool, cmd: Seq<String>, inv: Invocation) -> bool {
    if shell {
        &&& inv.program@ == "/bin/bash"@
        &&& inv.args@.len() == cmd.len() + 2
        &&& inv.args@[0]@ == "-c"@
        &&& inv.args@[1]@ == cmd[0]@
        &&& inv.args@[2]@ == "--"@
        &&& (forall|i: int| 1 <= i < cmd.len() ==> #[trigger] inv.args@[i + 2]@ == cmd[i]@)
    } else {
        &&& inv.program@ == cmd[0]@
        &&& inv.args@.len() == cmd.len() - 1
        &&& (forall|i: int| 0 <= i < cmd.len() - 1 ==> #[trigger] inv.args@[i]@ == cmd[i + 1]@)
    }
}

/// Build the invocation for the configured command.
pub fn build_invocation(shell: bool, command: &Vec<String>) -> (r: Invocation)
    requires
        command@.len() >= 1,
    ensures
        is_invocation_for(shell, command@, r),
{
    let n = command.len();
    if shell {
        let mut args: Vec<String> = Vec::new();
        args.push("-c".to_owned());
        args.push(command[0].as_str().to_owned());
        args.push("--".to_owned());
        let mut i: usize = 1;
        while i < n
            invariant
                1 <= i <= n,
                n == command@.len(),
                args@.len() == i + 2,
                args@[0]@ == "-c"@,
                args@[1]@ == command@[0]@,
                args@[2]@ == "--"@,
                forall|j: int| 1 <= j < i ==> #[trigger] args@[j + 2]@ == command@[j]@,
            decreases n - i,
        {
            args.push(command[i].as_str().to_owned());
            i = i + 1;
        }
        Invocation { program: "/bin/bash".to_owned(), args }
    } else {
        let program = command[0].as_str().to_owned();
        let mut args: Vec<String> = Vec::new();
        let mut i: usize = 1;
        while i < n
            invariant
                1 <= i <= n,
                n == command@.len(),
                args@.len() == i - 1,
                forall|j: int| 0 <= j < i - 1 ==> #[trigger] args@[j]@ == command@[j + 1]@,
            decreases n - i,
        {
            args.push(command[i].as_str().to_owned());
            i = i + 1;
        }
        Invocation { program, args }
    }
}

} // verus!
