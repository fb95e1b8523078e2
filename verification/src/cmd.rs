//! The shell's command table: the name of each built-in command and the
//! lookup from a typed word to the command it names.  Anything the table
//! does not know is carried through as a custom command.

use vstd::prelude::*;
use vstd::string::StringSliceAdditionalSpecFns;

verus! {

/// A shell command: one of the built-ins, or a custom word.
#[derive(Debug, Clone, Copy, PartialEq)]
pub enum Cmd<'a> {
    Pwd,
    Cd,
    Ps,
    Ls,
    Clear,
    Mkdir,
    Rmdir,
    Touch,
    Rm,
    Shutdown,
    Help,
    Echo,
    Grep,
    Cat,
    Version,
    Date,
    Psend,
    Hello,
    Custom(&'a str),
}

/// The command a name resolves to, decided byte for byte against the
/// built-in names in table order; an unknown name resolves to itself as a
/// custom command.
pub open spec fn spec_get_by_name<'a>(name: &'a str) -> Cmd<'a> {
    if name.spec_bytes() == "pwd".spec_bytes() {
        Cmd::Pwd
    } else if name.spec_bytes() == "cd".spec_bytes() {
        Cmd::Cd
    } else if name.spec_bytes() == "ps".spec_bytes() {
        Cmd::Ps
    } else if name.spec_bytes() == "ls".spec_bytes() {
        Cmd::Ls
    } else if name.spec_bytes() == "clear".spec_bytes() {
        Cmd::Clear
    } else if name.spec_bytes() == "mkdir".spec_bytes() {
        Cmd::Mkdir
    } else if name.spec_bytes() == "rmdir".spec_bytes() {
        Cmd::Rmdir
    } else if name.spec_bytes() == "touch".spec_bytes() {
        Cmd::Touch
    } else if name.spec_bytes() == "rm".spec_bytes() {
        Cmd::Rm
    } else if name.spec_bytes() == "shutdown".spec_bytes() {
        Cmd::Shutdown
    } else if name.spec_bytes() == "help".spec_bytes() {
        Cmd::Help
    } else if name.spec_bytes() == "echo".spec_bytes() {
        Cmd::Echo
    } else if name.spec_bytes() == "grep".spec_bytes() {
        Cmd::Grep
    } else if name.spec_bytes() == "cat".spec_bytes() {
        Cmd::Cat
    } else if name.spec_bytes() == "version".spec_bytes() {
        Cmd::Version
    } else if name.spec_bytes() == "date".spec_bytes() {
        Cmd::Date
    } else if name.spec_bytes() == "psend".spec_bytes() {
        Cmd::Psend
    } else if name.spec_bytes() == "hello".spec_bytes() {
        Cmd::Hello
    } else {
        Cmd::Custom(name)
    }
}

/// Compares two strings byte for byte.
fn str_bytes_eq(a: &str, b: &str) -> (r: bool)
    ensures
        r == (a.spec_bytes() == b.spec_bytes()),
{
    let ab: &[u8] = a.as_bytes();
    let bb: &[u8] = b.as_bytes();
    if ab.len() != bb.len() {
        return false;
    }
    let n: usize = ab.len();
    let mut i: usize = 0;
    while i < n
        invariant
            i <= n,
            n == ab@.len(),
            n == bb@.len(),
            ab@ == a.spec_bytes(),
            bb@ == b.spec_bytes(),
            forall|j: int| 0 <= j < i ==> ab@[j] == bb@[j],
        decreases n - i,
    {
        if ab[i] != bb[i] {
            return false;
        }
        i = i + 1;
    }
    proof {
        assert(ab@ =~= bb@);
    }
    true
}

impl<'a> Cmd<'a> {
    /// Resolves a typed word to the command it names; an unknown word
    /// becomes a custom command carrying the word itself.
    pub fn get_by_name(name: &'a str) -> (r: Cmd<'a>)
        ensures
            r == spec_get_by_name(name),
    {
        if str_bytes_eq(name, "pwd") {
            Cmd::Pwd
        } else if str_bytes_eq(name, "cd") {
            Cmd::Cd
        } else if str_bytes_eq(name, "ps") {
            Cmd::Ps
        } else if str_bytes_eq(name, "ls") {
            Cmd::Ls
        } else if str_bytes_eq(name, "clear") {
            Cmd::Clear
        } else if str_bytes_eq(name, "mkdir") {
            Cmd::Mkdir
        } else if str_bytes_eq(name, "rmdir") {
            Cmd::Rmdir
        } else if str_bytes_eq(name, "touch") {
            Cmd::Touch
        } else if str_bytes_eq(name, "rm") {
            Cmd::Rm
        } else if str_bytes_eq(name, "shutdown") {
            Cmd::Shutdown
        } else if str_bytes_eq(name, "help") {
            Cmd::Help
        } else if str_bytes_eq(name, "echo") {
            Cmd::Echo
        } else if str_bytes_eq(name, "grep") {
            Cmd::Grep
        } else if str_bytes_eq(name, "cat") {
            Cmd::Cat
        } else if str_bytes_eq(name, "version") {
            Cmd::Version
        } else if str_bytes_eq(name, "date") {
            Cmd::Date
        } else if str_bytes_eq(name, "psend") {
            Cmd::Psend
        } else if str_bytes_eq(name, "hello") {
            Cmd::Hello
        } else {
            Cmd::Custom(name)
        }
    }

    /// Every built-in command with its one-line description, in table
    /// order.
    pub fn get_all_commands() -> (r: Vec<(&'static str, &'static str)>)
        ensures
            r@.len() == 18,
            r@[0].0@ == "pwd"@ && r@[0].1@ == "Show current directory"@,
            r@[1].0@ == "cd"@ && r@[1].1@ == "Change directory"@,
            r@[2].0@ == "ps"@ && r@[2].1@ == "List all processes"@,
            r@[3].0@ == "ls"@ && r@[3].1@ == "List directory contents"@,
            r@[4].0@ == "clear"@ && r@[4].1@ == "Clear screen"@,
            r@[5].0@ == "mkdir"@ && r@[5].1@ == "Create new directory"@,
            r@[6].0@ == "rmdir"@ && r@[6].1@ == "Remove directory"@,
            r@[7].0@ == "touch"@ && r@[7].1@ == "Create new file"@,
            r@[8].0@ == "rm"@ && r@[8].1@ == "Remove file"@,
            r@[9].0@ == "shutdown"@ && r@[9].1@ == "Shutdown system"@,
            r@[10].0@ == "help"@ && r@[10].1@ == "Show all available commands"@,
            r@[11].0@ == "echo"@ && r@[11].1@ == "Print arguments to stdout"@,
            r@[12].0@ == "grep"@ && r@[12].1@ == "Filter lines containing a pattern"@,
            r@[13].0@ == "cat"@ && r@[13].1@ == "Display file contents"@,
            r@[14].0@ == "version"@ && r@[14].1@ == "Show system version information"@,
            r@[15].0@ == "date"@ && r@[15].1@ == "Show current date and time"@,
            r@[16].0@ == "psend"@ && r@[16].1@ == "Force terminate process by PID"@,
            r@[17].0@ == "hello"@ && r@[17].1@ == "Print 'hello world' message"@,
    {
        let mut table: Vec<(&'static str, &'static str)> = Vec::new();
        table.push(("pwd", "Show current directory"));
        table.push(("cd", "Change directory"));
        table.push(("ps", "List all processes"));
        table.push(("ls", "List directory contents"));
        table.push(("clear", "Clear screen"));
        table.push(("mkdir", "Create new directory"));
        table.push(("rmdir", "Remove directory"));
        table.push(("touch", "Create new file"));
        table.push(("rm", "Remove file"));
        table.push(("shutdown", "Shutdown system"));
        table.push(("help", "Show all available commands"));
        table.push(("echo", "Print arguments to stdout"));
        table.push(("grep", "Filter lines containing a pattern"));
        table.push(("cat", "Display file contents"));
        table.push(("version", "Show system version information"));
        table.push(("date", "Show current date and time"));
        table.push(("psend", "Force terminate process by PID"));
        table.push(("hello", "Print 'hello world' message"));
        table
    }
}

} // verus!
