//! The editor's commands as data: what a key mapping or the command line
//! asks the editor to do. Running them acts on the editor's panes and
//! buffers, which is the runtime's part.
use vstd::prelude::*;
use crate::engine::mode::Mode;

verus! {

broadcast use vstd::std_specs::vec::axiom_vec_decreases_to_view;

/// A command the editor can run.
#[derive(Debug)]
pub enum Command {
    /// A command the user defined in a script, by name.
    UserCommand(String),
    CursorUp,
    CursorDown,
    CursorLeft,
    CursorRight,
    /// Several commands, run in order.
    ExeCommandList(Vec<Command>),
    ScrollUp,
    ScrollDown,
    BackSpace,
    InsertChar(char),
    ChangeMode(Mode),
    ExecuteCommandLine,
    ExecuteTerminalCommand(String),
    Quit,
    Delete,
    DeleteLine,
    /// A message and its footer, shown in a message box.
    Message(String, String),
    SaveFile,
    EditFile(String),
    JumpToBuffer(String),
    ListBuffers,
    CursorHome,
    CursorTopOfBuffer,
    CursorToBottomOfBuffer,
}

/// A command handle, as key mappings hold them.
#[derive(Debug)]
pub struct CmdRc {
    pub command: Command,
}

impl CmdRc {
    /// A handle on `command`.
    pub fn new(command: Command) -> (r: CmdRc)
        ensures
            r.command == command,
    {
        CmdRc { command }
    }
}

/// Whether two commands are the same: the same kind, with the same text,
/// mode or character, and for lists the same commands in the same order.
pub open spec fn same_command(a: Command, b: Command) -> bool
    decreases a,
{
    match a {
        Command::UserCommand(x) => b matches Command::UserCommand(y) && x@ == y@,
        Command::ExeCommandList(xs) => b matches Command::ExeCommandList(ys) && same_commands(
            xs@,
            ys@,
        ),
        Command::ExecuteTerminalCommand(x) => b matches Command::ExecuteTerminalCommand(y) && x@
            == y@,
        Command::Message(x, f) => b matches Command::Message(y, g) && x@ == y@ && f@ == g@,
        Command::EditFile(x) => b matches Command::EditFile(y) && x@ == y@,
        Command::JumpToBuffer(x) => b matches Command::JumpToBuffer(y) && x@ == y@,
        _ => a == b,
    }
}

/// Whether two lists hold the same commands in the same order.
pub open spec fn same_commands(xs: Seq<Command>, ys: Seq<Command>) -> bool
    decreases xs,
{
    if xs.len() == 0 {
        ys.len() == 0
    } else {
        ys.len() == xs.len() && same_commands(xs.drop_last(), ys.drop_last()) && same_command(
            xs.last(),
            ys.last(),
        )
    }
}

/// Lists of the same commands have the same prefixes.
proof fn lemma_same_prefix(xs: Seq<Command>, ys: Seq<Command>, n: int)
    requires
        same_commands(xs, ys),
        0 <= n <= xs.len(),
    ensures
        same_commands(xs.take(n), ys.take(n)),
    decreases xs.len() - n,
{
    if n < xs.len() {
        lemma_same_prefix(xs, ys, n + 1);
        assert(xs.take(n + 1).drop_last() =~= xs.take(n));
        assert(ys.take(n + 1).drop_last() =~= ys.take(n));
    } else {
        assert(xs.take(n) =~= xs);
        assert(ys.take(n) =~= ys);
    }
}

/// Whether two commands are the same.
fn commands_equal(a: &Command, b: &Command) -> (r: bool)
    ensures
        r == same_command(*a, *b),
    decreases a,
{
    match (a, b) {
        (Command::UserCommand(x), Command::UserCommand(y)) => x.eq(y),
        (Command::ExeCommandList(xs), Command::ExeCommandList(ys)) => {
            if xs.len() != ys.len() {
                return false;
            }
            let mut i: usize = 0;
            while i < xs.len()
                invariant
                    i <= xs@.len(),
                    xs@.len() == ys@.len(),
                    *a == Command::ExeCommandList(*xs),
                    *b == Command::ExeCommandList(*ys),
                    same_commands(xs@.take(i as int), ys@.take(i as int)),
                decreases xs@.len() - i,
            {
                proof {
                    broadcast use vstd::std_specs::vec::axiom_vec_decreases_to_view;
                    assert(decreases_to!(*a => (*a)->ExeCommandList_0));
                    assert(decreases_to!(*xs => xs@));
                    assert(decreases_to!(xs@ => xs@[i as int]));
                    assert(decreases_to!(*a => xs@[i as int]));
                }
                let same = commands_equal(&xs[i], &ys[i]);
                proof {
                    assert(xs@.take(i + 1).drop_last() =~= xs@.take(i as int));
                    assert(ys@.take(i + 1).drop_last() =~= ys@.take(i as int));
                }
                if !same {
                    proof {
                        if same_commands(xs@, ys@) {
                            lemma_same_prefix(xs@, ys@, i as int + 1);
                            assert(xs@.take(i + 1).last() == xs@[i as int]);
                            assert(ys@.take(i + 1).last() == ys@[i as int]);
                        }
                    }
                    return false;
                }
                i += 1;
            }
            proof {
                assert(xs@.take(xs@.len() as int) =~= xs@);
                assert(ys@.take(ys@.len() as int) =~= ys@);
            }
            true
        },
        (Command::ExecuteTerminalCommand(x), Command::ExecuteTerminalCommand(y)) => x.eq(y),
        (Command::Message(x, f), Command::Message(y, g)) => x.eq(y) && f.eq(g),
        (Command::EditFile(x), Command::EditFile(y)) => x.eq(y),
        (Command::JumpToBuffer(x), Command::JumpToBuffer(y)) => x.eq(y),
        (Command::CursorUp, Command::CursorUp) => true,
        (Command::CursorDown, Command::CursorDown) => true,
        (Command::CursorLeft, Command::CursorLeft) => true,
        (Command::CursorRight, Command::CursorRight) => true,
        (Command::ScrollUp, Command::ScrollUp) => true,
        (Command::ScrollDown, Command::ScrollDown) => true,
        (Command::BackSpace, Command::BackSpace) => true,
        (Command::InsertChar(x), Command::InsertChar(y)) => *x == *y,
        (Command::ChangeMode(x), Command::ChangeMode(y)) => *x == *y,
        (Command::ExecuteCommandLine, Command::ExecuteCommandLine) => true,
        (Command::Quit, Command::Quit) => true,
        (Command::Delete, Command::Delete) => true,
        (Command::DeleteLine, Command::DeleteLine) => true,
        (Command::SaveFile, Command::SaveFile) => true,
        (Command::ListBuffers, Command::ListBuffers) => true,
        (Command::CursorHome, Command::CursorHome) => true,
        (Command::CursorTopOfBuffer, Command::CursorTopOfBuffer) => true,
        (Command::CursorToBottomOfBuffer, Command::CursorToBottomOfBuffer) => true,
        _ => false,
    }
}

impl PartialEq for Command {
    fn eq(&self, other: &Command) -> (r: bool) {
        commands_equal(self, other)
    }
}

impl vstd::std_specs::cmp::PartialEqSpecImpl for Command {
    open spec fn obeys_eq_spec() -> bool {
        true
    }

    open spec fn eq_spec(&self, other: &Command) -> bool {
        same_command(*self, *other)
    }
}

impl PartialEq for CmdRc {
    fn eq(&self, other: &CmdRc) -> (r: bool) {
        commands_equal(&self.command, &other.command)
    }
}

impl vstd::std_specs::cmp::PartialEqSpecImpl for CmdRc {
    open spec fn obeys_eq_spec() -> bool {
        true
    }

    open spec fn eq_spec(&self, other: &CmdRc) -> bool {
        same_command(self.command, other.command)
    }
}

impl vstd::std_specs::convert::FromSpecImpl<Command> for CmdRc {
    open spec fn obeys_from_spec() -> bool {
        true
    }

    open spec fn from_spec(command: Command) -> CmdRc {
        CmdRc { command }
    }
}

impl From<Command> for CmdRc {
    /// A handle on `command`.
    fn from(command: Command) -> CmdRc {
        CmdRc { command }
    }
}

impl Command {
    /// A copy of this command.
    pub fn duplicate(&self) -> (r: Command)
        ensures
            same_command(r, *self),
        decreases self,
    {
        match self {
            Command::UserCommand(s) => Command::UserCommand(s.clone()),
            Command::CursorUp => Command::CursorUp,
            Command::CursorDown => Command::CursorDown,
            Command::CursorLeft => Command::CursorLeft,
            Command::CursorRight => Command::CursorRight,
            Command::ExeCommandList(v) => {
                let mut out: Vec<Command> = Vec::new();
                let mut i: usize = 0;
                while i < v.len()
                    invariant
                        i <= v@.len(),
                        *self == Command::ExeCommandList(*v),
                        out@.len() == i,
                        same_commands(out@, v@.take(i as int)),
                    decreases v@.len() - i,
                {
                    proof {
                        broadcast use vstd::std_specs::vec::axiom_vec_decreases_to_view;
                        assert((*self)->ExeCommandList_0 == *v);
                        assert(decreases_to!(*self => (*self)->ExeCommandList_0));
                        assert(decreases_to!(*v => v@));
                        assert(decreases_to!(v@ => v@[i as int]));
                        assert(decreases_to!(*self => v@[i as int]));
                    }
                    let c = v[i].duplicate();
                    let ghost before = out@;
                    out.push(c);
                    proof {
                        assert(out@.drop_last() =~= before);
                        assert(v@.take(i + 1).drop_last() =~= v@.take(i as int));
                        assert(v@.take(i + 1).last() == v@[i as int]);
                    }
                    i += 1;
                }
                proof {
                    assert(v@.take(v@.len() as int) =~= v@);
                }
                Command::ExeCommandList(out)
            },
            Command::ScrollUp => Command::ScrollUp,
            Command::ScrollDown => Command::ScrollDown,
            Command::BackSpace => Command::BackSpace,
            Command::InsertChar(c) => Command::InsertChar(*c),
            Command::ChangeMode(m) => Command::ChangeMode(*m),
            Command::ExecuteCommandLine => Command::ExecuteCommandLine,
            Command::ExecuteTerminalCommand(s) => Command::ExecuteTerminalCommand(s.clone()),
            Command::Quit => Command::Quit,
            Command::Delete => Command::Delete,
            Command::DeleteLine => Command::DeleteLine,
            Command::Message(a, b) => Command::Message(a.clone(), b.clone()),
            Command::SaveFile => Command::SaveFile,
            Command::EditFile(s) => Command::EditFile(s.clone()),
            Command::JumpToBuffer(s) => Command::JumpToBuffer(s.clone()),
            Command::ListBuffers => Command::ListBuffers,
            Command::CursorHome => Command::CursorHome,
            Command::CursorTopOfBuffer => Command::CursorTopOfBuffer,
            Command::CursorToBottomOfBuffer => Command::CursorToBottomOfBuffer,
        }
    }
}

} // verus!
