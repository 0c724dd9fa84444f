//! The command line: in which mode the program runs.

use vstd::prelude::*;

use crate::text::views;

verus! {

/// The mode in which the program runs.
#[derive(Debug, PartialEq, Eq)]
pub enum Mode {
    /// Join the room of the server at an address, under a name.
    Client { addr: String, name: String },
    /// Open a room at an address.
    Server { addr: String },
}

/// What is wrong with a command line.
#[derive(Clone, Copy, Debug, PartialEq, Eq)]
pub enum ArgsError {
    TooFew,
    ClientWithoutAddress,
    NameWithoutValue,
    MissingName,
    MissingMode,
}

/// The mathematical value of a [`Mode`].
pub enum ModeView {
    Client { addr: Seq<char>, name: Seq<char> },
    Server { addr: Seq<char> },
}

impl View for Mode {
    type V = ModeView;

    open spec fn view(&self) -> ModeView {
        match self {
            Mode::Client { addr, name } => ModeView::Client { addr: addr@, name: name@ },
            Mode::Server { addr } => ModeView::Server { addr: addr@ },
        }
    }
}

/// The position of the first argument that is `flag`, if there is one at `from`
/// or behind it.
pub open spec fn first_from(args: Seq<Seq<char>>, flag: Seq<char>, from: int) -> Option<int>
    decreases args.len() - from,
{
    if from >= args.len() {
        None
    } else if args[from] == flag {
        Some(from)
    } else {
        first_from(args, flag, from + 1)
    }
}

/// The argument behind the first one that is `flag`: `None` where there is no
/// such flag, `Some(None)` where nothing stands behind it.
pub open spec fn value_of(args: Seq<Seq<char>>, flag: Seq<char>) -> Option<Option<Seq<char>>> {
    match first_from(args, flag, 0) {
        None => None,
        Some(pos) => if pos < args.len() - 1 {
            Some(Some(args[pos + 1]))
        } else {
            Some(None)
        },
    }
}

/// The mode that a command line asks for. The first argument is the name of the
/// program, and is looked at like the others. To be a client goes before being a
/// server.
pub open spec fn mode_of(args: Seq<Seq<char>>) -> Result<ModeView, ArgsError> {
    if args.len() <= 1 {
        Err(ArgsError::TooFew)
    } else {
        match value_of(args, "--client"@) {
            Some(Some(addr)) => match value_of(args, "--name"@) {
                Some(Some(name)) => Ok(ModeView::Client { addr, name }),
                Some(None) => Err(ArgsError::NameWithoutValue),
                None => Err(ArgsError::MissingName),
            },
            Some(None) => Err(ArgsError::ClientWithoutAddress),
            None => if args.contains("--server"@) {
                Ok(ModeView::Server { addr: "127.0.0.1:1234"@ })
            } else {
                Err(ArgsError::MissingMode)
            },
        }
    }
}

/// What to tell the user about an error.
pub open spec fn error_text(error: ArgsError) -> Seq<char> {
    match error {
        ArgsError::TooFew => "Not enough arguments"@,
        ArgsError::ClientWithoutAddress => "--client requires an argument after"@,
        ArgsError::NameWithoutValue => "--name requires an argument after"@,
        ArgsError::MissingName => "Missing --name argument"@,
        ArgsError::MissingMode => "Missing --client or --server argument"@,
    }
}

impl ArgsError {
    /// What to tell the user.
    pub fn message(self) -> (text: String)
        ensures
            text@ == error_text(self),
    {
        match self {
            ArgsError::TooFew => "Not enough arguments".to_owned(),
            ArgsError::ClientWithoutAddress => "--client requires an argument after".to_owned(),
            ArgsError::NameWithoutValue => "--name requires an argument after".to_owned(),
            ArgsError::MissingName => "Missing --name argument".to_owned(),
            ArgsError::MissingMode => "Missing --client or --server argument".to_owned(),
        }
    }
}

/// Looks for the first argument that is `flag`.
fn find(args: &Vec<String>, flag: &str) -> (pos: Option<usize>)
    ensures
        match pos {
            Some(pos) => {
                &&& pos < args@.len()
                &&& first_from(views(args@), flag@, 0) == Some(pos as int)
                &&& views(args@).contains(flag@)
            },
            None => {
                &&& first_from(views(args@), flag@, 0) is None
                &&& !views(args@).contains(flag@)
            },
        },
{
    let wanted = flag.to_owned();
    let mut i: usize = 0;
    while i < args.len()
        invariant
            i <= args@.len(),
            wanted@ == flag@,
            forall|j: int| 0 <= j < i ==> #[trigger] views(args@)[j] != flag@,
            first_from(views(args@), flag@, 0) == first_from(views(args@), flag@, i as int),
        decreases args@.len() - i,
    {
        if args[i] == wanted {
            assert(views(args@)[i as int] == flag@);
            return Some(i);
        }
        i += 1;
    }
    None
}

/// Reads the command line.
pub fn parse_args(args: &Vec<String>) -> (mode: Result<Mode, ArgsError>)
    ensures
        match mode {
            Ok(mode) => mode_of(views(args@)) == Ok::<ModeView, ArgsError>(mode@),
            Err(error) => mode_of(views(args@)) == Err::<ModeView, ArgsError>(error),
        },
{
    if args.len() <= 1 {
        return Err(ArgsError::TooFew);
    }
    match find(args, "--client") {
        Some(pos) => if pos < args.len() - 1 {
            let addr = args[pos + 1].clone();
            match find(args, "--name") {
                Some(pos) => if pos < args.len() - 1 {
                    Ok(Mode::Client { addr, name: args[pos + 1].clone() })
                } else {
                    Err(ArgsError::NameWithoutValue)
                },
                None => Err(ArgsError::MissingName),
            }
        } else {
            Err(ArgsError::ClientWithoutAddress)
        },
        None => match find(args, "--server") {
            Some(_) => Ok(Mode::Server { addr: "127.0.0.1:1234".to_owned() }),
            None => Err(ArgsError::MissingMode),
        },
    }
}

/// What is found is the first argument that is the flag; where nothing is found,
/// none is.
pub proof fn law_first_of_a_flag(args: Seq<Seq<char>>, flag: Seq<char>, from: int)
    requires
        0 <= from,
    ensures
        match first_from(args, flag, from) {
            Some(pos) => {
                &&& from <= pos < args.len()
                &&& args[pos] == flag
                &&& forall|i: int| from <= i < pos ==> #[trigger] args[i] != flag
            },
            None => forall|i: int| from <= i < args.len() ==> #[trigger] args[i] != flag,
        },
    decreases args.len() - from,
{
    if from < args.len() && args[from] != flag {
        law_first_of_a_flag(args, flag, from + 1);
    }
}

/// A command line with "--client" in it: what follows the first "--client" is the
/// address, what follows the first "--name" is the name, and each of them is
/// missed where it is not there, the address first. Whether "--server" is there
/// makes no difference.
pub proof fn law_command_line_of_a_client(args: Seq<Seq<char>>, client: int, name: int)
    requires
        args.len() > 1,
        0 <= client < args.len(),
        args[client] == "--client"@,
        forall|i: int| 0 <= i < client ==> #[trigger] args[i] != "--client"@,
        0 <= name <= args.len(),
        name < args.len() ==> args[name] == "--name"@,
        forall|i: int| 0 <= i < name ==> #[trigger] args[i] != "--name"@,
    ensures
        mode_of(args) == if client == args.len() - 1 {
            Err::<ModeView, ArgsError>(ArgsError::ClientWithoutAddress)
        } else if name == args.len() {
            Err::<ModeView, ArgsError>(ArgsError::MissingName)
        } else if name == args.len() - 1 {
            Err::<ModeView, ArgsError>(ArgsError::NameWithoutValue)
        } else {
            Ok::<ModeView, ArgsError>(
                ModeView::Client { addr: args[client + 1], name: args[name + 1] },
            )
        },
{
    law_first_of_a_flag(args, "--client"@, 0);
    law_first_of_a_flag(args, "--name"@, 0);
}

/// A command line without "--client" in it: with "--server" anywhere, a room is
/// opened at port 1234 of this machine; without it, the mode is missed.
pub proof fn law_command_line_of_a_server(args: Seq<Seq<char>>)
    requires
        args.len() > 1,
        forall|i: int| 0 <= i < args.len() ==> #[trigger] args[i] != "--client"@,
    ensures
        (exists|i: int| 0 <= i < args.len() && #[trigger] args[i] == "--server"@) ==> mode_of(args)
            == Ok::<ModeView, ArgsError>(ModeView::Server { addr: "127.0.0.1:1234"@ }),
        (forall|i: int| 0 <= i < args.len() ==> #[trigger] args[i] != "--server"@) ==> mode_of(args)
            == Err::<ModeView, ArgsError>(ArgsError::MissingMode),
{
    law_first_of_a_flag(args, "--client"@, 0);
}

/// A command line with nothing but the name of the program is too short.
pub proof fn law_command_line_that_is_too_short(args: Seq<Seq<char>>)
    requires
        args.len() <= 1,
    ensures
        mode_of(args) == Err::<ModeView, ArgsError>(ArgsError::TooFew),
{
}

/// What the user is told about each error, and the values of the modes.
pub proof fn law_values_of_modes_and_errors(addr: String, name: String)
    ensures
        error_text(ArgsError::TooFew) == "Not enough arguments"@,
        error_text(ArgsError::ClientWithoutAddress) == "--client requires an argument after"@,
        error_text(ArgsError::NameWithoutValue) == "--name requires an argument after"@,
        error_text(ArgsError::MissingName) == "Missing --name argument"@,
        error_text(ArgsError::MissingMode) == "Missing --client or --server argument"@,
        (Mode::Client { addr, name })@ == (ModeView::Client { addr: addr@, name: name@ }),
        (Mode::Server { addr })@ == (ModeView::Server { addr: addr@ }),
{
}

} // verus!
