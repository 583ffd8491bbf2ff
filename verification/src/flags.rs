//! The command line: an optional port, and an optional file to flash.
//!
//! With no port the program lists the ports that it finds; with a port it
//! shows what it learns of the device there; with a file too it writes the
//! file to the device. The arguments are taken apart by the parser of the
//! `xflags` crate, one at a time; what each one means is decided here.

use vstd::prelude::*;
use vstd::string::StringExecFns;

verus! {

/// The parser of the `xflags` crate: the arguments that are still to come,
/// and whether a `--` has been passed.
#[verifier::external_type_specification]
#[verifier::external_body]
pub struct ExParser(xflags::rt::Parser);

/// The arguments that a parser has still to hand out, the next one first.
/// An argument that is no valid text counts as the empty one.
pub uninterp spec fn pending(p: xflags::rt::Parser) -> Seq<Seq<char>>;

/// Whether a parser has passed a `--`, after which every argument is taken
/// as it stands.
pub uninterp spec fn verbatim(p: xflags::rt::Parser) -> bool;

/// One argument as the parser hands it out.
#[derive(Debug, PartialEq, Eq)]
pub enum Arg {
    /// An argument that begins with `-` and came before any `--`.
    Flag(String),
    /// Any other argument.
    Value(String),
}

/// Why a command line was not accepted.
#[derive(Debug, PartialEq, Eq)]
pub enum FlagsError {
    /// Help was asked for, with `-h` or `--help`.
    Help,
    /// This flag is not known.
    UnexpectedFlag(String),
    /// This argument came after the port and the file.
    UnexpectedArgument(String),
}

/// The options of the program.
#[derive(Debug, PartialEq, Eq)]
pub struct Rumbac {
    /// The serial port to talk to.
    pub port: Option<String>,
    /// The firmware image to write.
    pub file: Option<String>,
}

/// How the program is to end where its command line was not accepted.
#[derive(Debug, PartialEq, Eq)]
pub struct Exit {
    /// The exit status: 0 where help was asked for, 2 otherwise.
    pub status: u8,
    /// What to tell the user.
    pub error: FlagsError,
}

/// What the program is to do.
#[derive(Clone, Copy, Debug, PartialEq, Eq, Structural)]
pub enum Mode {
    /// List the serial ports.
    ListPorts,
    /// Show what the device at the port says of itself.
    ShowDevice,
    /// Write the file to the device at the port.
    Flash,
}

/// A fault in a command line, as a value of the model.
pub enum Fault {
    Help,
    UnexpectedFlag(Seq<char>),
    UnexpectedArgument(Seq<char>),
}

impl View for FlagsError {
    type V = Fault;

    open spec fn view(&self) -> Fault {
        match self {
            FlagsError::Help => Fault::Help,
            FlagsError::UnexpectedFlag(flag) => Fault::UnexpectedFlag(flag@),
            FlagsError::UnexpectedArgument(arg) => Fault::UnexpectedArgument(arg@),
        }
    }
}

impl View for Rumbac {
    type V = Seq<Seq<char>>;

    /// The port and the file, as far as they were given, in this order.
    open spec fn view(&self) -> Seq<Seq<char>> {
        positionals(self.port, self.file)
    }
}

/// The arguments that a port and a file, as far as they are there, came from.
pub open spec fn positionals(port: Option<String>, file: Option<String>) -> Seq<Seq<char>> {
    match (port, file) {
        (Some(p), Some(f)) => seq![p@, f@],
        (Some(p), None) => seq![p@],
        (None, Some(f)) => seq![f@],
        (None, None) => Seq::empty(),
    }
}

/// Whether an argument begins with `-`.
pub open spec fn dashed(arg: Seq<char>) -> bool {
    arg.len() > 0 && arg[0] == '-'
}

/// The argument `--`.
pub open spec fn double_dash() -> Seq<char> {
    seq!['-', '-']
}

/// Whether `r`, with `rest` left to come and `after` for the mark, is what a
/// parser hands out that has `args` to come and `before` for the mark.
pub open spec fn pops(
    args: Seq<Seq<char>>,
    before: bool,
    r: Option<Arg>,
    rest: Seq<Seq<char>>,
    after: bool,
) -> bool {
    if args.len() == 0 {
        r is None && rest == args && after == before
    } else if before || !dashed(args[0]) {
        r matches Some(Arg::Value(v)) && v@ == args[0] && rest == args.skip(1) && after == before
    } else if args[0] == double_dash() {
        &&& after
        &&& if args.len() == 1 {
            r is None && rest == args.skip(1)
        } else {
            r matches Some(Arg::Value(v)) && v@ == args[1] && rest == args.skip(2)
        }
    } else {
        r matches Some(Arg::Flag(f)) && f@ == args[0] && rest == args.skip(1) && !after
    }
}

/// What a command line comes to: the arguments `args` are still to be read,
/// `mark` says whether a `--` has been passed, and `taken` holds the port and
/// the file as far as they have been read. The first two arguments that are
/// no flags are the port and the file, and a third one is a fault; so is any
/// flag, of which `-h` and `--help` ask for help.
pub open spec fn parse_from(args: Seq<Seq<char>>, mark: bool, taken: Seq<Seq<char>>) -> Result<
    Seq<Seq<char>>,
    Fault,
>
    decreases args.len(),
{
    if args.len() == 0 {
        Ok(taken)
    } else if mark || !dashed(args[0]) {
        if taken.len() < 2 {
            parse_from(args.skip(1), mark, taken.push(args[0]))
        } else {
            Err(Fault::UnexpectedArgument(args[0]))
        }
    } else if args[0] == double_dash() {
        parse_from(args.skip(1), true, taken)
    } else if args[0] == "--help"@ || args[0] == "-h"@ {
        Err(Fault::Help)
    } else {
        Err(Fault::UnexpectedFlag(args[0]))
    }
}

/// The arguments that the environment gave, without the program's name,
/// which comes first.
pub open spec fn without_program(args: Seq<Seq<char>>) -> Seq<Seq<char>> {
    if args.len() == 0 {
        args
    } else {
        args.skip(1)
    }
}

/// Whether `r` is what the command line `args` comes to.
pub open spec fn parses(args: Seq<Seq<char>>, r: Result<Rumbac, FlagsError>) -> bool {
    match r {
        Ok(flags) => {
            &&& flags.port is None ==> flags.file is None
            &&& parse_from(args, false, Seq::empty()) == Ok::<Seq<Seq<char>>, Fault>(flags@)
        },
        Err(e) => parse_from(args, false, Seq::empty()) == Err::<Seq<Seq<char>>, Fault>(e@),
    }
}

/// `xflags::rt::Parser::new`: a parser that will hand out `args` in their
/// order, and has passed no `--` yet.
#[verifier::external_body]
fn parser_new(args: Vec<String>) -> (p: xflags::rt::Parser)
    ensures
        pending(p) == args.deep_view(),
        !verbatim(p),
{
    xflags::rt::Parser::new(args.into_iter().map(Into::into).collect())
}

/// `xflags::rt::Parser::pop_flag`: hands out the next argument, as a flag
/// if it begins with `-` and no `--` has been passed, else as a value. The
/// first `--` itself is not handed out: it sets the mark, and the argument
/// after it comes in its place. Nothing comes once the arguments are used up.
#[verifier::external_body]
fn pop_flag(p: &mut xflags::rt::Parser) -> (r: Option<Arg>)
    ensures
        pops(pending(*old(p)), verbatim(*old(p)), r, pending(*final(p)), verbatim(*final(p))),
{
    match p.pop_flag() {
        None => None,
        Some(Ok(flag)) => Some(Arg::Flag(flag)),
        Some(Err(value)) => Some(Arg::Value(value.into_string().unwrap_or_default())),
    }
}

impl Rumbac {
    /// Reads the options from the arguments of a command line, the program's
    /// name not among them.
    pub fn from_vec(args: Vec<String>) -> (r: Result<Rumbac, FlagsError>)
        ensures
            parses(args.deep_view(), r),
    {
        let ghost all = args.deep_view();
        let mut p = parser_new(args);
        let mut port: Option<String> = None;
        let mut file: Option<String> = None;
        loop
            invariant
                all == args.deep_view(),
                port is None ==> file is None,
                parse_from(all, false, Seq::empty()) == parse_from(
                    pending(p),
                    verbatim(p),
                    positionals(port, file),
                ),
            decreases pending(p).len(),
        {
            let ghost args_before = pending(p);
            let ghost mark_before = verbatim(p);
            let ghost taken = positionals(port, file);
            match pop_flag(&mut p) {
                None => {
                    proof {
                        lemma_parse_after_pop(args_before, mark_before, taken);
                    }
                    return Ok(Rumbac { port, file });
                },
                Some(Arg::Flag(flag)) => {
                    let long = String::from_str("--help");
                    let short = String::from_str("-h");
                    if flag == long || flag == short {
                        return Err(FlagsError::Help);
                    }
                    return Err(FlagsError::UnexpectedFlag(flag));
                },
                Some(Arg::Value(value)) => {
                    proof {
                        lemma_parse_after_pop(args_before, mark_before, taken);
                    }
                    if port.is_none() {
                        assert(taken.push(value@) =~= seq![value@]);
                        port = Some(value);
                    } else if file.is_none() {
                        assert(taken.push(value@) =~= seq![port->0@, value@]);
                        file = Some(value);
                    } else {
                        return Err(FlagsError::UnexpectedArgument(value));
                    }
                },
            }
        }
    }

    /// Reads the options from the arguments that the environment gave, the
    /// program's name first.
    pub fn from_env(args: Vec<String>) -> (r: Result<Rumbac, FlagsError>)
        ensures
            parses(without_program(args.deep_view()), r),
    {
        let mut args = args;
        let ghost all = args.deep_view();
        if args.len() > 0 {
            args.remove(0);
        }
        assert(args.deep_view() =~= without_program(all));
        Rumbac::from_vec(args)
    }

    /// Reads the options from the arguments that the environment gave, the
    /// program's name first; where they are not accepted, says how the
    /// program is to end: with status 0 after a call for help, with status
    /// 2 after a fault.
    pub fn from_env_or_exit(args: Vec<String>) -> (r: Result<Rumbac, Exit>)
        ensures
            match r {
                Ok(flags) => parses(without_program(args.deep_view()), Ok(flags)),
                Err(exit) => {
                    &&& parses(without_program(args.deep_view()), Err(exit.error))
                    &&& exit.status == if exit.error is Help {
                        0u8
                    } else {
                        2u8
                    }
                },
            },
    {
        match Rumbac::from_env(args) {
            Ok(flags) => Ok(flags),
            Err(error) => {
                let status: u8 = match error {
                    FlagsError::Help => 0,
                    _ => 2,
                };
                Err(Exit { status, error })
            },
        }
    }

    /// Tells what the program is to do: without a port it lists the ports,
    /// with a port alone it shows the device, with a file too it flashes.
    pub fn mode(&self) -> (m: Mode)
        ensures
            m == if self.port is None {
                Mode::ListPorts
            } else if self.file is None {
                Mode::ShowDevice
            } else {
                Mode::Flash
            },
    {
        if self.port.is_none() {
            Mode::ListPorts
        } else if self.file.is_none() {
            Mode::ShowDevice
        } else {
            Mode::Flash
        }
    }
}

/// Reading on after the parser has handed out nothing, or a value, comes to
/// the same as reading all that was there before.
proof fn lemma_parse_after_pop(args: Seq<Seq<char>>, mark: bool, taken: Seq<Seq<char>>)
    ensures
        args.len() > 0 && !mark && args[0] == double_dash() ==> parse_from(args, mark, taken)
            == parse_from(args.skip(1), true, taken),
        args.len() > 1 && !mark && args[0] == double_dash() ==> parse_from(args, mark, taken)
            == if taken.len() < 2 {
            parse_from(args.skip(2), true, taken.push(args[1]))
        } else {
            Err(Fault::UnexpectedArgument(args[1]))
        },
{
    if args.len() > 1 && !mark && args[0] == double_dash() {
        assert(args.skip(1).skip(1) =~= args.skip(2));
        assert(args.skip(1)[0] == args[1]);
    }
}

} // verus!
