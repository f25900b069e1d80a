use vstd::prelude::*;
use crate::text::{parsed_i32, parse_i32, str_eq};

verus! {

/// A wrapped command: the program to replace this process with, and the
/// arguments handed to it untouched and in order.
#[derive(Debug)]
pub struct Command {
    pub program_name: String,
    pub command_args: Vec<String>,
}

/// The mathematical value of a `Command`.
pub struct CommandModel {
    pub program_name: Seq<char>,
    pub command_args: Seq<Seq<char>>,
}

impl View for Command {
    type V = CommandModel;

    open spec fn view(&self) -> CommandModel {
        CommandModel {
            program_name: self.program_name@,
            command_args: self.command_args.deep_view(),
        }
    }
}

/// What parsing recognised: the requested success chance, as given (clamping
/// happens at decision time, not here), and the optional wrapped command.
#[derive(Debug)]
pub struct ParsedOptions {
    pub chance: i32,
    pub command: Option<Command>,
}

/// The mathematical value of `ParsedOptions`.
pub struct OptionsModel {
    pub chance: int,
    pub command: Option<CommandModel>,
}

impl View for ParsedOptions {
    type V = OptionsModel;

    open spec fn view(&self) -> OptionsModel {
        OptionsModel {
            chance: self.chance as int,
            command: match self.command {
                Some(c) => Some(c@),
                None => None,
            },
        }
    }
}

/// The closed set of outcomes that parsing can request.
#[derive(Debug)]
pub enum ExitIntent {
    UsageError,
    Help,
    Version,
    Proceed(ParsedOptions),
}

/// The mathematical value of an `ExitIntent`.
pub enum IntentModel {
    UsageError,
    Help,
    Version,
    Proceed(OptionsModel),
}

impl View for ExitIntent {
    type V = IntentModel;

    open spec fn view(&self) -> IntentModel {
        match self {
            ExitIntent::UsageError => IntentModel::UsageError,
            ExitIntent::Help => IntentModel::Help,
            ExitIntent::Version => IntentModel::Version,
            ExitIntent::Proceed(o) => IntentModel::Proceed(o@),
        }
    }
}

/// The command-line grammar, order-sensitive and first-token dominant:
/// empty input is a usage error; `--help`/`-h` asks for help; `--version`/`-v`
/// for the version; `--chance`/`-c` must be followed by a signed integer, after
/// which one leading `--` separator, if present, is consumed, and whatever
/// remains is the wrapped command; any other first token is a usage error.
pub open spec fn parse_spec(args: Seq<Seq<char>>) -> IntentModel {
    if args.len() == 0 {
        IntentModel::UsageError
    } else if args[0] == "--help"@ || args[0] == "-h"@ {
        IntentModel::Help
    } else if args[0] == "--version"@ || args[0] == "-v"@ {
        IntentModel::Version
    } else if args[0] == "--chance"@ || args[0] == "-c"@ {
        if args.len() < 2 {
            IntentModel::UsageError
        } else {
            match parsed_i32(args[1]) {
                None => IntentModel::UsageError,
                Some(v) => IntentModel::Proceed(
                    OptionsModel { chance: v, command: command_spec(strip_separator(args.subrange(2, args.len() as int))) },
                ),
            }
        }
    } else {
        IntentModel::UsageError
    }
}

/// Drop a single leading `--` separator; never more than one.
pub open spec fn strip_separator(rest: Seq<Seq<char>>) -> Seq<Seq<char>> {
    if rest.len() > 0 && rest[0] == "--"@ {
        rest.subrange(1, rest.len() as int)
    } else {
        rest
    }
}

/// The trailing tokens as a command: none when nothing remains, else the
/// first token is the program name and the rest its arguments, order kept.
pub open spec fn command_spec(rest: Seq<Seq<char>>) -> Option<CommandModel> {
    if rest.len() == 0 {
        None
    } else {
        Some(
            CommandModel {
                program_name: rest[0],
                command_args: rest.subrange(1, rest.len() as int),
            },
        )
    }
}

/// Parsing is idempotent and free of hidden state: the intent is a function
/// of the token sequence alone, so any two parses of the same well-formed
/// sequence yield the same variant and payload. `parse_args` ensures that
/// every result equals `parse_spec` of its input, and this law closes the
/// step from there to the equality of repeated parses.
pub proof fn lemma_parse_idempotent(args: Seq<Seq<char>>, first: IntentModel, second: IntentModel)
    requires
        first == parse_spec(args),
        second == parse_spec(args),
    ensures
        first == second,
{
}

/// Parse the invocation's argument vector (program name already stripped).
/// The result is exactly what the grammar `parse_spec` assigns to the input;
/// parsing consults no other state, so equal inputs parse equally.
pub fn parse_args(args: &Vec<String>) -> (intent: ExitIntent)
    ensures
        intent@ == parse_spec(args.deep_view()),
{
    let ghost model = args.deep_view();
    if args.len() == 0 {
        return ExitIntent::UsageError;
    }
    proof {
        assert(model[0] == args@[0]@);
    }
    let first: &str = args[0].as_str();
    if str_eq(first, "--help") || str_eq(first, "-h") {
        return ExitIntent::Help;
    }
    if str_eq(first, "--version") || str_eq(first, "-v") {
        return ExitIntent::Version;
    }
    if !(str_eq(first, "--chance") || str_eq(first, "-c")) {
        return ExitIntent::UsageError;
    }
    if args.len() < 2 {
        return ExitIntent::UsageError;
    }
    proof {
        assert(model[1] == args@[1]@);
    }
    let chance: i32 = match parse_i32(args[1].as_str()) {
        None => {
            return ExitIntent::UsageError;
        },
        Some(v) => v,
    };
    let mut rest_start: usize = 2;
    let ghost rest = model.subrange(2, model.len() as int);
    if args.len() > 2 && str_eq(args[2].as_str(), "--") {
        rest_start = 3;
        proof {
            assert(rest[0] == model[2]);
            assert(strip_separator(rest) =~= model.subrange(3, model.len() as int));
        }
    } else {
        proof {
            if rest.len() > 0 {
                assert(rest[0] == model[2]);
            }
            assert(strip_separator(rest) =~= model.subrange(2, model.len() as int));
        }
    }
    let ghost remaining = model.subrange(rest_start as int, model.len() as int);
    proof {
        assert(strip_separator(rest) == remaining);
    }
    if rest_start >= args.len() {
        return ExitIntent::Proceed(ParsedOptions { chance, command: None });
    }
    let program_name: String = args[rest_start].clone();
    proof {
        assert(remaining[0] == model[rest_start as int]);
        assert(model[rest_start as int] == args@[rest_start as int]@);
    }
    let mut command_args: Vec<String> = Vec::new();
    let mut i: usize = rest_start + 1;
    while i < args.len()
        invariant
            rest_start + 1 <= i <= args.len(),
            model == args.deep_view(),
            rest_start < args.len(),
            command_args.deep_view() =~= model.subrange(rest_start + 1, i as int),
        decreases args.len() - i,
    {
        let ghost prev = command_args.deep_view();
        command_args.push(args[i].clone());
        proof {
            assert(args@[i as int]@ == model[i as int]);
            assert(command_args.deep_view() =~= prev.push(model[i as int]));
            assert(model.subrange(rest_start + 1, i + 1) =~= model.subrange(
                rest_start + 1,
                i as int,
            ).push(model[i as int]));
            assert(prev == model.subrange(rest_start + 1, i as int));
            assert(command_args.deep_view() =~= model.subrange(rest_start + 1, i + 1));
        }
        i += 1;
    }
    proof {
        assert(command_args.deep_view() =~= remaining.subrange(1, remaining.len() as int));
    }
    ExitIntent::Proceed(
        ParsedOptions { chance, command: Some(Command { program_name, command_args }) },
    )
}

} // verus!
