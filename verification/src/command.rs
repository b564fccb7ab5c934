//! What a command line asks for, and what follows from it: the level of the
//! log, the source of the input, and the answer to give to a line that was
//! typed at the prompt.

use vstd::prelude::*;
use crate::errors::syntactical::SyntacticalError;
use crate::parser::{parse, rules};
use crate::scanner::{scan_of, token_start, Scanner};

verus! {

/// How much of what happens is written to the log.
#[derive(Clone, Copy, Debug, PartialEq, Eq, Structural)]
pub enum Level {
    Error,
    Warn,
    Info,
    Debug,
    Trace,
}

/// The flags that set the level of the log.
#[derive(Clone, Copy, Debug, PartialEq, Eq, Structural)]
pub struct Verbosity {
    /// How often the flag for more talk was given.
    pub verbose: usize,
    /// Whether messages for debugging are asked for.
    pub debug: bool,
    /// Whether the finest messages are asked for.
    pub trace: bool,
}

impl Verbosity {
    /// The level that these flags ask for. Each flag for more talk lowers the
    /// threshold by one step from errors alone; the two named flags ask for
    /// their level whatever the count, and the finer of the two wins.
    pub open spec fn asked(self) -> Level {
        if self.trace {
            Level::Trace
        } else if self.debug {
            Level::Debug
        } else if self.verbose == 0 {
            Level::Error
        } else if self.verbose == 1 {
            Level::Warn
        } else if self.verbose == 2 {
            Level::Info
        } else if self.verbose == 3 {
            Level::Debug
        } else {
            Level::Trace
        }
    }

    /// See [`Verbosity::asked`].
    pub fn level(&self) -> (level: Level)
        ensures
            level == self.asked(),
    {
        let mut level = match self.verbose {
            0 => Level::Error,
            1 => Level::Warn,
            2 => Level::Info,
            3 => Level::Debug,
            _ => Level::Trace,
        };
        if self.trace {
            level = Level::Trace;
        } else if self.debug {
            level = Level::Debug;
        }
        level
    }
}

/// Where the text to work on comes from.
#[derive(Debug)]
pub enum Source {
    /// The text is given on the command line.
    Inline(String),
    /// The text is in the file of this path.
    File(String),
    /// The text is read from the standard input.
    StandardInput,
}

/// The input of a command: an expression, or else the path of a file.
#[derive(Debug)]
pub struct Input {
    pub path: Option<String>,
    pub expression: String,
}

impl Input {
    /// Whether the command line holds the text itself.
    pub open spec fn is_inline(self) -> bool {
        self.expression@.len() > 0
    }

    /// Where the text comes from: the expression, if there is one; else the
    /// file, if a path is given; else the standard input.
    pub fn source(self) -> (source: Source)
        ensures
            match source {
                Source::Inline(text) => self.is_inline() && text == self.expression,
                Source::File(path) => !self.is_inline() && self.path == Some(path),
                Source::StandardInput => !self.is_inline() && self.path is None,
            },
    {
        if self.expression.as_str().unicode_len() > 0 {
            Source::Inline(self.expression)
        } else {
            match self.path {
                Some(path) => Source::File(path),
                None => Source::StandardInput,
            }
        }
    }
}

/// Asks for the prompt.
#[derive(Debug)]
pub struct PromptCommand;

/// Asks to evaluate an input.
#[derive(Debug)]
pub struct RunCommand {
    pub input: Input,
}

/// Asks for the syntax tree of an input.
#[derive(Debug)]
pub struct ParseCommand {
    pub input: Input,
}

/// Asks for the tokens of an input.
#[derive(Debug)]
pub struct ScanCommand {
    pub input: Input,
}

/// What the program is asked to do.
#[derive(Debug)]
pub enum Commands {
    Prompt(PromptCommand),
    Run(RunCommand),
    Scan(ScanCommand),
    Parse(ParseCommand),
}

impl Default for Commands {
    /// Without a command, the program shows its prompt.
    fn default() -> (command: Commands)
        ensures
            command is Prompt,
    {
        Commands::Prompt(PromptCommand)
    }
}

/// A whole command line.
#[derive(Debug)]
pub struct Arguments {
    pub command: Option<Commands>,
    pub verbosity: Verbosity,
}

impl Arguments {
    /// The command to carry out: the one that was given, or else the prompt.
    pub fn command(self) -> (command: Commands)
        ensures
            match self.command {
                Some(given) => command == given,
                None => command is Prompt,
            },
    {
        match self.command {
            Some(command) => command,
            None => Commands::default(),
        }
    }
}

/// What the prompt makes of a line.
#[derive(Clone, Copy, Debug, PartialEq, Eq, Structural)]
pub enum Validation {
    /// The line can be evaluated, or holds nothing to evaluate.
    Valid,
    /// The line is the beginning of a program: more is to be typed.
    Incomplete,
    /// The line is no program, and more input will not make it one.
    Invalid(SyntacticalError),
}

/// What the prompt makes of `input`: a text of nothing but blank space and
/// comments is valid, and any other text is what the parser says of it.
pub open spec fn validated(input: Seq<char>) -> Validation {
    if token_start(input, 0) >= input.len() {
        Validation::Valid
    } else {
        match rules::program(scan_of(input), 0) {
            Ok(_) => Validation::Valid,
            Err(SyntacticalError::Incomplete) => Validation::Incomplete,
            Err(error) => Validation::Invalid(error),
        }
    }
}

/// See [`validated`].
pub fn validate(input: &str) -> (validation: Validation)
    ensures
        validation == validated(input@),
{
    let mut scanner = Scanner::new(input);
    if scanner.next().is_none() {
        return Validation::Valid;
    }
    match parse(input) {
        Ok(_) => Validation::Valid,
        Err(SyntacticalError::Incomplete) => Validation::Incomplete,
        Err(error) => Validation::Invalid(error),
    }
}

/// Whether `name` is the name of a source file: whether it ends in `.ta`.
pub open spec fn is_source_name(name: Seq<char>) -> bool {
    name.len() >= 3 && name.subrange(name.len() - 3, name.len() as int) == seq!['.', 't', 'a']
}

/// See [`is_source_name`].
pub fn is_tortuga_source(name: &str) -> (found: bool)
    ensures
        found == is_source_name(name@),
{
    let length = name.unicode_len();
    if length < 3 {
        return false;
    }
    let found = name.get_char(length - 3) == '.' && name.get_char(length - 2) == 't'
        && name.get_char(length - 1) == 'a';
    proof {
        let ending = name@.subrange(length - 3, length as int);
        if found {
            assert(ending =~= seq!['.', 't', 'a']);
        } else {
            assert(ending[0] == name@[length - 3]);
            assert(ending[1] == name@[length - 2]);
            assert(ending[2] == name@[length - 1]);
        }
    }
    found
}

} // verus!
