//! The command line's commands, and what each of them asks for.
use crate::conff::{spec_from_att, ConffTree};
use crate::errors::{SyntaxError, SyntaxErrorView};
use crate::visitor::{spec_action_tree, ActionTree, ActionTreeView};
use vstd::prelude::*;

verus! {

/// A parsed command line.
#[derive(Debug, Clone, PartialEq, Eq)]
pub struct Cli {
    pub command: Command,
}

/// One command of the tool.
#[derive(Debug, Clone, PartialEq, Eq)]
pub enum Command {
    /// Prints a greeting, to see that the tool runs.
    Test,
    /// Compiles a script into a binary artifact.
    Compile { script: String, output: String },
    /// Validates a script, or a binary artifact, without compiling or applying it.
    Check { is_binary: bool, file: String },
    /// Applies a binary artifact, or a script.
    Run { is_script: bool, file: String },
    /// Lists the configuration files under the user's configuration
    /// directory, and under `/etc` too if `etc` is set.
    Search { etc: bool },
}

/// How a command obtains its configuration tree.
#[derive(Debug, Clone, Copy, PartialEq, Eq, Structural)]
pub enum Load {
    /// The command needs no tree.
    Nothing,
    /// Read the file as a script: lex, parse and resolve it.
    Script,
    /// Read the file as a binary artifact and decode it.
    Binary,
}

/// What a command does once its tree, if any, is there.
#[derive(Debug, Clone, Copy, PartialEq, Eq, Structural)]
pub enum Finish {
    /// Print the greeting.
    Greet,
    /// Nothing more: the tree was valid.
    Validate,
    /// Encode the tree and write it to the command's output file.
    WriteArtifact,
    /// Apply the tree's entries, in order.
    Generate,
    /// List candidate configuration files; `etc` says whether `/etc` is included.
    Search { etc: bool },
}

/// The two decisions that a command stands for.
#[derive(Debug, Clone, Copy, PartialEq, Eq, Structural)]
pub struct Plan {
    pub load: Load,
    pub finish: Finish,
}

impl Command {
    /// What this command asks for, as a value.
    pub open spec fn spec_plan(self) -> Plan {
        match self {
            Command::Test => Plan { load: Load::Nothing, finish: Finish::Greet },
            Command::Compile { script, output } => Plan {
                load: Load::Script,
                finish: Finish::WriteArtifact,
            },
            Command::Check { is_binary, file } => Plan {
                load: if is_binary {
                    Load::Binary
                } else {
                    Load::Script
                },
                finish: Finish::Validate,
            },
            Command::Run { is_script, file } => Plan {
                load: if is_script {
                    Load::Script
                } else {
                    Load::Binary
                },
                finish: Finish::Generate,
            },
            Command::Search { etc } => Plan { load: Load::Nothing, finish: Finish::Search { etc } },
        }
    }

    /// The file that this command reads, if it reads one.
    pub open spec fn spec_input(self) -> Option<Seq<char>> {
        match self {
            Command::Compile { script, output } => Some(script@),
            Command::Check { is_binary, file } => Some(file@),
            Command::Run { is_script, file } => Some(file@),
            _ => None,
        }
    }

    /// The file that this command writes, if it writes one.
    pub open spec fn spec_output(self) -> Option<Seq<char>> {
        match self {
            Command::Compile { script, output } => Some(output@),
            _ => None,
        }
    }

    /// The file that this command reads, if it reads one: the script of
    /// `compile`, the file of `check` and of `run`.
    pub fn input(&self) -> (file: Option<&String>)
        ensures
            match file {
                Some(file) => self.spec_input() == Some(file@),
                None => self.spec_input() is None,
            },
    {
        match self {
            Command::Compile { script, .. } => Some(script),
            Command::Check { file, .. } => Some(file),
            Command::Run { file, .. } => Some(file),
            _ => None,
        }
    }

    /// The file that this command writes, if it writes one: the output of
    /// `compile`.
    pub fn output(&self) -> (file: Option<&String>)
        ensures
            match file {
                Some(file) => self.spec_output() == Some(file@),
                None => self.spec_output() is None,
            },
    {
        match self {
            Command::Compile { output, .. } => Some(output),
            _ => None,
        }
    }

    /// Decides how this command obtains its tree and what it does with it.
    ///
    /// `compile` reads a script and writes an artifact; `check` reads a
    /// script, or an artifact with `-b`, and stops; `run` reads an artifact,
    /// or a script with `-s`, and applies it; `test` and `search` read nothing.
    pub fn plan(&self) -> (p: Plan)
        ensures
            p == self.spec_plan(),
    {
        match self {
            Command::Test => Plan { load: Load::Nothing, finish: Finish::Greet },
            Command::Compile { .. } => Plan { load: Load::Script, finish: Finish::WriteArtifact },
            Command::Check { is_binary, .. } => Plan {
                load: if *is_binary {
                    Load::Binary
                } else {
                    Load::Script
                },
                finish: Finish::Validate,
            },
            Command::Run { is_script, .. } => Plan {
                load: if *is_script {
                    Load::Script
                } else {
                    Load::Binary
                },
                finish: Finish::Generate,
            },
            Command::Search { etc } => Plan {
                load: Load::Nothing,
                finish: Finish::Search { etc: *etc },
            },
        }
    }
}

/// The tree of the script `src`: its resolved entries, checked.
pub open spec fn spec_conff_tree(origin: Seq<char>, src: Seq<char>) -> Result<
    ActionTreeView,
    SyntaxErrorView,
> {
    match spec_action_tree(origin, src) {
        Ok(att) => spec_from_att(att),
        Err(e) => Err(e),
    }
}

impl Cli {
    /// Builds the configuration tree of the script `src`, which `origin`
    /// names: lexes, parses, resolves and checks it. The first failure ends
    /// the run.
    pub fn get_conff_tree(origin: &str, src: &str) -> (r: Result<ConffTree, SyntaxError>)
        ensures
            match spec_conff_tree(origin@, src@) {
                Ok(tree) => r is Ok && r->Ok_0.deep_view() == tree,
                Err(e) => r is Err && r->Err_0.deep_view() == e,
            },
    {
        match ActionTree::from_script(origin, src) {
            Ok(att) => ConffTree::from_att(att),
            Err(e) => Err(e),
        }
    }

    /// The plan of this command line's command.
    pub fn plan(&self) -> (p: Plan)
        ensures
            p == self.command.spec_plan(),
    {
        self.command.plan()
    }
}

} // verus!
