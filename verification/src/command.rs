//! Construction of the concrete invocation for a detected build tool: the
//! program name and its ordered argument list, with the thread count and the
//! marker directory rendered as the tool's own flags.

use crate::detect::BuildProgram;
use crate::numeral::dec_str;
use crate::numeral::usize_to_string;
use vstd::prelude::*;

verus! {

/// A concrete subprocess invocation: the program to run and its ordered
/// argument list. Built fresh per run and never executed by this library.
pub struct BuildInvocation {
    pub program: String,
    pub args: Vec<String>,
}

impl BuildInvocation {
    /// The invocation as plain character sequences: program name and argument
    /// list.
    pub open spec fn model(self) -> (Seq<char>, Seq<Seq<char>>) {
        (self.program@, self.args.deep_view())
    }
}

/// The argument list shared by `make` and `ninja`: `-j <threads>` when a
/// thread count is given, then `-C <directory>` when a directory is given.
pub open spec fn jc_args(threads: Option<usize>, directory: Option<Seq<char>>) -> Seq<Seq<char>> {
    (match threads {
        Some(n) => seq!["-j"@, dec_str(n as nat)],
        None => Seq::<Seq<char>>::empty(),
    }) + (match directory {
        Some(d) => seq!["-C"@, d],
        None => Seq::<Seq<char>>::empty(),
    })
}

/// The argument list for `cmake`: always `-C` with the directory (`.` when
/// none is given), then `-j <threads>` when a thread count is given.
pub open spec fn cmake_args(threads: Option<usize>, directory: Option<Seq<char>>) -> Seq<
    Seq<char>,
> {
    seq![
        "-C"@,
        (match directory {
            Some(d) => d,
            None => "."@,
        }),
    ] + (match threads {
        Some(n) => seq!["-j"@, dec_str(n as nat)],
        None => Seq::<Seq<char>>::empty(),
    })
}

/// The program name and argument list constructed for a build tool, an
/// optional thread count, and an optional marker directory. `cargo` takes the
/// fixed `build` subcommand and forwards neither parameter.
pub open spec fn command_spec(
    program: BuildProgram,
    threads: Option<usize>,
    directory: Option<Seq<char>>,
) -> (Seq<char>, Seq<Seq<char>>) {
    match program {
        BuildProgram::Make => ("make"@, jc_args(threads, directory)),
        BuildProgram::Ninja => ("ninja"@, jc_args(threads, directory)),
        BuildProgram::CMake => ("cmake"@, cmake_args(threads, directory)),
        BuildProgram::Cargo => ("cargo"@, seq!["build"@]),
    }
}

/// Command construction is a pure function of its inputs: identical inputs
/// yield identical invocations, program and arguments alike.
pub proof fn lemma_build_command_pure(
    program: BuildProgram,
    threads1: Option<usize>,
    directory1: Option<Seq<char>>,
    threads2: Option<usize>,
    directory2: Option<Seq<char>>,
)
    requires
        threads1 == threads2,
        directory1 == directory2,
    ensures
        command_spec(program, threads1, directory1) == command_spec(program, threads2, directory2),
{
}

fn jc_arg_vec(threads: Option<usize>, directory: Option<&String>) -> (r: Vec<String>)
    ensures
        r.deep_view() == jc_args(threads, directory.deep_view()),
{
    let mut args: Vec<String> = Vec::new();
    if let Some(n) = threads {
        args.push(String::from_str("-j"));
        args.push(usize_to_string(n));
    }
    if let Some(d) = directory {
        args.push(String::from_str("-C"));
        args.push(d.clone());
    }
    proof {
        assert(args.deep_view() =~= jc_args(threads, directory.deep_view()));
    }
    args
}

impl BuildProgram {
    /// The `make` invocation for the given thread count and directory.
    pub fn build_make_command(threads: Option<usize>, directory: Option<&String>) -> (r:
        BuildInvocation)
        ensures
            r.model() == command_spec(BuildProgram::Make, threads, directory.deep_view()),
    {
        BuildInvocation { program: String::from_str("make"), args: jc_arg_vec(threads, directory) }
    }

    /// The `ninja` invocation for the given thread count and directory.
    pub fn build_ninja_command(threads: Option<usize>, directory: Option<&String>) -> (r:
        BuildInvocation)
        ensures
            r.model() == command_spec(BuildProgram::Ninja, threads, directory.deep_view()),
    {
        BuildInvocation { program: String::from_str("ninja"), args: jc_arg_vec(threads, directory) }
    }

    /// The `cmake` invocation for the given thread count and directory.
    pub fn build_cmake_command(threads: Option<usize>, directory: Option<&String>) -> (r:
        BuildInvocation)
        ensures
            r.model() == command_spec(BuildProgram::CMake, threads, directory.deep_view()),
    {
        let mut args: Vec<String> = Vec::new();
        args.push(String::from_str("-C"));
        match directory {
            Some(d) => args.push(d.clone()),
            None => args.push(String::from_str(".")),
        }
        if let Some(n) = threads {
            args.push(String::from_str("-j"));
            args.push(usize_to_string(n));
        }
        proof {
            assert(args.deep_view() =~= cmake_args(threads, directory.deep_view()));
        }
        BuildInvocation { program: String::from_str("cmake"), args }
    }

    /// The full invocation for this build tool: dispatches to the per-tool
    /// construction rules above.
    pub fn build_command(self, threads: Option<usize>, directory: Option<&String>) -> (r:
        BuildInvocation)
        ensures
            r.model() == command_spec(self, threads, directory.deep_view()),
    {
        match self {
            BuildProgram::Make => BuildProgram::build_make_command(threads, directory),
            BuildProgram::Ninja => BuildProgram::build_ninja_command(threads, directory),
            BuildProgram::CMake => BuildProgram::build_cmake_command(threads, directory),
            BuildProgram::Cargo => {
                let mut args: Vec<String> = Vec::new();
                args.push(String::from_str("build"));
                proof {
                    assert(args.deep_view() =~= seq!["build"@]);
                }
                BuildInvocation { program: String::from_str("cargo"), args }
            },
        }
    }
}

} // verus!
