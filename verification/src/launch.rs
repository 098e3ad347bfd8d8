//! The launch of a program under Proton: the argument vector and the
//! environment of the child process, and the reading of how it ended.
//!
//! Starting the process and waiting for it is the caller's part. The
//! environment assembled here is merged over the one that the caller
//! inherited; it does not replace it.

use crate::error::{Error, Kind};
use crate::options::{switched_on, variable_of, RuntimeOption};
use crate::text::{push_signed, signed_text, string_of, text_view, texts};
use crate::version::{Version, VersionView};
use vstd::prelude::*;

verus! {

/// One environment variable for the child process.
#[derive(Debug, Clone, PartialEq, Eq)]
pub struct Variable {
    pub name: String,
    pub value: String,
}

/// What a [`Variable`] stands for.
pub struct VariableView {
    pub name: Seq<char>,
    pub value: Seq<char>,
}

impl View for Variable {
    type V = VariableView;

    open spec fn view(&self) -> VariableView {
        VariableView { name: self.name@, value: self.value@ }
    }
}

/// The views of a list of variables.
pub open spec fn variable_views(list: Seq<Variable>) -> Seq<VariableView> {
    Seq::new(list.len(), |i: int| list[i]@)
}

/// Everything that one launch needs, resolved.
#[derive(Debug, Clone, PartialEq, Eq)]
pub struct Proton {
    /// The version that was asked for.
    pub version: Version,
    /// The directory of the installation.
    pub path: String,
    /// The program to run.
    pub program: String,
    /// The arguments of the program, in the order given.
    pub args: Vec<String>,
    /// The runtime options asked for, in the order given.
    pub options: Vec<RuntimeOption>,
    /// The directory for Proton's own state.
    pub data: String,
    /// The directory of the Steam installation.
    pub steam: String,
    /// The directory of the container runtime, where one was asked for.
    pub runtime: Option<String>,
}

/// What a [`Proton`] stands for.
pub struct ProtonView {
    pub version: VersionView,
    pub path: Seq<char>,
    pub program: Seq<char>,
    pub args: Seq<Seq<char>>,
    pub options: Seq<RuntimeOption>,
    pub data: Seq<char>,
    pub steam: Seq<char>,
    pub runtime: Option<Seq<char>>,
}

impl View for Proton {
    type V = ProtonView;

    open spec fn view(&self) -> ProtonView {
        ProtonView {
            version: self.version@,
            path: self.path@,
            program: self.program@,
            args: texts(self.args@),
            options: self.options@,
            data: self.data@,
            steam: self.steam@,
            runtime: text_view(self.runtime),
        }
    }
}

/// What is handed to the operating system: the argument vector, whose
/// first element is the executable, and the variables to set.
#[derive(Debug, Clone, PartialEq, Eq)]
pub struct Launch {
    pub arguments: Vec<String>,
    pub environment: Vec<Variable>,
}

/// What a [`Launch`] stands for.
pub struct LaunchView {
    pub arguments: Seq<Seq<char>>,
    pub environment: Seq<VariableView>,
}

impl View for Launch {
    type V = LaunchView;

    open spec fn view(&self) -> LaunchView {
        LaunchView {
            arguments: texts(self.arguments@),
            environment: variable_views(self.environment@),
        }
    }
}

/// The variable that tells Proton where to keep its state.
pub open spec fn data_variable() -> Seq<char> {
    "STEAM_COMPAT_DATA_PATH"@
}

/// The variable that tells Proton where Steam is installed.
pub open spec fn steam_variable() -> Seq<char> {
    "STEAM_COMPAT_CLIENT_INSTALL_PATH"@
}

/// The variable that tells Proton where the container runtime is.
pub open spec fn runtime_variable() -> Seq<char> {
    "STEAM_RUNTIME"@
}

/// The executable of the installation in the directory `path`.
pub open spec fn entry_point(path: Seq<char>) -> Seq<char> {
    path + "/proton"@
}

/// The argument vector: Proton's executable, the verb `run`, the program,
/// then the program's arguments as they were given.
pub open spec fn arguments_of(p: ProtonView) -> Seq<Seq<char>> {
    seq![entry_point(p.path), "run"@, p.program] + p.args
}

/// One variable for each option, in the order of the options.
pub open spec fn option_variables(options: Seq<RuntimeOption>) -> Seq<VariableView> {
    Seq::new(
        options.len(),
        |i: int| VariableView { name: variable_of(options[i]), value: switched_on() },
    )
}

/// The variable for the container runtime, where there is one.
pub open spec fn runtime_variables(runtime: Option<Seq<char>>) -> Seq<VariableView> {
    match runtime {
        Some(path) => seq![VariableView { name: runtime_variable(), value: path }],
        None => Seq::<VariableView>::empty(),
    }
}

/// The variables to set: the two directories, then the options, then the
/// container runtime.
pub open spec fn environment_of(p: ProtonView) -> Seq<VariableView> {
    seq![
        VariableView { name: data_variable(), value: p.data },
        VariableView { name: steam_variable(), value: p.steam },
    ] + option_variables(p.options) + runtime_variables(p.runtime)
}

/// The launch that `p` asks for.
pub open spec fn launch_of(p: ProtonView) -> LaunchView {
    LaunchView { arguments: arguments_of(p), environment: environment_of(p) }
}

/// The same parameters give the same launch.
pub proof fn lemma_launch_is_determined(p: ProtonView, q: ProtonView)
    requires
        p.path == q.path,
        p.program == q.program,
        p.args == q.args,
        p.options == q.options,
        p.data == q.data,
        p.steam == q.steam,
        p.runtime == q.runtime,
    ensures
        launch_of(p) == launch_of(q),
{
}

/// Nothing is lost and nothing is added: after the three fixed arguments
/// stand the program's arguments, each at its place; after the two
/// directories stands one variable for each option, each at its place;
/// and the container runtime, where there is one, comes last.
pub proof fn lemma_launch_keeps_everything(p: ProtonView)
    ensures
        launch_of(p).arguments.len() == 3 + p.args.len(),
        launch_of(p).arguments[0] == entry_point(p.path),
        launch_of(p).arguments[1] == "run"@,
        launch_of(p).arguments[2] == p.program,
        forall|i: int| 0 <= i < p.args.len() ==> launch_of(p).arguments[3 + i] == p.args[i],
        launch_of(p).environment.len() == 2 + p.options.len() + if p.runtime is Some {
            1int
        } else {
            0int
        },
        launch_of(p).environment[0] == (VariableView { name: data_variable(), value: p.data }),
        launch_of(p).environment[1] == (VariableView { name: steam_variable(), value: p.steam }),
        forall|i: int|
            0 <= i < p.options.len() ==> launch_of(p).environment[2 + i] == (VariableView {
                name: variable_of(p.options[i]),
                value: switched_on(),
            }),
        p.runtime matches Some(path) ==> launch_of(p).environment.last() == (VariableView {
            name: runtime_variable(),
            value: path,
        }),
{
}

impl Proton {
    /// The parameters of one launch.
    pub fn new(
        version: Version,
        path: String,
        program: String,
        args: Vec<String>,
        options: Vec<RuntimeOption>,
        data: String,
        steam: String,
        runtime: Option<String>,
    ) -> (proton: Proton)
        ensures
            proton == (Proton { version, path, program, args, options, data, steam, runtime }),
    {
        Proton { version, path, program, args, options, data, steam, runtime }
    }

    /// The argument vector and the environment of the child process. The
    /// parameters are used up: one launch is made of them.
    pub fn launch(self) -> (launch: Launch)
        ensures
            launch@ == launch_of(self@),
    {
        let ghost p = self@;
        let Proton { version: _, path, program, args, options, data, steam, runtime } = self;
        let mut entry = path;
        entry.append("/proton");
        let mut arguments: Vec<String> = Vec::new();
        arguments.push(entry);
        arguments.push(String::from_str("run"));
        arguments.push(program);
        let mut args = args;
        arguments.append(&mut args);
        assert(texts(arguments@) =~= arguments_of(p));

        let mut environment: Vec<Variable> = Vec::new();
        environment.push(Variable { name: String::from_str("STEAM_COMPAT_DATA_PATH"), value: data });
        environment.push(
            Variable { name: String::from_str("STEAM_COMPAT_CLIENT_INSTALL_PATH"), value: steam },
        );
        let ghost paths = seq![
            VariableView { name: data_variable(), value: p.data },
            VariableView { name: steam_variable(), value: p.steam },
        ];
        let mut k: usize = 0;
        while k < options.len()
            invariant
                k <= options.len(),
                paths.len() == 2,
                variable_views(environment@) == paths + option_variables(options@).take(k as int),
            decreases options.len() - k,
        {
            let option = options[k];
            let ghost before = variable_views(environment@);
            let ghost added = VariableView { name: variable_of(option), value: switched_on() };
            environment.push(
                Variable { name: String::from_str(option.variable()), value: String::from_str("1") },
            );
            assert(variable_views(environment@) =~= before.push(added));
            k += 1;
        }
        assert(option_variables(options@).take(k as int) =~= option_variables(options@));
        match runtime {
            Some(path) => {
                environment.push(Variable { name: String::from_str("STEAM_RUNTIME"), value: path });
            },
            None => {},
        }
        assert(variable_views(environment@) =~= environment_of(p));
        Launch { arguments, environment }
    }
}

/// How the child process ended, as the operating system tells it.
#[derive(Debug, Clone, Copy, PartialEq, Eq, Structural)]
pub struct Exit {
    /// Whether it ended with success.
    pub success: bool,
    /// Its exit code, where it has one: a process that a signal ended has
    /// none.
    pub code: Option<i32>,
}

/// The message for a child that ended without success.
pub open spec fn exit_message(code: Option<i32>) -> Seq<char> {
    match code {
        Some(code) => "code: "@ + signed_text(code as int),
        None => "an error"@,
    }
}

/// The message for a launch that the operating system refused.
pub open spec fn launch_failure_message(detail: Seq<char>) -> Seq<char> {
    "failed to launch Proton: "@ + detail
}

/// Reads how the child ended: success is success, and anything else is a
/// failure of the child that tells its exit code where there is one.
pub fn check_exit(exit: Exit) -> (r: Result<(), Error>)
    ensures
        r is Ok <==> exit.success,
        r matches Err(e) ==> e.kind == Kind::ProtonExit && e.message@ == exit_message(exit.code),
{
    if exit.success {
        return Ok(());
    }
    match exit.code {
        Some(code) => {
            let mut digits: Vec<char> = Vec::new();
            push_signed(&mut digits, code);
            let mut message = String::from_str("code: ");
            message.append(string_of(&digits).as_str());
            Err(Error::new(Kind::ProtonExit, message))
        },
        None => Err(Error::new(Kind::ProtonExit, String::from_str("an error"))),
    }
}

/// The failure of a launch that never started: the operating system's
/// words in an I/O error, which is no failure of the child.
pub fn launch_failure(detail: &str) -> (e: Error)
    ensures
        e.kind == Kind::Io,
        e.message@ == launch_failure_message(detail@),
{
    let mut message = String::from_str("failed to launch Proton: ");
    message.append(detail);
    Error::new(Kind::Io, message)
}

} // verus!
