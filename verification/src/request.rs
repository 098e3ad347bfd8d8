//! A request as the command line states it, and the two ways from a
//! request to the parameters of a launch: through the index, or with a
//! custom installation that bypasses it.

use crate::error::{Error, Kind};
use crate::launch::{Proton, ProtonView};
use crate::options::RuntimeOption;
use crate::text::{text_view, texts};
use crate::version::{custom_label, Version, VersionView};
use vstd::prelude::*;

verus! {

/// The three directories of the configuration.
#[derive(Debug, Clone, PartialEq, Eq)]
pub struct Config {
    /// Where Proton keeps its state.
    pub data: String,
    /// Where Steam is installed.
    pub steam: String,
    /// The root under which the releases of Proton are installed.
    pub common: String,
}

/// What the user asked to run, and how.
#[derive(Debug, Clone, PartialEq, Eq)]
pub struct Request {
    /// The program to run.
    pub program: String,
    /// The version of Proton asked for.
    pub version: Version,
    /// The directory of a custom installation, which bypasses the index.
    pub custom: Option<String>,
    /// The runtime options, in the order given.
    pub options: Vec<RuntimeOption>,
    /// The arguments of the program, in the order given.
    pub args: Vec<String>,
    /// The version of the container runtime, where one is asked for.
    pub runtime: Option<Version>,
    /// A directory for Proton's state in place of the configured one.
    pub data: Option<String>,
}

/// What a [`Request`] stands for.
pub struct RequestView {
    pub program: Seq<char>,
    pub version: VersionView,
    pub custom: Option<Seq<char>>,
    pub options: Seq<RuntimeOption>,
    pub args: Seq<Seq<char>>,
    pub runtime: Option<VersionView>,
    pub data: Option<Seq<char>>,
}

impl View for Request {
    type V = RequestView;

    open spec fn view(&self) -> RequestView {
        RequestView {
            program: self.program@,
            version: self.version@,
            custom: text_view(self.custom),
            options: self.options@,
            args: texts(self.args@),
            runtime: match self.runtime {
                Some(version) => Some(version@),
                None => None,
            },
            data: text_view(self.data),
        }
    }
}

/// The directory for Proton's state: the one of the request where it
/// names one, else the configured one.
pub open spec fn data_of(config: Config, request: Request) -> Seq<char> {
    match request.data {
        Some(data) => data@,
        None => config.data@,
    }
}

/// The message of a custom launch without a custom directory.
pub open spec fn custom_mode_message() -> Seq<char> {
    "failed to run custom mode"@
}

/// The parameters of a launch of `request` with the installation at
/// `path`, asked for as `version`.
pub open spec fn parameters_of(
    config: Config,
    request: Request,
    version: VersionView,
    path: Seq<char>,
    runtime: Option<Seq<char>>,
) -> ProtonView {
    ProtonView {
        version,
        path,
        program: request.program@,
        args: texts(request.args@),
        options: request.options@,
        data: data_of(config, request),
        steam: config.steam@,
        runtime,
    }
}

/// Which way a request goes to its installation.
#[derive(Debug, Clone, Copy, PartialEq, Eq, Structural)]
pub enum Mode {
    /// With the custom installation that the request names.
    Custom,
    /// Through the index, by the version of the request.
    Indexed,
}

/// The message of a launch whose container runtime does not fit the
/// request: the request asks for one and no directory was found for it,
/// or a directory is given and the request asks for none.
pub open spec fn runtime_mismatch_message() -> Seq<char> {
    "the runtime of the request was not resolved"@
}

/// Whether the directory of the container runtime fits the request: there
/// is one exactly if the request asks for a runtime.
pub open spec fn runtime_fits(request: Request, runtime: Option<String>) -> bool {
    request.runtime is Some <==> runtime is Some
}

impl Request {
    /// Which way this request goes: custom mode exactly if it names a
    /// custom installation.
    pub fn mode(&self) -> (mode: Mode)
        ensures
            mode == Mode::Custom <==> self.custom is Some,
    {
        match self.custom {
            Some(_) => Mode::Custom,
            None => Mode::Indexed,
        }
    }
}

/// The failure of a launch whose container runtime does not fit.
fn runtime_mismatch() -> (e: Error)
    ensures
        e.kind == Kind::Internal,
        e.message@ == runtime_mismatch_message(),
{
    Error::new(Kind::Internal, String::from_str("the runtime of the request was not resolved"))
}

/// The parameters of a launch with the installation that the index gave
/// at `path`. `runtime` is the directory of the container runtime as its
/// own index gave it: it must be there exactly if the request asks for a
/// runtime, so that no request is launched without the runtime it asks
/// for.
pub fn normal_mode(config: &Config, request: Request, path: String, runtime: Option<String>) -> (r:
    Result<Proton, Error>)
    ensures
        r is Ok <==> runtime_fits(request, runtime),
        r matches Ok(p) ==> p@ == parameters_of(
            *config,
            request,
            request.version@,
            path@,
            text_view(runtime),
        ),
        r matches Err(e) ==> e.kind == Kind::Internal && e.message@ == runtime_mismatch_message(),
{
    let Request { program, version, custom: _, options, args, runtime: asked, data } = request;
    if asked.is_some() != runtime.is_some() {
        return Err(runtime_mismatch());
    }
    let data = match data {
        Some(data) => data,
        None => config.data.clone(),
    };
    Ok(Proton::new(version, path, program, args, options, data, config.steam.clone(), runtime))
}

/// The parameters of a launch with the custom installation that the
/// request names. A request that names none cannot be launched so. The
/// directory of the container runtime must fit the request as in
/// [`normal_mode`].
pub fn custom_mode(config: &Config, request: Request, runtime: Option<String>) -> (r: Result<
    Proton,
    Error,
>)
    ensures
        r is Ok <==> request.custom is Some && runtime_fits(request, runtime),
        r matches Ok(p) ==> p@ == parameters_of(
            *config,
            request,
            VersionView::Custom(custom_label(request.custom->0@)),
            request.custom->0@,
            text_view(runtime),
        ),
        r matches Err(e) ==> e.kind == Kind::Internal && e.message@ == if request.custom is None {
            custom_mode_message()
        } else {
            runtime_mismatch_message()
        },
{
    let Request { program, version: _, custom, options, args, runtime: asked, data } = request;
    match custom {
        Some(path) => {
            if asked.is_some() != runtime.is_some() {
                return Err(runtime_mismatch());
            }
            let data = match data {
                Some(data) => data,
                None => config.data.clone(),
            };
            let version = Version::from_custom_path(path.as_str());
            Ok(Proton::new(version, path, program, args, options, data, config.steam.clone(), runtime))
        },
        None => Err(Error::new(Kind::Internal, String::from_str("failed to run custom mode"))),
    }
}

} // verus!
