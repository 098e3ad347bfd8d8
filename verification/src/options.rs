//! The runtime options of Proton: each one is asked for by a token and
//! handed to Proton as one environment variable.

use crate::error::{Error, ErrorView, Kind};
use crate::text::{same_text, texts};
use vstd::prelude::*;

verus! {

/// A switch that changes how Proton runs the program.
#[derive(Debug, Clone, Copy, PartialEq, Eq, Structural)]
pub enum RuntimeOption {
    /// Write a debug log.
    Log,
    /// Use the OpenGL renderer in place of the Vulkan one.
    Wined3d,
    /// Hide Direct3D 11.
    NoD3d11,
    /// Hide Direct3D 10.
    NoD3d10,
    /// Do not use eventfd-based synchronisation.
    NoEsync,
    /// Do not use futex-based synchronisation.
    NoFsync,
    /// Offer NVIDIA's NVAPI to the program.
    EnableNvapi,
}

/// The token by which the user asks for `option`.
pub open spec fn token_of(option: RuntimeOption) -> Seq<char> {
    match option {
        RuntimeOption::Log => "log"@,
        RuntimeOption::Wined3d => "wined3d"@,
        RuntimeOption::NoD3d11 => "nod3d11"@,
        RuntimeOption::NoD3d10 => "nod3d10"@,
        RuntimeOption::NoEsync => "noesync"@,
        RuntimeOption::NoFsync => "nofsync"@,
        RuntimeOption::EnableNvapi => "enablenvapi"@,
    }
}

/// The environment variable that hands `option` to Proton.
pub open spec fn variable_of(option: RuntimeOption) -> Seq<char> {
    match option {
        RuntimeOption::Log => "PROTON_LOG"@,
        RuntimeOption::Wined3d => "PROTON_USE_WINED3D"@,
        RuntimeOption::NoD3d11 => "PROTON_NO_D3D11"@,
        RuntimeOption::NoD3d10 => "PROTON_NO_D3D10"@,
        RuntimeOption::NoEsync => "PROTON_NO_ESYNC"@,
        RuntimeOption::NoFsync => "PROTON_NO_FSYNC"@,
        RuntimeOption::EnableNvapi => "PROTON_ENABLE_NVAPI"@,
    }
}

/// The value that switches an option on.
pub open spec fn switched_on() -> Seq<char> {
    "1"@
}

/// The option that `token` asks for, if it asks for one.
pub open spec fn option_of_token(token: Seq<char>) -> Option<RuntimeOption> {
    if token == token_of(RuntimeOption::Log) {
        Some(RuntimeOption::Log)
    } else if token == token_of(RuntimeOption::Wined3d) {
        Some(RuntimeOption::Wined3d)
    } else if token == token_of(RuntimeOption::NoD3d11) {
        Some(RuntimeOption::NoD3d11)
    } else if token == token_of(RuntimeOption::NoD3d10) {
        Some(RuntimeOption::NoD3d10)
    } else if token == token_of(RuntimeOption::NoEsync) {
        Some(RuntimeOption::NoEsync)
    } else if token == token_of(RuntimeOption::NoFsync) {
        Some(RuntimeOption::NoFsync)
    } else if token == token_of(RuntimeOption::EnableNvapi) {
        Some(RuntimeOption::EnableNvapi)
    } else {
        None
    }
}

/// The message of the failure to read `token` as an option.
pub open spec fn unknown_option_message(token: Seq<char>) -> Seq<char> {
    "unknown runtime option: "@ + token
}

/// Whether `tokens[at]` is the first token that asks for no option.
pub open spec fn first_unknown_at(tokens: Seq<Seq<char>>, at: int) -> bool {
    &&& 0 <= at < tokens.len()
    &&& option_of_token(tokens[at]) is None
    &&& forall|j: int| 0 <= j < at ==> option_of_token(#[trigger] tokens[j]) is Some
}

/// The options that `tokens` ask for, in order, or the usage error for the
/// first token that asks for none.
pub open spec fn options_named(tokens: Seq<Seq<char>>) -> Result<Seq<RuntimeOption>, ErrorView>
    decreases tokens.len(),
{
    if tokens.len() == 0 {
        Ok(Seq::<RuntimeOption>::empty())
    } else {
        match options_named(tokens.drop_last()) {
            Err(e) => Err(e),
            Ok(front) => match option_of_token(tokens.last()) {
                Some(option) => Ok(front.push(option)),
                None => Err(
                    ErrorView {
                        kind: Kind::Usage,
                        message: unknown_option_message(tokens.last()),
                    },
                ),
            },
        }
    }
}

/// The view of the result of reading option tokens.
pub open spec fn options_view(r: Result<Vec<RuntimeOption>, Error>) -> Result<
    Seq<RuntimeOption>,
    ErrorView,
> {
    match r {
        Ok(options) => Ok(options@),
        Err(e) => Err(e@),
    }
}

/// Tokens are read one for one: the reading succeeds exactly if every
/// token asks for an option, and then gives the option of each token at
/// its place; else it fails with the first token that asks for none.
pub proof fn lemma_options_named(tokens: Seq<Seq<char>>)
    ensures
        options_named(tokens) is Ok <==> forall|i: int|
            0 <= i < tokens.len() ==> option_of_token(#[trigger] tokens[i]) is Some,
        options_named(tokens) matches Ok(options) ==> options.len() == tokens.len() && forall|
            i: int,
        |
            0 <= i < tokens.len() ==> Some(#[trigger] options[i]) == option_of_token(tokens[i]),
        options_named(tokens) matches Err(e) ==> e.kind == Kind::Usage && exists|at: int|
            first_unknown_at(tokens, at) && e.message == unknown_option_message(tokens[at]),
    decreases tokens.len(),
{
    if tokens.len() > 0 {
        let front = tokens.drop_last();
        let last = tokens.len() - 1;
        lemma_options_named(front);
        match options_named(front) {
            Err(e) => {
                let at = choose|at: int|
                    first_unknown_at(front, at) && e.message == unknown_option_message(front[at]);
                assert(first_unknown_at(tokens, at)) by {
                    assert forall|j: int| 0 <= j < at implies option_of_token(
                        #[trigger] tokens[j],
                    ) is Some by {
                        assert(tokens[j] == front[j]);
                    }
                }
                assert(option_of_token(tokens[at]) is None);
            },
            Ok(options) => {
                assert forall|i: int| 0 <= i < last implies option_of_token(
                    #[trigger] tokens[i],
                ) is Some && Some(options[i]) == option_of_token(tokens[i]) by {
                    assert(tokens[i] == front[i]);
                }
                if option_of_token(tokens.last()) is None {
                    assert(first_unknown_at(tokens, last));
                }
            },
        }
    }
}

/// A failure among the first tokens is the failure of them all.
proof fn lemma_unknown_stays(tokens: Seq<Seq<char>>, n: int)
    requires
        0 <= n <= tokens.len(),
        options_named(tokens.take(n)) is Err,
    ensures
        options_named(tokens) == options_named(tokens.take(n)),
    decreases tokens.len() - n,
{
    if n == tokens.len() {
        assert(tokens.take(n) =~= tokens);
    } else {
        assert(tokens.take(n + 1).drop_last() =~= tokens.take(n));
        lemma_unknown_stays(tokens, n + 1);
    }
}

/// Every option is asked for by a token of its own.
pub proof fn lemma_token_names_its_option(option: RuntimeOption)
    ensures
        option_of_token(token_of(option)) == Some(option),
{
    reveal_strlit("log");
    reveal_strlit("wined3d");
    reveal_strlit("nod3d11");
    reveal_strlit("nod3d10");
    reveal_strlit("noesync");
    reveal_strlit("nofsync");
    reveal_strlit("enablenvapi");
    let t = token_of(option);
    match option {
        RuntimeOption::Log => {},
        RuntimeOption::Wined3d => {
            assert(t[0] == 'w');
        },
        RuntimeOption::NoD3d11 => {
            assert(t[2] == 'd' && t[6] == '1');
        },
        RuntimeOption::NoD3d10 => {
            assert(t[2] == 'd' && t[6] == '0');
        },
        RuntimeOption::NoEsync => {
            assert(t[2] == 'e');
        },
        RuntimeOption::NoFsync => {
            assert(t[2] == 'f');
        },
        RuntimeOption::EnableNvapi => {
            assert(t[0] == 'e');
        },
    }
}

/// Different options are handed over in different variables: none of
/// them overrides another.
pub proof fn lemma_variables_differ(a: RuntimeOption, b: RuntimeOption)
    requires
        a != b,
    ensures
        variable_of(a) != variable_of(b),
{
    reveal_strlit("PROTON_LOG");
    reveal_strlit("PROTON_USE_WINED3D");
    reveal_strlit("PROTON_NO_D3D11");
    reveal_strlit("PROTON_NO_D3D10");
    reveal_strlit("PROTON_NO_ESYNC");
    reveal_strlit("PROTON_NO_FSYNC");
    reveal_strlit("PROTON_ENABLE_NVAPI");
    let x = variable_of(a);
    let y = variable_of(b);
    assert(x.len() != y.len() || x[10] != y[10] || x[14] != y[14]);
}

impl RuntimeOption {
    /// The option that `token` asks for, if it asks for one.
    pub fn from_token(token: &str) -> (r: Option<RuntimeOption>)
        ensures
            r == option_of_token(token@),
    {
        if same_text(token, "log") {
            Some(RuntimeOption::Log)
        } else if same_text(token, "wined3d") {
            Some(RuntimeOption::Wined3d)
        } else if same_text(token, "nod3d11") {
            Some(RuntimeOption::NoD3d11)
        } else if same_text(token, "nod3d10") {
            Some(RuntimeOption::NoD3d10)
        } else if same_text(token, "noesync") {
            Some(RuntimeOption::NoEsync)
        } else if same_text(token, "nofsync") {
            Some(RuntimeOption::NoFsync)
        } else if same_text(token, "enablenvapi") {
            Some(RuntimeOption::EnableNvapi)
        } else {
            None
        }
    }

    /// Reads a token of the user as an option. A token that asks for no
    /// option is a usage error that quotes the token.
    pub fn parse(token: &str) -> (r: Result<RuntimeOption, Error>)
        ensures
            match option_of_token(token@) {
                Some(option) => r == Ok::<RuntimeOption, Error>(option),
                None => r matches Err(e) && e.kind == Kind::Usage && e.message@
                    == unknown_option_message(token@),
            },
    {
        match RuntimeOption::from_token(token) {
            Some(option) => Ok(option),
            None => {
                let mut message = String::from_str("unknown runtime option: ");
                message.append(token);
                Err(Error::new(Kind::Usage, message))
            },
        }
    }

    /// The token by which the user asks for this option.
    pub fn token(&self) -> (t: &'static str)
        ensures
            t@ == token_of(*self),
    {
        match self {
            RuntimeOption::Log => "log",
            RuntimeOption::Wined3d => "wined3d",
            RuntimeOption::NoD3d11 => "nod3d11",
            RuntimeOption::NoD3d10 => "nod3d10",
            RuntimeOption::NoEsync => "noesync",
            RuntimeOption::NoFsync => "nofsync",
            RuntimeOption::EnableNvapi => "enablenvapi",
        }
    }

    /// The environment variable that hands this option to Proton.
    pub fn variable(&self) -> (name: &'static str)
        ensures
            name@ == variable_of(*self),
    {
        match self {
            RuntimeOption::Log => "PROTON_LOG",
            RuntimeOption::Wined3d => "PROTON_USE_WINED3D",
            RuntimeOption::NoD3d11 => "PROTON_NO_D3D11",
            RuntimeOption::NoD3d10 => "PROTON_NO_D3D10",
            RuntimeOption::NoEsync => "PROTON_NO_ESYNC",
            RuntimeOption::NoFsync => "PROTON_NO_FSYNC",
            RuntimeOption::EnableNvapi => "PROTON_ENABLE_NVAPI",
        }
    }
}

/// Reads the option tokens of a request, in order. All of them must ask
/// for an option: the first that does not is a usage error, and no option
/// is passed over in silence.
pub fn parse_options(tokens: &Vec<String>) -> (r: Result<Vec<RuntimeOption>, Error>)
    ensures
        options_view(r) == options_named(texts(tokens@)),
{
    let ghost all = texts(tokens@);
    let mut options: Vec<RuntimeOption> = Vec::new();
    let mut i: usize = 0;
    while i < tokens.len()
        invariant
            i <= tokens.len(),
            all == texts(tokens@),
            options_named(all.take(i as int)) == Ok::<Seq<RuntimeOption>, ErrorView>(options@),
        decreases tokens.len() - i,
    {
        let ghost upto = all.take(i + 1);
        proof {
            assert(upto.drop_last() =~= all.take(i as int));
        }
        match RuntimeOption::parse(tokens[i].as_str()) {
            Ok(option) => {
                options.push(option);
            },
            Err(e) => {
                proof {
                    lemma_unknown_stays(all, i + 1);
                }
                return Err(e);
            },
        }
        i += 1;
    }
    assert(all.take(i as int) =~= all);
    Ok(options)
}

} // verus!
