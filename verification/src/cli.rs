//! The command line: which command it asks for, and what a request to run
//! a program says.
//!
//! The words are taken apart by `jargon_args`. Which word it takes for a
//! key is stated in [`crate::jargon`]; this module states what is made of
//! what it finds.
//!
//! The runtime options are the value of `-o`, a list of tokens with commas
//! between them, as in `-o noesync,wined3d`. Every token must ask for an
//! option. What is left of the command line belongs to the program.

use crate::error::{Error, ErrorView, Kind};
use crate::jargon::{
    after_first, all_plain, alphabetic, is_long_key, is_plain_word, is_short_key, jargon_contains,
    jargon_finish, jargon_flag_at, jargon_from, jargon_option_arg, jargon_value_at, jargon_words,
    lemma_flag_position, takes_for,
};
use crate::options::{
    first_unknown_at, lemma_options_named, option_of_token, options_named, options_view,
    parse_options, unknown_option_message, RuntimeOption,
};
use crate::request::{Request, RequestView};
use crate::text::{chars_of, split, split_on, string_of, text_view, texts, views};
use crate::version::{invalid_version_message, parsed, Version, VersionView};
use vstd::prelude::*;

verus! {

/// What the command line asks for.
#[derive(Debug, Clone, PartialEq, Eq)]
pub enum Command {
    /// Show how the program is used.
    Help,
    /// Show which program this is.
    About,
    /// List the installed releases.
    Index,
    /// Run a program.
    Run(Request),
}

/// What a [`Command`] stands for.
pub enum CommandView {
    Help,
    About,
    Index,
    Run(RequestView),
}

impl View for Command {
    type V = CommandView;

    open spec fn view(&self) -> CommandView {
        match self {
            Command::Help => CommandView::Help,
            Command::About => CommandView::About,
            Command::Index => CommandView::Index,
            Command::Run(request) => CommandView::Run(request@),
        }
    }
}

/// The words of a request to run a program, as the parser found them.
#[derive(Debug, Clone, PartialEq, Eq)]
pub struct Found {
    /// The value of `-r`, `--run`.
    pub program: Option<String>,
    /// The value of `-p`, `--proton`.
    pub version: Option<String>,
    /// The value of `-c`, `--custom`.
    pub custom: Option<String>,
    /// The value of `-R`, `--runtime`.
    pub runtime: Option<String>,
    /// The value of `-d`, `--data`.
    pub data: Option<String>,
    /// The value of `-o`, `--options`: option tokens with commas between.
    pub options: Option<String>,
    /// Whether `-o`, `--options` stands there without a value.
    pub bare_options: bool,
    /// Whether `-l`, `--log` was given.
    pub log: bool,
    /// The words that are left, without the program's own name.
    pub rest: Vec<String>,
}

/// What a [`Found`] stands for.
pub struct FoundView {
    pub program: Option<Seq<char>>,
    pub version: Option<Seq<char>>,
    pub custom: Option<Seq<char>>,
    pub runtime: Option<Seq<char>>,
    pub data: Option<Seq<char>>,
    pub options: Option<Seq<char>>,
    pub bare_options: bool,
    pub log: bool,
    pub rest: Seq<Seq<char>>,
}

impl View for Found {
    type V = FoundView;

    open spec fn view(&self) -> FoundView {
        FoundView {
            program: text_view(self.program),
            version: text_view(self.version),
            custom: text_view(self.custom),
            runtime: text_view(self.runtime),
            data: text_view(self.data),
            options: text_view(self.options),
            bare_options: self.bare_options,
            log: self.log,
            rest: texts(self.rest@),
        }
    }
}

/// The view of the result of reading a request.
pub open spec fn request_view(r: Result<Request, Error>) -> Result<RequestView, ErrorView> {
    match r {
        Ok(request) => Ok(request@),
        Err(e) => Err(e@),
    }
}

/// The view of the result of reading a command line.
pub open spec fn command_view(r: Result<Command, Error>) -> Result<CommandView, ErrorView> {
    match r {
        Ok(command) => Ok(command@),
        Err(e) => Err(e@),
    }
}

/// Whether the parser finds the flag among `words`.
pub open spec fn has_flag(words: Seq<Seq<char>>, short: Seq<char>, long: Seq<char>) -> bool {
    jargon_flag_at(words, short, long) is Some
}

/// The words that the parser leaves after it was asked for the flag.
pub open spec fn without_flag(words: Seq<Seq<char>>, short: Seq<char>, long: Seq<char>) -> Seq<
    Seq<char>,
> {
    match jargon_flag_at(words, short, long) {
        Some(at) => words.remove(at),
        None => words,
    }
}

/// The value that the parser finds for the key among `words`.
pub open spec fn value_of(words: Seq<Seq<char>>, short: Seq<char>, long: Seq<char>) -> Option<
    Seq<char>,
> {
    match jargon_value_at(words, short, long) {
        Some(at) => Some(words[at + 1]),
        None => None,
    }
}

/// The words that the parser leaves after it was asked for the key's
/// value.
pub open spec fn without_value(words: Seq<Seq<char>>, short: Seq<char>, long: Seq<char>) -> Seq<
    Seq<char>,
> {
    match jargon_value_at(words, short, long) {
        Some(at) => words.remove(at).remove(at),
        None => words,
    }
}

/// What the parser finds in the words of a request to run a program: the
/// keys with a value in the order `-r`, `-p`, `-c`, `-R`, `-d`, `-o`, then
/// the flags `-o` and `-l`, each asked of what the ones before left over.
pub open spec fn found_in(words: Seq<Seq<char>>) -> FoundView {
    let after_run = without_value(words, "-r"@, "--run"@);
    let after_proton = without_value(after_run, "-p"@, "--proton"@);
    let after_custom = without_value(after_proton, "-c"@, "--custom"@);
    let after_runtime = without_value(after_custom, "-R"@, "--runtime"@);
    let after_data = without_value(after_runtime, "-d"@, "--data"@);
    let after_options = without_value(after_data, "-o"@, "--options"@);
    let after_bare = without_flag(after_options, "-o"@, "--options"@);
    let after_log = without_flag(after_bare, "-l"@, "--log"@);
    FoundView {
        program: value_of(words, "-r"@, "--run"@),
        version: value_of(after_run, "-p"@, "--proton"@),
        custom: value_of(after_proton, "-c"@, "--custom"@),
        runtime: value_of(after_custom, "-R"@, "--runtime"@),
        data: value_of(after_runtime, "-d"@, "--data"@),
        options: value_of(after_data, "-o"@, "--options"@),
        bare_options: has_flag(after_options, "-o"@, "--options"@),
        log: has_flag(after_bare, "-l"@, "--log"@),
        rest: after_first(after_log),
    }
}

/// The option tokens of a request: the pieces of the value of `-o`
/// between its commas, and none where `-o` was not given.
pub open spec fn tokens_of(value: Option<Seq<char>>) -> Seq<Seq<char>> {
    match value {
        Some(value) => split(value, ','),
        None => Seq::<Seq<char>>::empty(),
    }
}

/// The options of a request: the log where `-l` was given, then the
/// option of each token of `-o`. `-o` without a value is a usage error,
/// and so is the first token that asks for no option.
pub open spec fn options_of(value: Option<Seq<char>>, bare: bool, log: bool) -> Result<
    Seq<RuntimeOption>,
    ErrorView,
> {
    if value is None && bare {
        Err(ErrorView { kind: Kind::Usage, message: missing_options_message() })
    } else {
        match options_named(tokens_of(value)) {
            Err(e) => Err(e),
            Ok(options) => Ok(
                if log {
                    seq![RuntimeOption::Log] + options
                } else {
                    options
                },
            ),
        }
    }
}

/// The message of `-o` without a value.
pub open spec fn missing_options_message() -> Seq<char> {
    "Missing argument: '-o, --options'"@
}

/// The message of a request that names no program.
pub open spec fn missing_program_message() -> Seq<char> {
    "Missing argument: '-r, --run'"@
}

/// The message of a command line with a word that cannot be read.
pub open spec fn unreadable_word_message() -> Seq<char> {
    "an argument is empty or cannot be read"@
}

/// The message of the command that adds an installation.
pub open spec fn add_message() -> Seq<char> {
    "the add command is not available"@
}

/// The version that the text of a request names: the newest where there
/// is no text, the release that the text names, and a usage error where
/// it names none.
pub open spec fn version_of(text: Option<Seq<char>>) -> Result<VersionView, ErrorView> {
    match text {
        None => Ok(VersionView::Latest),
        Some(text) => match parsed(text) {
            Some(version) => Ok(version),
            None => Err(ErrorView { kind: Kind::Usage, message: invalid_version_message(text) }),
        },
    }
}

/// The version of the container runtime that the text of a request
/// names: none where there is no text, and a usage error where the text
/// names no release.
pub open spec fn runtime_of(text: Option<Seq<char>>) -> Result<Option<VersionView>, ErrorView> {
    match text {
        None => Ok(None),
        Some(text) => match parsed(text) {
            Some(version) => Ok(Some(version)),
            None => Err(ErrorView { kind: Kind::Usage, message: invalid_version_message(text) }),
        },
    }
}

/// The request that the found words make. It must name a program; the
/// texts of the two versions must be release names; every option token
/// must ask for an option. The first of these that fails is the error.
/// What is left of the command line goes to the program as it stands.
pub open spec fn request_of(found: FoundView) -> Result<RequestView, ErrorView> {
    match found.program {
        None => Err(ErrorView { kind: Kind::Usage, message: missing_program_message() }),
        Some(program) => match version_of(found.version) {
            Err(e) => Err(e),
            Ok(version) => match runtime_of(found.runtime) {
                Err(e) => Err(e),
                Ok(runtime) => match options_of(found.options, found.bare_options, found.log) {
                    Err(e) => Err(e),
                    Ok(options) => Ok(
                        RequestView {
                            program,
                            version,
                            custom: found.custom,
                            options,
                            args: found.rest,
                            runtime,
                            data: found.data,
                        },
                    ),
                },
            },
        },
    }
}

/// The command that `words` ask for. Help goes before the program's
/// description, that before the listing, and all of them before a run.
pub open spec fn command_of(words: Seq<Seq<char>>) -> Result<CommandView, ErrorView> {
    if !all_plain(words) {
        Err(ErrorView { kind: Kind::Usage, message: unreadable_word_message() })
    } else if has_flag(words, "-h"@, "--help"@) {
        Ok(CommandView::Help)
    } else if has_flag(words, "-v"@, "--version"@) {
        Ok(CommandView::About)
    } else if has_flag(words, "-i"@, "--index"@) {
        Ok(CommandView::Index)
    } else if has_flag(words, "-a"@, "--add"@) {
        Err(ErrorView { kind: Kind::Internal, message: add_message() })
    } else {
        match request_of(found_in(words)) {
            Ok(request) => Ok(CommandView::Run(request)),
            Err(e) => Err(e),
        }
    }
}

/// The name under which the program was invoked: what follows the last
/// slash of the first word.
pub open spec fn program_name_of(invoked: Seq<char>) -> Seq<char> {
    split(invoked, '/').last()
}

/// Every key of the command line has the two forms that the parser wants.
proof fn lemma_keys()
    ensures
        is_short_key("-h"@) && is_long_key("--help"@),
        is_short_key("-v"@) && is_long_key("--version"@),
        is_short_key("-i"@) && is_long_key("--index"@),
        is_short_key("-a"@) && is_long_key("--add"@),
        is_short_key("-r"@) && is_long_key("--run"@),
        is_short_key("-p"@) && is_long_key("--proton"@),
        is_short_key("-c"@) && is_long_key("--custom"@),
        is_short_key("-R"@) && is_long_key("--runtime"@),
        is_short_key("-d"@) && is_long_key("--data"@),
        is_short_key("-o"@) && is_long_key("--options"@),
        is_short_key("-l"@) && is_long_key("--log"@),
{
    reveal_strlit("-h");
    reveal_strlit("--help");
    reveal_strlit("-v");
    reveal_strlit("--version");
    reveal_strlit("-i");
    reveal_strlit("--index");
    reveal_strlit("-a");
    reveal_strlit("--add");
    reveal_strlit("-r");
    reveal_strlit("--run");
    reveal_strlit("-p");
    reveal_strlit("--proton");
    reveal_strlit("-c");
    reveal_strlit("--custom");
    reveal_strlit("-R");
    reveal_strlit("--runtime");
    reveal_strlit("-d");
    reveal_strlit("--data");
    reveal_strlit("-o");
    reveal_strlit("--options");
    reveal_strlit("-l");
    reveal_strlit("--log");
}

/// Help goes before everything else: a command line that the parser can
/// read and that holds `-h` or `--help` anywhere asks for help.
pub proof fn lemma_help_goes_first(words: Seq<Seq<char>>, i: int)
    requires
        all_plain(words),
        0 <= i < words.len(),
        words[i] == "-h"@ || words[i] == "--help"@,
    ensures
        command_of(words) == Ok::<CommandView, ErrorView>(CommandView::Help),
{
    reveal_strlit("-h");
    reveal_strlit("--help");
    assert(takes_for(words[i], "-h"@, "--help"@));
    lemma_flag_position(words, "-h"@, "--help"@);
}

/// No option token is passed over: where the value of `-o` holds a token
/// that asks for no option, the request is refused with a usage error, and
/// where nothing before the options is at fault the error quotes the first
/// such token.
pub proof fn lemma_unknown_token_is_refused(found: FoundView, at: int)
    requires
        found.options is Some,
        first_unknown_at(tokens_of(found.options), at),
    ensures
        request_of(found) matches Err(e) && e.kind == Kind::Usage,
        found.program is Some && version_of(found.version) is Ok && runtime_of(found.runtime)
            is Ok ==> request_of(found) == Err::<RequestView, ErrorView>(
            ErrorView {
                kind: Kind::Usage,
                message: unknown_option_message(tokens_of(found.options)[at]),
            },
        ),
{
    let tokens = tokens_of(found.options);
    lemma_options_named(tokens);
    assert(option_of_token(tokens[at]) is None);
    let e = options_named(tokens)->Err_0;
    let first = choose|first: int|
        first_unknown_at(tokens, first) && e.message == unknown_option_message(tokens[first]);
    if first < at {
        assert(option_of_token(tokens[first]) is Some);
    } else if at < first {
        assert(option_of_token(tokens[at]) is Some);
    }
}

/// Words that the parser can read stay so when one of them is removed.
proof fn lemma_plain_without(words: Seq<Seq<char>>, at: int)
    requires
        all_plain(words),
        0 <= at < words.len(),
    ensures
        all_plain(words.remove(at)),
{
    let left = words.remove(at);
    assert forall|i: int| 0 <= i < left.len() implies is_plain_word(#[trigger] left[i]) by {
        if i < at {
            assert(left[i] == words[i]);
        } else {
            assert(left[i] == words[i + 1]);
        }
    }
}

/// Words that the parser can read stay so when it has taken a flag.
proof fn lemma_plain_after_flag(words: Seq<Seq<char>>, short: Seq<char>, long: Seq<char>)
    requires
        all_plain(words),
    ensures
        all_plain(without_flag(words, short, long)),
{
    lemma_flag_position(words, short, long);
    if let Some(at) = jargon_flag_at(words, short, long) {
        lemma_plain_without(words, at);
    }
}

/// Words that the parser can read stay so when it has taken a key and
/// its value.
proof fn lemma_plain_after_value(words: Seq<Seq<char>>, short: Seq<char>, long: Seq<char>)
    requires
        all_plain(words),
    ensures
        all_plain(without_value(words, short, long)),
{
    lemma_flag_position(words, short, long);
    if let Some(at) = jargon_value_at(words, short, long) {
        lemma_plain_without(words, at);
        lemma_plain_without(words.remove(at), at);
    }
}

/// Whether the parser can read every one of `words`.
pub fn words_are_plain(words: &Vec<String>) -> (plain: bool)
    ensures
        plain == all_plain(texts(words@)),
{
    let mut i: usize = 0;
    while i < words.len()
        invariant
            i <= words.len(),
            forall|j: int| 0 <= j < i ==> is_plain_word(#[trigger] texts(words@)[j]),
        decreases words.len() - i,
    {
        let chars = chars_of(words[i].as_str());
        assert(chars@ == texts(words@)[i as int]);
        if chars.len() == 0 {
            return false;
        }
        if chars.len() == 1 {
            let code: u32 = chars[0] as u32;
            if 0x80 <= code && code < 0x800 && !alphabetic(chars[0]) {
                return false;
            }
        }
        i += 1;
    }
    true
}

/// The option tokens in the value of `-o`: its pieces between commas.
pub fn option_tokens(value: &Option<String>) -> (tokens: Vec<String>)
    ensures
        texts(tokens@) == tokens_of(text_view(*value)),
{
    let mut tokens: Vec<String> = Vec::new();
    match value {
        None => {},
        Some(value) => {
            let chars = chars_of(value.as_str());
            let pieces = split_on(&chars, ',');
            let mut i: usize = 0;
            while i < pieces.len()
                invariant
                    i <= pieces.len(),
                    texts(tokens@) == views(pieces@).take(i as int),
                decreases pieces.len() - i,
            {
                let ghost before = texts(tokens@);
                tokens.push(string_of(&pieces[i]));
                assert(texts(tokens@) =~= before.push(pieces@[i as int]@));
                i += 1;
            }
        },
    }
    tokens
}

/// Reads the options of a request.
fn read_options(options: &Option<String>, bare_options: bool, log: bool) -> (r: Result<
    Vec<RuntimeOption>,
    Error,
>)
    ensures
        options_view(r) == options_of(text_view(*options), bare_options, log),
{
    if options.is_none() && bare_options {
        return Err(Error::new(Kind::Usage, String::from_str("Missing argument: '-o, --options'")));
    }
    let mut named = match parse_options(&option_tokens(options)) {
        Ok(named) => named,
        Err(e) => {
            return Err(e);
        },
    };
    if !log {
        return Ok(named);
    }
    let mut list: Vec<RuntimeOption> = Vec::new();
    list.push(RuntimeOption::Log);
    list.append(&mut named);
    Ok(list)
}

/// Reads the text of a version of a request.
fn read_version(text: &Option<String>) -> (r: Result<Version, Error>)
    ensures
        match version_of(text_view(*text)) {
            Ok(version) => r matches Ok(v) && v@ == version,
            Err(e) => r matches Err(f) && f@ == e,
        },
{
    match text {
        None => Ok(Version::Latest),
        Some(text) => Version::parse(text.as_str()),
    }
}

/// Makes a request of what the parser found. No program is a usage error,
/// and so are a version text that names no release, `-o` without a value
/// and an option token that asks for no option.
pub fn interpret(found: Found) -> (r: Result<Request, Error>)
    ensures
        request_view(r) == request_of(found@),
{
    let Found { program, version, custom, runtime, data, options, bare_options, log, rest } = found;
    let program = match program {
        Some(program) => program,
        None => {
            return Err(
                Error::new(Kind::Usage, String::from_str("Missing argument: '-r, --run'")),
            );
        },
    };
    let version = match read_version(&version) {
        Ok(version) => version,
        Err(e) => {
            return Err(e);
        },
    };
    let runtime = match runtime {
        None => None,
        Some(text) => match Version::parse(text.as_str()) {
            Ok(runtime) => Some(runtime),
            Err(e) => {
                return Err(e);
            },
        },
    };
    let options = match read_options(&options, bare_options, log) {
        Ok(options) => options,
        Err(e) => {
            return Err(e);
        },
    };
    Ok(Request { program, version, custom, options, args: rest, runtime, data })
}

/// Asks the parser for everything that a request to run a program may
/// say.
fn find(j: jargon_args::Jargon) -> (found: Found)
    requires
        all_plain(jargon_words(j)),
    ensures
        found@ == found_in(jargon_words(j)),
{
    let mut j = j;
    let ghost words = jargon_words(j);
    proof {
        lemma_keys();
    }
    let program = jargon_option_arg(&mut j, "-r", "--run");
    proof {
        lemma_plain_after_value(words, "-r"@, "--run"@);
    }
    let ghost after_run = jargon_words(j);
    let version = jargon_option_arg(&mut j, "-p", "--proton");
    proof {
        lemma_plain_after_value(after_run, "-p"@, "--proton"@);
    }
    let ghost after_proton = jargon_words(j);
    let custom = jargon_option_arg(&mut j, "-c", "--custom");
    proof {
        lemma_plain_after_value(after_proton, "-c"@, "--custom"@);
    }
    let ghost after_custom = jargon_words(j);
    let runtime = jargon_option_arg(&mut j, "-R", "--runtime");
    proof {
        lemma_plain_after_value(after_custom, "-R"@, "--runtime"@);
    }
    let ghost after_runtime = jargon_words(j);
    let data = jargon_option_arg(&mut j, "-d", "--data");
    proof {
        lemma_plain_after_value(after_runtime, "-d"@, "--data"@);
    }
    let ghost after_data = jargon_words(j);
    let options = jargon_option_arg(&mut j, "-o", "--options");
    proof {
        lemma_plain_after_value(after_data, "-o"@, "--options"@);
    }
    let ghost after_options = jargon_words(j);
    let bare_options = jargon_contains(&mut j, "-o", "--options");
    proof {
        lemma_plain_after_flag(after_options, "-o"@, "--options"@);
    }
    let log = jargon_contains(&mut j, "-l", "--log");
    let rest = jargon_finish(j);
    Found { program, version, custom, runtime, data, options, bare_options, log, rest }
}

/// Reads the command line, the program's own name first.
pub fn parse_command_line(args: Vec<String>) -> (r: Result<Command, Error>)
    ensures
        command_view(r) == command_of(texts(args@)),
{
    if !words_are_plain(&args) {
        return Err(
            Error::new(Kind::Usage, String::from_str("an argument is empty or cannot be read")),
        );
    }
    let mut j = jargon_from(args);
    proof {
        lemma_keys();
    }
    if jargon_contains(&mut j, "-h", "--help") {
        return Ok(Command::Help);
    }
    if jargon_contains(&mut j, "-v", "--version") {
        return Ok(Command::About);
    }
    if jargon_contains(&mut j, "-i", "--index") {
        return Ok(Command::Index);
    }
    if jargon_contains(&mut j, "-a", "--add") {
        return Err(Error::new(Kind::Internal, String::from_str("the add command is not available")));
    }
    match interpret(find(j)) {
        Ok(request) => Ok(Command::Run(request)),
        Err(e) => Err(e),
    }
}

/// The name under which the program was invoked.
pub fn program_name(invoked: &str) -> (name: String)
    ensures
        name@ == program_name_of(invoked@),
{
    let chars = chars_of(invoked);
    let parts = split_on(&chars, '/');
    proof {
        crate::text::lemma_split_pieces(invoked@, '/');
    }
    string_of(&parts[parts.len() - 1])
}

} // verus!
