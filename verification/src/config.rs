//! The configuration file: three directories, each on a line of its own
//! as `key = "value"`.

use crate::error::{Error, ErrorView, Kind};
use crate::request::Config;
use crate::text::{chars_of, same_text, split, split_on, string_of, views};
use vstd::prelude::*;

verus! {

/// Whether `c` is a blank: a space, a tab or a carriage return.
pub open spec fn is_blank(c: char) -> bool {
    c == ' ' || c == '\t' || c == '\r'
}

/// `s` without the blanks at its start and at its end.
pub open spec fn trimmed(s: Seq<char>) -> Seq<char>
    decreases s.len(),
{
    if s.len() > 0 && is_blank(s[0]) {
        trimmed(s.drop_first())
    } else if s.len() > 0 && is_blank(s.last()) {
        trimmed(s.drop_last())
    } else {
        s
    }
}

/// The position of the first `c` in `s`, or the length of `s` where there
/// is none.
pub open spec fn position_of(s: Seq<char>, c: char) -> int
    decreases s.len(),
{
    if s.len() == 0 || s[0] == c {
        0
    } else {
        1 + position_of(s.drop_first(), c)
    }
}

/// Whether `s` stands between two double quotes that are its only ones.
pub open spec fn is_quoted(s: Seq<char>) -> bool {
    &&& s.len() >= 2
    &&& s[0] == '"'
    &&& position_of(s.skip(1), '"') == s.len() - 2
}

/// What one line of the file says.
pub enum Line {
    /// Nothing: the line is empty or a comment, which starts with `#`.
    Blank,
    /// That the directory `key` is `value`.
    Entry(Seq<char>, Seq<char>),
    /// Nothing that can be read.
    Malformed,
}

/// What `line` says.
pub open spec fn line_of(line: Seq<char>) -> Line {
    let t = trimmed(line);
    let at = position_of(t, '=');
    if t.len() == 0 || t[0] == '#' {
        Line::Blank
    } else if at == t.len() {
        Line::Malformed
    } else {
        let value = trimmed(t.skip(at + 1));
        if is_quoted(value) {
            Line::Entry(trimmed(t.take(at)), value.subrange(1, value.len() - 1))
        } else {
            Line::Malformed
        }
    }
}

/// The directories read so far.
pub struct Draft {
    pub data: Option<Seq<char>>,
    pub steam: Option<Seq<char>>,
    pub common: Option<Seq<char>>,
}

/// The message for a line that cannot be read.
pub open spec fn malformed_line_message(line: Seq<char>) -> Seq<char> {
    "invalid line in the configuration: "@ + line
}

/// The message for a key that names none of the three directories.
pub open spec fn unknown_key_message(key: Seq<char>) -> Seq<char> {
    "unknown key in the configuration: "@ + key
}

/// The message for a directory that the file does not give.
pub open spec fn missing_key_message(key: Seq<char>) -> Seq<char> {
    "missing key in the configuration: "@ + key
}

/// `draft` with what `line` says. A later line for a key replaces an
/// earlier one.
pub open spec fn with_line(draft: Draft, line: Seq<char>) -> Result<Draft, ErrorView> {
    match line_of(line) {
        Line::Blank => Ok(draft),
        Line::Malformed => Err(
            ErrorView { kind: Kind::Config, message: malformed_line_message(line) },
        ),
        Line::Entry(key, value) => if key == "data"@ {
            Ok(Draft { data: Some(value), ..draft })
        } else if key == "steam"@ {
            Ok(Draft { steam: Some(value), ..draft })
        } else if key == "common"@ {
            Ok(Draft { common: Some(value), ..draft })
        } else {
            Err(ErrorView { kind: Kind::Config, message: unknown_key_message(key) })
        },
    }
}

/// What the lines say together, or the failure of the first line that
/// cannot be taken.
pub open spec fn draft_of(lines: Seq<Seq<char>>) -> Result<Draft, ErrorView>
    decreases lines.len(),
{
    if lines.len() == 0 {
        Ok(Draft { data: None, steam: None, common: None })
    } else {
        match draft_of(lines.drop_last()) {
            Ok(draft) => with_line(draft, lines.last()),
            Err(e) => Err(e),
        }
    }
}

/// What a [`Config`] stands for.
pub struct ConfigView {
    pub data: Seq<char>,
    pub steam: Seq<char>,
    pub common: Seq<char>,
}

/// The configuration that the text of the file gives. All three
/// directories must be there.
pub open spec fn config_of(text: Seq<char>) -> Result<ConfigView, ErrorView> {
    match draft_of(split(text, '\n')) {
        Err(e) => Err(e),
        Ok(draft) => match (draft.data, draft.steam, draft.common) {
            (None, _, _) => Err(
                ErrorView { kind: Kind::Config, message: missing_key_message("data"@) },
            ),
            (Some(_), None, _) => Err(
                ErrorView { kind: Kind::Config, message: missing_key_message("steam"@) },
            ),
            (Some(_), Some(_), None) => Err(
                ErrorView { kind: Kind::Config, message: missing_key_message("common"@) },
            ),
            (Some(data), Some(steam), Some(common)) => Ok(ConfigView { data, steam, common }),
        },
    }
}

/// The view of the result of reading a configuration.
pub open spec fn config_view(r: Result<Config, Error>) -> Result<ConfigView, ErrorView> {
    match r {
        Ok(config) => Ok(
            ConfigView { data: config.data@, steam: config.steam@, common: config.common@ },
        ),
        Err(e) => Err(e@),
    }
}

/// Whether `c` is a blank.
fn blank(c: char) -> (b: bool)
    ensures
        b == is_blank(c),
{
    c == ' ' || c == '\t' || c == '\r'
}

/// The characters of `chars` from `from` up to `to`.
fn slice_of(chars: &Vec<char>, from: usize, to: usize) -> (out: Vec<char>)
    requires
        from <= to <= chars.len(),
    ensures
        out@ == chars@.subrange(from as int, to as int),
{
    let mut out: Vec<char> = Vec::new();
    let mut i: usize = from;
    while i < to
        invariant
            from <= i <= to <= chars.len(),
            out@ == chars@.subrange(from as int, i as int),
        decreases to - i,
    {
        out.push(chars[i]);
        i += 1;
    }
    out
}

/// `chars` without the blanks at its start and at its end.
pub fn trim(chars: &Vec<char>) -> (out: Vec<char>)
    ensures
        out@ == trimmed(chars@),
{
    let n = chars.len();
    let mut start: usize = 0;
    assert(chars@.subrange(0, n as int) =~= chars@);
    while start < n && blank(chars[start])
        invariant
            start <= n == chars.len(),
            trimmed(chars@) == trimmed(chars@.subrange(start as int, n as int)),
        decreases n - start,
    {
        assert(chars@.subrange(start as int, n as int).drop_first() =~= chars@.subrange(
            start + 1,
            n as int,
        ));
        start += 1;
    }
    let mut end: usize = n;
    while end > start && blank(chars[end - 1])
        invariant
            start <= end <= n == chars.len(),
            start < n ==> !is_blank(chars@[start as int]),
            trimmed(chars@) == trimmed(chars@.subrange(start as int, end as int)),
        decreases end,
    {
        assert(chars@.subrange(start as int, end as int).drop_last() =~= chars@.subrange(
            start as int,
            end - 1,
        ));
        end -= 1;
    }
    slice_of(chars, start, end)
}

/// The position of the first `c` in `chars`, or the length of `chars`
/// where there is none.
pub fn find_char(chars: &Vec<char>, c: char) -> (at: usize)
    ensures
        at == position_of(chars@, c),
        at <= chars.len(),
{
    let n = chars.len();
    let mut i: usize = 0;
    assert(chars@.subrange(0, n as int) =~= chars@);
    while i < n && chars[i] != c
        invariant
            i <= n == chars.len(),
            position_of(chars@, c) == i + position_of(chars@.subrange(i as int, n as int), c),
        decreases n - i,
    {
        assert(chars@.subrange(i as int, n as int).drop_first() =~= chars@.subrange(
            i + 1,
            n as int,
        ));
        i += 1;
    }
    i
}

/// What one line says, with the key and the value of an entry as text.
enum Read {
    Blank,
    Entry(String, String),
    Malformed,
}

/// Reads one line.
fn read_line(line: &Vec<char>) -> (read: Read)
    ensures
        match line_of(line@) {
            Line::Blank => read is Blank,
            Line::Malformed => read is Malformed,
            Line::Entry(key, value) => read matches Read::Entry(k, v) && k@ == key && v@ == value,
        },
{
    let t = trim(line);
    if t.len() == 0 || t[0] == '#' {
        return Read::Blank;
    }
    let at = find_char(&t, '=');
    if at == t.len() {
        return Read::Malformed;
    }
    let key = trim(&slice_of(&t, 0, at));
    let value = trim(&slice_of(&t, at + 1, t.len()));
    if value.len() < 2 || value[0] != '"' {
        return Read::Malformed;
    }
    let inner = slice_of(&value, 1, value.len());
    if find_char(&inner, '"') != value.len() - 2 {
        return Read::Malformed;
    }
    Read::Entry(string_of(&key), string_of(&slice_of(&value, 1, value.len() - 1)))
}

/// Reads the text of the configuration file. A line is empty, a comment
/// that starts with `#`, or gives one of the directories `data`, `steam`
/// and `common` in double quotes. The first line that is none of these is
/// an error, and so is a directory that no line gives.
pub fn parse_config(text: &str) -> (r: Result<Config, Error>)
    ensures
        config_view(r) == config_of(text@),
{
    let chars = chars_of(text);
    let lines = split_on(&chars, '\n');
    let ghost all = split(text@, '\n');
    let mut data: Option<String> = None;
    let mut steam: Option<String> = None;
    let mut common: Option<String> = None;
    let mut i: usize = 0;
    while i < lines.len()
        invariant
            i <= lines.len(),
            all == split(text@, '\n'),
            views(lines@) == all,
            draft_of(all.take(i as int)) == Ok::<Draft, ErrorView>(
                Draft {
                    data: crate::text::text_view(data),
                    steam: crate::text::text_view(steam),
                    common: crate::text::text_view(common),
                },
            ),
        decreases lines.len() - i,
    {
        let ghost upto = all.take(i + 1);
        proof {
            assert(upto.drop_last() =~= all.take(i as int));
        }
        match read_line(&lines[i]) {
            Read::Blank => {},
            Read::Malformed => {
                proof {
                    lemma_failure_stays(all, i + 1);
                }
                let mut message = String::from_str("invalid line in the configuration: ");
                message.append(string_of(&lines[i]).as_str());
                return Err(Error::new(Kind::Config, message));
            },
            Read::Entry(key, value) => {
                if same_text(key.as_str(), "data") {
                    data = Some(value);
                } else if same_text(key.as_str(), "steam") {
                    steam = Some(value);
                } else if same_text(key.as_str(), "common") {
                    common = Some(value);
                } else {
                    proof {
                        lemma_failure_stays(all, i + 1);
                    }
                    let mut message = String::from_str("unknown key in the configuration: ");
                    message.append(key.as_str());
                    return Err(Error::new(Kind::Config, message));
                }
            },
        }
        i += 1;
    }
    assert(all.take(i as int) =~= all);
    match (data, steam, common) {
        (Some(data), Some(steam), Some(common)) => Ok(Config { data, steam, common }),
        (None, _, _) => Err(Error::new(Kind::Config, missing_key("data"))),
        (Some(_), None, _) => Err(Error::new(Kind::Config, missing_key("steam"))),
        (Some(_), Some(_), None) => Err(Error::new(Kind::Config, missing_key("common"))),
    }
}

/// The message for a directory that the file does not give.
fn missing_key(key: &str) -> (message: String)
    ensures
        message@ == missing_key_message(key@),
{
    let mut message = String::from_str("missing key in the configuration: ");
    message.append(key);
    message
}

/// A failure among the first lines is the failure of them all.
proof fn lemma_failure_stays(lines: Seq<Seq<char>>, n: int)
    requires
        0 <= n <= lines.len(),
        draft_of(lines.take(n)) is Err,
    ensures
        draft_of(lines) == draft_of(lines.take(n)),
    decreases lines.len() - n,
{
    if n == lines.len() {
        assert(lines.take(n) =~= lines);
    } else {
        assert(lines.take(n + 1).drop_last() =~= lines.take(n));
        lemma_failure_stays(lines, n + 1);
    }
}

} // verus!
