//! Versions of Proton: releases that are numbered and ordered, a custom
//! installation that is named by its directory, and the request for
//! whatever release is the newest.

use crate::error::{Error, Kind};
use crate::text::{
    all_digits, chars_of, decimal_text, decimal_value, free_of, is_decimal, is_digit, join,
    lemma_decimal_text_is_decimal, lemma_decimal_text_of_value, lemma_join_holds_pieces,
    lemma_join_of_split,
    lemma_split_extended, lemma_split_of_join, lemma_value_of_decimal_text,
    parse_decimal, push_decimal, split, split_on, string_of, views,
};
use vstd::prelude::*;

verus! {

/// Identifies an installation of Proton, or asks for the newest one.
#[derive(Debug, Clone, PartialEq, Eq)]
pub enum Version {
    /// A numbered release: `major.minor`, then any finer components.
    Release { major: u64, minor: u64, finer: Vec<u64> },
    /// An installation outside the index, labelled by its directory's name.
    Custom(String),
    /// No particular release: the newest that is installed.
    Latest,
}

/// What a [`Version`] stands for.
pub enum VersionView {
    /// The components of a release, of which there are at least two.
    Release(Seq<u64>),
    /// The label of a custom installation.
    Custom(Seq<char>),
    /// The request for the newest release.
    Latest,
}

impl View for Version {
    type V = VersionView;

    open spec fn view(&self) -> VersionView {
        match self {
            Version::Release { major, minor, finer } => VersionView::Release(
                seq![*major, *minor] + finer@,
            ),
            Version::Custom(label) => VersionView::Custom(label@),
            Version::Latest => VersionView::Latest,
        }
    }
}

/// How one release stands to another.
#[derive(Debug, Clone, Copy, PartialEq, Eq, Structural)]
pub enum Rank {
    Older,
    Same,
    Newer,
}

/// Whether `a` and `b` agree before position `k`, and `a` is the lesser at
/// `k`: it ends there while `b` goes on, or holds the smaller number.
pub open spec fn older_at(a: Seq<u64>, b: Seq<u64>, k: int) -> bool {
    &&& 0 <= k <= a.len()
    &&& k < b.len()
    &&& forall|j: int| 0 <= j < k ==> a[j] == b[j]
    &&& (k == a.len() || a[k] < b[k])
}

/// Whether the release with components `a` is older than the one with
/// components `b`: the order of the components, first to last.
pub open spec fn older(a: Seq<u64>, b: Seq<u64>) -> bool {
    exists|k: int| older_at(a, b, k)
}

/// How `a` stands to `b` when both are releases.
pub open spec fn rank_of(a: VersionView, b: VersionView) -> Option<Rank> {
    match (a, b) {
        (VersionView::Release(x), VersionView::Release(y)) => Some(
            if older(x, y) {
                Rank::Older
            } else if older(y, x) {
                Rank::Newer
            } else {
                Rank::Same
            },
        ),
        _ => None,
    }
}

/// No release is older than itself.
pub proof fn lemma_older_is_irreflexive(a: Seq<u64>)
    ensures
        !older(a, a),
{
}

/// Of two releases at most one is older than the other.
pub proof fn lemma_older_is_asymmetric(a: Seq<u64>, b: Seq<u64>)
    requires
        older(a, b),
    ensures
        !older(b, a),
{
    let k = choose|k: int| older_at(a, b, k);
    if older(b, a) {
        let m = choose|m: int| older_at(b, a, m);
        if m < k {
            assert(a[m] == b[m]);
        } else if k < m {
            assert(b[k] == a[k]);
        }
    }
}

/// Older than an older release is older still.
pub proof fn lemma_older_is_transitive(a: Seq<u64>, b: Seq<u64>, c: Seq<u64>)
    requires
        older(a, b),
        older(b, c),
    ensures
        older(a, c),
{
    let k = choose|k: int| older_at(a, b, k);
    let m = choose|m: int| older_at(b, c, m);
    let n = if k <= m {
        k
    } else {
        m
    };
    assert(older_at(a, c, n));
}

/// Two releases that agree on their first `i` components are equal, or one
/// of them is older.
proof fn lemma_ranked_from(a: Seq<u64>, b: Seq<u64>, i: int)
    requires
        0 <= i <= a.len(),
        i <= b.len(),
        forall|j: int| 0 <= j < i ==> a[j] == b[j],
    ensures
        older(a, b) || a == b || older(b, a),
    decreases a.len() - i,
{
    if i == a.len() {
        if i == b.len() {
            assert(a =~= b);
        } else {
            assert(older_at(a, b, i));
        }
    } else if i == b.len() {
        assert(older_at(b, a, i));
    } else if a[i] < b[i] {
        assert(older_at(a, b, i));
    } else if b[i] < a[i] {
        assert(older_at(b, a, i));
    } else {
        lemma_ranked_from(a, b, i + 1);
    }
}

/// Any two releases are ranked: they are equal, or one of them is older.
pub proof fn lemma_older_is_total(a: Seq<u64>, b: Seq<u64>)
    ensures
        older(a, b) || a == b || older(b, a),
{
    lemma_ranked_from(a, b, 0);
}

/// The major component decides first: a release with the smaller major
/// component is older, whatever follows.
pub proof fn lemma_major_decides(a: Seq<u64>, b: Seq<u64>)
    requires
        a.len() >= 1,
        b.len() >= 1,
        a[0] < b[0],
    ensures
        older(a, b),
        !older(b, a),
        rank_of(VersionView::Release(a), VersionView::Release(b)) == Some(Rank::Older),
        rank_of(VersionView::Release(b), VersionView::Release(a)) == Some(Rank::Newer),
{
    assert(older_at(a, b, 0));
    lemma_older_is_asymmetric(a, b);
}

/// With equal major components the minor component decides: the release
/// with the smaller minor component is older, whatever follows.
pub proof fn lemma_minor_decides(a: Seq<u64>, b: Seq<u64>)
    requires
        a.len() >= 2,
        b.len() >= 2,
        a[0] == b[0],
        a[1] < b[1],
    ensures
        older(a, b),
        !older(b, a),
        rank_of(VersionView::Release(a), VersionView::Release(b)) == Some(Rank::Older),
        rank_of(VersionView::Release(b), VersionView::Release(a)) == Some(Rank::Newer),
{
    assert(older_at(a, b, 1));
    lemma_older_is_asymmetric(a, b);
}

/// How the component list `a` stands to `b`.
pub fn rank_components(a: &Vec<u64>, b: &Vec<u64>) -> (r: Rank)
    ensures
        r == Rank::Older <==> older(a@, b@),
        r == Rank::Newer <==> older(b@, a@),
        r == Rank::Same <==> a@ == b@,
{
    let mut i: usize = 0;
    while i < a.len() && i < b.len()
        invariant
            i <= a.len(),
            i <= b.len(),
            forall|j: int| 0 <= j < i ==> a@[j] == b@[j],
        decreases a.len() - i,
    {
        if a[i] < b[i] {
            proof {
                assert(older_at(a@, b@, i as int));
                lemma_older_is_asymmetric(a@, b@);
                lemma_older_is_irreflexive(a@);
            }
            return Rank::Older;
        }
        if b[i] < a[i] {
            proof {
                assert(older_at(b@, a@, i as int));
                lemma_older_is_asymmetric(b@, a@);
                lemma_older_is_irreflexive(a@);
            }
            return Rank::Newer;
        }
        i += 1;
    }
    proof {
        lemma_older_is_irreflexive(a@);
        if i < b.len() {
            assert(older_at(a@, b@, i as int));
            lemma_older_is_asymmetric(a@, b@);
        } else if i < a.len() {
            assert(older_at(b@, a@, i as int));
            lemma_older_is_asymmetric(b@, a@);
        } else {
            assert(a@ =~= b@);
        }
    }
    if i < b.len() {
        Rank::Older
    } else if i < a.len() {
        Rank::Newer
    } else {
        Rank::Same
    }
}


/// Whether `s` is one component of a release: a canonical decimal number
/// that fits in 64 bits.
pub open spec fn is_component(s: Seq<char>) -> bool {
    is_decimal(s) && decimal_value(s) <= u64::MAX
}

/// Whether `s` names a release: two or more components with a dot between
/// neighbours, and nothing else. Neither spaces nor signs nor leading zeros
/// are part of a name.
pub open spec fn is_version_text(s: Seq<char>) -> bool {
    let parts = split(s, '.');
    &&& parts.len() >= 2
    &&& forall|i: int| 0 <= i < parts.len() ==> is_component(#[trigger] parts[i])
}

/// The components that the release name `s` lists.
pub open spec fn components_of_text(s: Seq<char>) -> Seq<u64> {
    let parts = split(s, '.');
    Seq::new(parts.len(), |i: int| decimal_value(parts[i]) as u64)
}

/// Each component as a decimal number.
pub open spec fn component_texts(c: Seq<u64>) -> Seq<Seq<char>> {
    Seq::new(c.len(), |i: int| decimal_text(c[i] as nat))
}

/// The name of the release with components `c`.
pub open spec fn text_of_components(c: Seq<u64>) -> Seq<char> {
    join(component_texts(c), '.')
}

/// The release that `s` names, if it names one.
pub open spec fn parsed(s: Seq<char>) -> Option<VersionView> {
    if is_version_text(s) {
        Some(VersionView::Release(components_of_text(s)))
    } else {
        None
    }
}

/// The text that shows `v` to the user.
pub open spec fn rendered(v: VersionView) -> Seq<char> {
    match v {
        VersionView::Release(c) => text_of_components(c),
        VersionView::Custom(label) => label,
        VersionView::Latest => "latest"@,
    }
}

/// The message of the failure to read `s` as a release name.
pub open spec fn invalid_version_message(s: Seq<char>) -> Seq<char> {
    "invalid Proton version: "@ + s
}

/// The last piece of `parts` that is not empty, or the empty text.
pub open spec fn last_nonempty(parts: Seq<Seq<char>>) -> Seq<char>
    decreases parts.len(),
{
    if parts.len() == 0 {
        Seq::<char>::empty()
    } else if parts.last().len() > 0 {
        parts.last()
    } else {
        last_nonempty(parts.drop_last())
    }
}

/// The label of the custom installation at `path`: the name of the
/// directory that the path ends in, slashes at the end left aside.
pub open spec fn custom_label(path: Seq<char>) -> Seq<char> {
    last_nonempty(split(path, '/'))
}

/// A digit string holds no dot.
proof fn lemma_digits_hold_no_dot(s: Seq<char>)
    requires
        all_digits(s),
    ensures
        free_of(s, '.'),
{
    assert forall|i: int| 0 <= i < s.len() implies #[trigger] s[i] != '.' by {
        assert(is_digit(s[i]));
    }
}

/// Reading a release name and showing the release gives the name back.
pub proof fn lemma_parse_then_render(s: Seq<char>)
    requires
        is_version_text(s),
    ensures
        parsed(s) is Some,
        rendered(parsed(s)->0) == s,
{
    let parts = split(s, '.');
    let texts = component_texts(components_of_text(s));
    assert forall|i: int| 0 <= i < parts.len() implies texts[i] == parts[i] by {
        assert(is_component(parts[i]));
        lemma_decimal_text_of_value(parts[i]);
    }
    assert(texts =~= parts);
    lemma_join_of_split(s, '.');
}

/// Showing a release and reading the text gives the release back.
pub proof fn lemma_render_then_parse(c: Seq<u64>)
    requires
        c.len() >= 2,
    ensures
        is_version_text(text_of_components(c)),
        components_of_text(text_of_components(c)) == c,
        parsed(rendered(VersionView::Release(c))) == Some(VersionView::Release(c)),
{
    let texts = component_texts(c);
    assert forall|i: int| 0 <= i < texts.len() implies free_of(#[trigger] texts[i], '.')
        && is_component(texts[i]) && decimal_value(texts[i]) == c[i] by {
        lemma_decimal_text_is_decimal(c[i] as nat);
        lemma_value_of_decimal_text(c[i] as nat);
        lemma_digits_hold_no_dot(texts[i]);
    }
    lemma_split_of_join(texts, '.');
    assert(components_of_text(text_of_components(c)) =~= c);
}

/// A release name holds digits and dots and nothing else: no blank, no
/// sign, no letter.
pub proof fn lemma_name_holds_digits_and_dots(s: Seq<char>, i: int)
    requires
        is_version_text(s),
        0 <= i < s.len(),
    ensures
        is_digit(s[i]) || s[i] == '.',
{
    let parts = split(s, '.');
    lemma_join_of_split(s, '.');
    lemma_join_holds_pieces(parts, '.', i);
    if s[i] != '.' {
        let (k, j) = choose|k: int, j: int|
            0 <= k < parts.len() && 0 <= j < parts[k].len() && parts[k][j] == s[i];
        assert(is_component(parts[k]));
        assert(is_digit(parts[k][j]));
    }
}

/// A text without a dot names no release.
pub proof fn lemma_name_needs_a_dot(s: Seq<char>)
    requires
        free_of(s, '.'),
    ensures
        !is_version_text(s),
        parsed(s) is None,
{
    let empty = Seq::<char>::empty();
    lemma_split_extended(empty, s, '.');
    assert(empty + s =~= s);
    assert(split(empty, '.') =~= seq![empty]);
    assert(split(s, '.').len() == 1);
}

/// The name of the release with components `comps`.
pub fn render_components(comps: &Vec<u64>) -> (out: Vec<char>)
    ensures
        out@ == text_of_components(comps@),
{
    let mut out: Vec<char> = Vec::new();
    if comps.len() == 0 {
        return out;
    }
    push_decimal(&mut out, comps[0]);
    let mut k: usize = 1;
    while k < comps.len()
        invariant
            1 <= k <= comps.len(),
            out@ == join(component_texts(comps@.take(k as int)), '.'),
        decreases comps.len() - k,
    {
        let ghost texts = component_texts(comps@.take(k + 1));
        proof {
            assert(texts.drop_last() =~= component_texts(comps@.take(k as int)));
        }
        out.push('.');
        push_decimal(&mut out, comps[k]);
        k += 1;
    }
    proof {
        assert(comps@.take(k as int) =~= comps@);
    }
    out
}

impl Version {
    /// The release `major.minor`.
    pub fn release(major: u64, minor: u64) -> (v: Version)
        ensures
            v@ == VersionView::Release(seq![major, minor]),
    {
        let v = Version::Release { major, minor, finer: Vec::new() };
        v
    }

    /// The release with the given components, if there are at least two.
    pub fn from_components(comps: &Vec<u64>) -> (r: Option<Version>)
        ensures
            r is Some <==> comps.len() >= 2,
            r matches Some(v) ==> v@ == VersionView::Release(comps@),
    {
        if comps.len() < 2 {
            return None;
        }
        let mut finer: Vec<u64> = Vec::new();
        let mut k: usize = 2;
        while k < comps.len()
            invariant
                2 <= k <= comps.len(),
                finer@ == comps@.subrange(2, k as int),
            decreases comps.len() - k,
        {
            finer.push(comps[k]);
            k += 1;
        }
        assert(seq![comps@[0], comps@[1]] + finer@ =~= comps@);
        Some(Version::Release { major: comps[0], minor: comps[1], finer })
    }

    /// The components of a release; `None` for the other variants.
    pub fn components(&self) -> (r: Option<Vec<u64>>)
        ensures
            match self@ {
                VersionView::Release(c) => r matches Some(v) && v@ == c && c.len() >= 2,
                _ => r is None,
            },
    {
        match self {
            Version::Release { major, minor, finer } => {
                let mut out: Vec<u64> = Vec::new();
                out.push(*major);
                out.push(*minor);
                let mut k: usize = 0;
                while k < finer.len()
                    invariant
                        k <= finer.len(),
                        out@ == seq![*major, *minor] + finer@.take(k as int),
                    decreases finer.len() - k,
                {
                    out.push(finer[k]);
                    k += 1;
                }
                Some(out)
            },
            _ => None,
        }
    }

    /// Reads a directory's name as a release. A name that is no release
    /// name gives `None`: such a directory is none of ours.
    pub fn from_directory_name(name: &str) -> (r: Option<Version>)
        ensures
            r is Some <==> is_version_text(name@),
            r matches Some(v) ==> Some(v@) == parsed(name@),
    {
        let chars = chars_of(name);
        let parts = split_on(&chars, '.');
        let ghost pieces = split(name@, '.');
        let mut comps: Vec<u64> = Vec::new();
        let mut i: usize = 0;
        while i < parts.len()
            invariant
                i <= parts.len(),
                pieces == split(name@, '.'),
                views(parts@) == pieces,
                comps.len() == i,
                forall|j: int|
                    0 <= j < i ==> is_component(#[trigger] pieces[j]) && comps@[j]
                        == decimal_value(pieces[j]),
            decreases parts.len() - i,
        {
            let part = &parts[i];
            proof {
                assert(part@ == views(parts@)[i as int]);
                assert(part@.subrange(0, part@.len() as int) =~= part@);
            }
            match parse_decimal(part, 0, part.len()) {
                Some(value) => {
                    comps.push(value);
                },
                None => {
                    return None;
                },
            }
            i += 1;
        }
        assert(comps@ =~= components_of_text(name@));
        Version::from_components(&comps)
    }

    /// Reads the text of a request as a release. Any text that is no
    /// release name is a usage error that quotes the text.
    pub fn parse(text: &str) -> (r: Result<Version, Error>)
        ensures
            r is Ok <==> is_version_text(text@),
            r matches Ok(v) ==> Some(v@) == parsed(text@),
            r matches Err(e) ==> e.kind == Kind::Usage && e.message@ == invalid_version_message(
                text@,
            ),
    {
        match Version::from_directory_name(text) {
            Some(v) => Ok(v),
            None => {
                let mut message = String::from_str("invalid Proton version: ");
                message.append(text);
                Err(Error::new(Kind::Usage, message))
            },
        }
    }

    /// The custom installation in the directory `path`.
    pub fn from_custom_path(path: &str) -> (v: Version)
        ensures
            v@ == VersionView::Custom(custom_label(path@)),
    {
        let chars = chars_of(path);
        let parts = split_on(&chars, '/');
        let ghost pieces = split(path@, '/');
        let mut k: usize = parts.len();
        proof {
            assert(pieces.take(k as int) =~= pieces);
        }
        while k > 0
            invariant
                k <= parts.len(),
                pieces == split(path@, '/'),
                views(parts@) == pieces,
                last_nonempty(pieces) == last_nonempty(pieces.take(k as int)),
            decreases k,
        {
            let ghost upto = pieces.take(k as int);
            proof {
                assert(upto.drop_last() =~= pieces.take(k - 1));
            }
            if parts[k - 1].len() > 0 {
                return Version::Custom(string_of(&parts[k - 1]));
            }
            k -= 1;
        }
        Version::Custom(String::new())
    }

    /// The text that shows this version to the user.
    pub fn text(&self) -> (out: String)
        ensures
            out@ == rendered(self@),
    {
        match self {
            Version::Release { .. } => {
                let comps = self.components().unwrap();
                let chars = render_components(&comps);
                string_of(&chars)
            },
            Version::Custom(label) => label.clone(),
            Version::Latest => String::from_str("latest"),
        }
    }

    /// How this version stands to `other`. Only releases are ranked: with
    /// a custom installation or the request for the newest on either side
    /// there is no answer.
    pub fn rank(&self, other: &Version) -> (r: Option<Rank>)
        ensures
            r == rank_of(self@, other@),
            self@ is Release && other@ is Release ==> (r == Some(Rank::Same) <==> self@ == other@),
    {
        match (self.components(), other.components()) {
            (Some(mine), Some(theirs)) => {
                proof {
                    lemma_older_is_irreflexive(mine@);
                    if older(mine@, theirs@) {
                        lemma_older_is_asymmetric(mine@, theirs@);
                    }
                }
                Some(rank_components(&mine, &theirs))
            },
            _ => None,
        }
    }

    /// Whether this version is the request for the newest release.
    pub fn is_latest(&self) -> (b: bool)
        ensures
            b == (self@ is Latest),
    {
        match self {
            Version::Latest => true,
            _ => false,
        }
    }

    /// Whether this version is a custom installation.
    pub fn is_custom(&self) -> (b: bool)
        ensures
            b == (self@ is Custom),
    {
        match self {
            Version::Custom(_) => true,
            _ => false,
        }
    }
}

impl Default for Version {
    /// The request for the newest release.
    fn default() -> (v: Version)
        ensures
            v@ == VersionView::Latest,
    {
        Version::Latest
    }
}

} // verus!
