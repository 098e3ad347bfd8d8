//! The index of installed releases: which directory holds which release,
//! kept in ascending order of release.

use crate::error::{Error, Kind};
use crate::text::{free_of, is_free_of, string_of, text_view};
use crate::version::{
    lemma_older_is_asymmetric, lemma_older_is_irreflexive, lemma_older_is_transitive, older,
    parsed, rank_components, render_components, text_of_components, Rank, Version, VersionView,
};
use vstd::prelude::*;

verus! {

/// One thing found directly under the root directory.
#[derive(Debug, Clone, PartialEq, Eq)]
pub struct Child {
    /// Its name within the root directory.
    pub name: String,
    /// Its absolute path.
    pub path: String,
    /// Whether it is a directory.
    pub is_dir: bool,
}

/// What a [`Child`] stands for.
pub struct ChildView {
    pub name: Seq<char>,
    pub path: Seq<char>,
    pub is_dir: bool,
}

impl View for Child {
    type V = ChildView;

    open spec fn view(&self) -> ChildView {
        ChildView { name: self.name@, path: self.path@, is_dir: self.is_dir }
    }
}

/// The views of a list of children.
pub open spec fn child_views(children: Seq<Child>) -> Seq<ChildView> {
    Seq::new(children.len(), |i: int| children[i]@)
}

/// An indexed release: its components and the directory that holds it.
pub struct Installed {
    pub key: Seq<u64>,
    pub path: Seq<char>,
}

/// Whether `e` lists releases only, each once, the older before the newer.
pub open spec fn ascending(e: Seq<Installed>) -> bool {
    &&& forall|i: int| 0 <= i < e.len() ==> (#[trigger] e[i]).key.len() >= 2
    &&& forall|i: int, j: int|
        #![trigger e[i], e[j]]
        0 <= i < j < e.len() ==> older(e[i].key, e[j].key)
}

/// Whether `e` holds the release `key` at position `i`.
pub open spec fn holds_at(e: Seq<Installed>, key: Seq<u64>, i: int) -> bool {
    0 <= i < e.len() && e[i].key == key
}

/// The directory that `e` gives for the release `key`, if it lists it.
pub open spec fn path_of(e: Seq<Installed>, key: Seq<u64>) -> Option<Seq<char>> {
    if exists|i: int| holds_at(e, key, i) {
        Some(e[choose|i: int| holds_at(e, key, i)].path)
    } else {
        None
    }
}

/// The directory of the newest release in `e`, if there is any release.
pub open spec fn newest(e: Seq<Installed>) -> Option<Seq<char>> {
    if e.len() == 0 {
        None
    } else {
        Some(e.last().path)
    }
}

/// What the index answers to a request: for a release, its directory if
/// indexed; for the newest, the directory of the greatest release; for a
/// custom installation, nothing, for none is ever indexed.
pub open spec fn answer(e: Seq<Installed>, request: VersionView) -> Option<Seq<char>> {
    match request {
        VersionView::Release(key) => path_of(e, key),
        VersionView::Latest => newest(e),
        VersionView::Custom(_) => None,
    }
}

/// Whether `root` can be the path of a directory: it is not empty and
/// holds no NUL.
pub open spec fn is_path(root: Seq<char>) -> bool {
    root.len() > 0 && free_of(root, '\0')
}

/// The message for a root that is no path.
pub open spec fn unusable_root_message(root: Seq<char>) -> Seq<char> {
    "unusable root directory: "@ + root
}

/// Whether `child` is a directory whose name is that of the release `key`.
pub open spec fn names_release(child: ChildView, key: Seq<u64>) -> bool {
    child.is_dir && parsed(child.name) == Some(VersionView::Release(key))
}

/// The directory that a scan of `children` leaves for the release `key`:
/// that of the last directory among them with that release's name.
pub open spec fn scanned(children: Seq<ChildView>, key: Seq<u64>) -> Option<Seq<char>>
    decreases children.len(),
{
    if children.len() == 0 {
        None
    } else if names_release(children.last(), key) {
        Some(children.last().path)
    } else {
        scanned(children.drop_last(), key)
    }
}

/// One line of the listing: the release, a space, its directory.
pub open spec fn listing_line(entry: Installed) -> Seq<char> {
    (text_of_components(entry.key).push(' ') + entry.path).push('\n')
}

/// The listing of `e`: one line for each release, in the order of `e`.
pub open spec fn listing_of(e: Seq<Installed>) -> Seq<char>
    decreases e.len(),
{
    if e.len() == 0 {
        Seq::<char>::empty()
    } else {
        listing_of(e.drop_last()) + listing_line(e.last())
    }
}

/// In an ascending list a release stands at one position only, so the
/// directory found for it is the one at that position.
pub proof fn lemma_path_at(e: Seq<Installed>, i: int)
    requires
        ascending(e),
        0 <= i < e.len(),
    ensures
        path_of(e, e[i].key) == Some(e[i].path),
{
    let key = e[i].key;
    assert(holds_at(e, key, i));
    let c = choose|c: int| holds_at(e, key, c);
    lemma_older_is_irreflexive(key);
    if c < i {
        assert(older(e[c].key, e[i].key));
    } else if i < c {
        assert(older(e[i].key, e[c].key));
    }
}

/// The last release of an ascending list is the greatest: every other one
/// is older. So the answer to a request for the newest is the directory of
/// the maximum.
pub proof fn lemma_newest_is_greatest(e: Seq<Installed>, i: int)
    requires
        ascending(e),
        0 <= i < e.len(),
    ensures
        i == e.len() - 1 || older(e[i].key, e.last().key),
        answer(e, VersionView::Latest) == Some(e.last().path),
{
    if i < e.len() - 1 {
        assert(older(e[i].key, e[e.len() - 1].key));
    }
}

/// A scan gives a directory for a release exactly if some directory among
/// the children has that release's name, and gives the path of the last
/// such directory.
pub proof fn lemma_scanned(children: Seq<ChildView>, key: Seq<u64>)
    ensures
        scanned(children, key) is Some <==> exists|i: int|
            0 <= i < children.len() && names_release(#[trigger] children[i], key),
        forall|i: int|
            0 <= i < children.len() && names_release(#[trigger] children[i], key) && (forall|
                j: int,
            |
                i < j < children.len() ==> !names_release(#[trigger] children[j], key))
                ==> scanned(children, key) == Some(children[i].path),
    decreases children.len(),
{
    if children.len() > 0 {
        let front = children.drop_last();
        lemma_scanned(front, key);
        if names_release(children.last(), key) {
            assert(names_release(children[children.len() - 1], key));
        } else {
            if scanned(front, key) is Some {
                let i = choose|i: int| 0 <= i < front.len() && names_release(#[trigger] front[i], key);
                assert(names_release(children[i], key));
            }
            if exists|i: int| 0 <= i < children.len() && names_release(#[trigger] children[i], key) {
                let i = choose|i: int|
                    0 <= i < children.len() && names_release(#[trigger] children[i], key);
                assert(names_release(front[i], key));
            }
            assert forall|i: int|
                0 <= i < children.len() && names_release(#[trigger] children[i], key) && (forall|
                    j: int,
                |
                    i < j < children.len() ==> !names_release(
                        #[trigger] children[j],
                        key,
                    )) implies scanned(children, key) == Some(children[i].path) by {
                assert(names_release(front[i], key));
                assert forall|j: int| i < j < front.len() implies !names_release(
                    #[trigger] front[j],
                    key,
                ) by {
                    assert(!names_release(children[j], key));
                }
            }
        }
    }
}

/// Where the releases before `at` are older than `key`, and the release at
/// `at` is `key` itself or newer, the list holds `key` exactly if it stands
/// at `at`.
proof fn lemma_position(e: Seq<Installed>, key: Seq<u64>, at: int, found: bool)
    requires
        ascending(e),
        0 <= at <= e.len(),
        forall|j: int| 0 <= j < at ==> older((#[trigger] e[j]).key, key),
        found ==> at < e.len() && e[at].key == key,
        !found ==> at == e.len() || older(key, e[at].key),
    ensures
        found <==> path_of(e, key) is Some,
        found ==> path_of(e, key) == Some(e[at].path),
{
    if found {
        lemma_path_at(e, at);
    } else if exists|i: int| holds_at(e, key, i) {
        let i = choose|i: int| holds_at(e, key, i);
        lemma_older_is_irreflexive(key);
        if i < at {
            assert(older(e[i].key, key));
        } else if i > at {
            assert(older(e[at].key, e[i].key));
            lemma_older_is_transitive(key, e[at].key, e[i].key);
        }
    }
}

/// Without its last release an ascending list is ascending still, answers
/// nothing for that release, and answers as before for every other.
proof fn lemma_without_last(e: Seq<Installed>, key: Seq<u64>)
    requires
        ascending(e),
        e.len() > 0,
    ensures
        ascending(e.drop_last()),
        path_of(e.drop_last(), key) == if key == e.last().key {
            None
        } else {
            path_of(e, key)
        },
{
    let front = e.drop_last();
    let last = e.len() - 1;
    assert forall|i: int, j: int|
        #![trigger front[i], front[j]]
        0 <= i < j < front.len() implies older(front[i].key, front[j].key) by {
        assert(older(e[i].key, e[j].key));
    }
    assert forall|i: int| 0 <= i < front.len() implies (#[trigger] front[i]).key.len() >= 2 by {
        assert(e[i].key.len() >= 2);
    }
    if exists|i: int| holds_at(front, key, i) {
        let i = choose|i: int| holds_at(front, key, i);
        assert(holds_at(e, key, i));
        lemma_path_at(front, i);
        lemma_path_at(e, i);
        assert(older(e[i].key, e[last].key));
        lemma_older_is_irreflexive(key);
    } else if key != e.last().key {
        if exists|i: int| holds_at(e, key, i) {
            let i = choose|i: int| holds_at(e, key, i);
            assert(holds_at(front, key, i));
        }
    }
}

/// An index is determined by its answers: two ascending lists that give
/// the same directory for every release are the same list.
pub proof fn lemma_answers_determine_list(a: Seq<Installed>, b: Seq<Installed>)
    requires
        ascending(a),
        ascending(b),
        forall|key: Seq<u64>| #[trigger] path_of(a, key) == path_of(b, key),
    ensures
        a == b,
    decreases a.len(),
{
    if a.len() == 0 {
        if b.len() > 0 {
            lemma_path_at(b, 0);
            assert(path_of(a, b[0].key) is None);
        }
        assert(a =~= b);
    } else {
        let la = a.len() - 1;
        lemma_path_at(a, la);
        assert(path_of(b, a[la].key) is Some);
        let j = choose|j: int| holds_at(b, a[la].key, j);
        let lb = b.len() - 1;
        lemma_path_at(b, lb);
        assert(path_of(a, b[lb].key) is Some);
        let i = choose|i: int| holds_at(a, b[lb].key, i);
        if j < lb {
            assert(older(b[j].key, b[lb].key));
            lemma_older_is_irreflexive(a[la].key);
            if i < la {
                assert(older(a[i].key, a[la].key));
                lemma_older_is_asymmetric(a[i].key, a[la].key);
            }
        }
        assert(j == lb);
        lemma_path_at(b, j);
        assert(a.last() == b.last());
        assert forall|key: Seq<u64>| #[trigger]
            path_of(a.drop_last(), key) == path_of(b.drop_last(), key) by {
            lemma_without_last(a, key);
            lemma_without_last(b, key);
            assert(path_of(a, key) == path_of(b, key));
        }
        lemma_without_last(a, a[la].key);
        lemma_without_last(b, a[la].key);
        lemma_answers_determine_list(a.drop_last(), b.drop_last());
        assert(a =~= a.drop_last().push(a.last()));
        assert(b =~= b.drop_last().push(b.last()));
    }
}

/// Putting the release `key` into an ascending list, in place of an entry
/// for the same release or else where the order wants it, gives an
/// ascending list that answers `path` for `key` and is unchanged for every
/// other release.
proof fn lemma_put(e: Seq<Installed>, after: Seq<Installed>, key: Seq<u64>, path: Seq<char>, at: int, found: bool)
    requires
        ascending(e),
        key.len() >= 2,
        0 <= at <= e.len(),
        forall|j: int| 0 <= j < at ==> older((#[trigger] e[j]).key, key),
        found ==> at < e.len() && e[at].key == key,
        !found ==> at == e.len() || older(key, e[at].key),
        after == if found {
            e.update(at, Installed { key, path })
        } else {
            e.insert(at, Installed { key, path })
        },
    ensures
        ascending(after),
        found <==> path_of(e, key) is Some,
        forall|other: Seq<u64>| #[trigger]
            path_of(after, other) == if other == key {
                Some(path)
            } else {
                path_of(e, other)
            },
{
    lemma_position(e, key, at, found);
    let shift = |i: int|
        if found || i < at {
            i
        } else {
            i + 1
        };
    assert forall|i: int, j: int|
        #![trigger after[i], after[j]]
        0 <= i < j < after.len() implies older(after[i].key, after[j].key) by {
        if found {
            assert(older(e[i].key, e[j].key));
        } else if j < at {
            assert(older(e[i].key, e[j].key));
        } else if j == at {
            assert(older(e[i].key, key));
        } else if i == at {
            if j - 1 > at {
                assert(older(e[at].key, e[j - 1].key));
                lemma_older_is_transitive(key, e[at].key, e[j - 1].key);
            }
        } else if i < at {
            assert(older(e[i].key, e[j - 1].key));
        } else {
            assert(older(e[i - 1].key, e[j - 1].key));
        }
    }
    assert forall|i: int| 0 <= i < after.len() implies (#[trigger] after[i]).key.len() >= 2 by {
        if !found && i > at {
            assert(e[i - 1].key.len() >= 2);
        } else if i != at {
            assert(e[i].key.len() >= 2);
        }
    }
    assert(after[at].key == key && after[at].path == path);
    lemma_path_at(after, at);
    assert forall|other: Seq<u64>| other != key implies #[trigger] path_of(after, other)
        == path_of(e, other) by {
        if exists|i: int| holds_at(e, other, i) {
            let i = choose|i: int| holds_at(e, other, i);
            lemma_path_at(e, i);
            assert(after[shift(i)] == e[i]);
            lemma_path_at(after, shift(i));
        } else if exists|i: int| holds_at(after, other, i) {
            let i = choose|i: int| holds_at(after, other, i);
            let back = if found || i < at {
                i
            } else {
                i - 1
            };
            assert(after[i] == e[back]);
            assert(holds_at(e, other, back));
        }
    }
}

/// One release in the index.
#[derive(Debug, Clone)]
struct Entry {
    key: Vec<u64>,
    path: String,
}

/// The releases installed under one root directory.
///
/// The mapping from release to directory is kept as a vector in ascending
/// order of release, so that the order is the one proved in
/// [`crate::version`] and the newest release is the last entry.
#[derive(Debug, Clone)]
pub struct Index {
    root: String,
    entries: Vec<Entry>,
}

impl View for Index {
    type V = Seq<Installed>;

    closed spec fn view(&self) -> Seq<Installed> {
        Seq::new(
            self.entries@.len(),
            |i: int| Installed { key: self.entries@[i].key@, path: self.entries@[i].path@ },
        )
    }
}

impl Index {
    /// The root directory that this index is bound to.
    pub closed spec fn root_view(&self) -> Seq<char> {
        self.root@
    }

    /// Whether the index is in order: see [`ascending`].
    pub open spec fn wf(&self) -> bool {
        ascending(self@)
    }

    /// An empty index bound to `root`. Nothing is read: all that can be
    /// wrong with the root is its text, which must be a path.
    pub fn new(root: &str) -> (r: Result<Index, Error>)
        ensures
            r is Ok <==> is_path(root@),
            r matches Ok(index) ==> index.wf() && index@ == Seq::<Installed>::empty()
                && index.root_view() == root@,
            r matches Err(e) ==> e.kind == Kind::Config && e.message@ == unusable_root_message(
                root@,
            ),
    {
        if root.unicode_len() == 0 || !is_free_of(root, '\0') {
            let mut message = String::from_str("unusable root directory: ");
            message.append(root);
            return Err(Error::new(Kind::Config, message));
        }
        let index = Index { root: String::from_str(root), entries: Vec::new() };
        Ok(index)
    }

    /// The root directory that this index is bound to.
    pub fn root(&self) -> (root: &str)
        ensures
            root@ == self.root_view(),
    {
        self.root.as_str()
    }

    /// The number of releases in the index.
    pub fn len(&self) -> (n: usize)
        ensures
            n == self@.len(),
    {
        self.entries.len()
    }

    /// Whether the index holds no release.
    pub fn is_empty(&self) -> (b: bool)
        ensures
            b == (self@.len() == 0),
    {
        self.entries.len() == 0
    }

    /// Where `key` stands or would stand: the first position whose release
    /// is not older, and whether that release is `key` itself.
    fn position(&self, key: &Vec<u64>) -> (r: (usize, bool))
        requires
            self.wf(),
        ensures
            r.0 <= self@.len(),
            forall|j: int| 0 <= j < r.0 ==> older((#[trigger] self@[j]).key, key@),
            r.1 ==> r.0 < self@.len() && self@[r.0 as int].key == key@,
            !r.1 ==> r.0 == self@.len() || older(key@, self@[r.0 as int].key),
    {
        let mut i: usize = 0;
        while i < self.entries.len()
            invariant
                i <= self.entries.len(),
                self.entries.len() == self@.len(),
                forall|j: int| 0 <= j < i ==> older((#[trigger] self@[j]).key, key@),
            decreases self.entries.len() - i,
        {
            match rank_components(&self.entries[i].key, key) {
                Rank::Older => {},
                Rank::Same => {
                    return (i, true);
                },
                Rank::Newer => {
                    return (i, false);
                },
            }
            i += 1;
        }
        (i, false)
    }

    /// Records that the release `version` is installed at `path`, in place
    /// of what was recorded for that release before. A version that is no
    /// release is not recorded.
    fn insert(&mut self, version: &Version, path: String)
        requires
            old(self).wf(),
        ensures
            final(self).wf(),
            final(self).root_view() == old(self).root_view(),
            match version@ {
                VersionView::Release(key) => {
                    &&& forall|other: Seq<u64>| #[trigger]
                        path_of(final(self)@, other) == if other == key {
                            Some(path@)
                        } else {
                            path_of(old(self)@, other)
                        }
                    &&& final(self)@.len() == old(self)@.len() + if path_of(old(self)@, key)
                        is Some {
                        0int
                    } else {
                        1int
                    }
                },
                _ => final(self)@ == old(self)@,
            },
    {
        let key = match version.components() {
            Some(key) => key,
            None => {
                return ;
            },
        };
        let (at, found) = self.position(&key);
        let ghost before = self@;
        let ghost entry = Installed { key: key@, path: path@ };
        if found {
            self.entries.set(at, Entry { key, path });
            assert(self@ =~= before.update(at as int, entry));
        } else {
            self.entries.insert(at, Entry { key, path });
            assert(self@ =~= before.insert(at as int, entry));
        }
        proof {
            lemma_put(before, self@, entry.key, entry.path, at as int, found);
        }
    }

    /// Replaces the contents of the index by what a scan of the root
    /// directory found. Each directory among `children` whose name is a
    /// release name is recorded under that release; where two have the
    /// name of one release, the later one stays. Everything else among the
    /// children is passed over.
    pub fn rebuild(&mut self, children: &Vec<Child>)
        ensures
            final(self).wf(),
            final(self).root_view() == old(self).root_view(),
            forall|key: Seq<u64>| #[trigger]
                path_of(final(self)@, key) == scanned(child_views(children@), key),
    {
        self.entries = Vec::new();
        let mut n: usize = 0;
        while n < children.len()
            invariant
                n <= children.len(),
                self.wf(),
                self.root_view() == old(self).root_view(),
                forall|key: Seq<u64>| #[trigger]
                    path_of(self@, key) == scanned(child_views(children@).take(n as int), key),
            decreases children.len() - n,
        {
            let child = &children[n];
            let ghost seen = child_views(children@).take(n as int);
            let ghost next = child_views(children@).take(n + 1);
            proof {
                assert(next.drop_last() =~= seen);
            }
            if child.is_dir {
                match Version::from_directory_name(child.name.as_str()) {
                    Some(version) => {
                        self.insert(&version, child.path.clone());
                    },
                    None => {},
                }
            }
            n += 1;
        }
        proof {
            assert(child_views(children@).take(n as int) =~= child_views(children@));
        }
    }

    /// The directory of the requested version: of the greatest release
    /// where the newest is asked for, of the very release where one is
    /// named, and none for a custom installation.
    pub fn get(&self, version: &Version) -> (r: Option<String>)
        requires
            self.wf(),
        ensures
            text_view(r) == answer(self@, version@),
    {
        match version {
            Version::Latest => {
                let n = self.entries.len();
                if n == 0 {
                    None
                } else {
                    Some(self.entries[n - 1].path.clone())
                }
            },
            Version::Custom(_) => None,
            Version::Release { .. } => {
                let key = version.components().unwrap();
                let (at, found) = self.position(&key);
                proof {
                    lemma_position(self@, key@, at as int, found);
                }
                if found {
                    Some(self.entries[at].path.clone())
                } else {
                    None
                }
            },
        }
    }

    /// The indexed releases with their directories, oldest first.
    pub fn entries(&self) -> (out: Vec<(Version, String)>)
        requires
            self.wf(),
        ensures
            out.len() == self@.len(),
            forall|i: int|
                0 <= i < out.len() ==> (#[trigger] out@[i]).0@ == VersionView::Release(self@[i].key)
                    && out@[i].1@ == self@[i].path,
    {
        let mut out: Vec<(Version, String)> = Vec::new();
        let mut i: usize = 0;
        while i < self.entries.len()
            invariant
                i <= self.entries.len(),
                self.entries.len() == self@.len(),
                self.wf(),
                out.len() == i,
                forall|j: int|
                    0 <= j < i ==> (#[trigger] out@[j]).0@ == VersionView::Release(self@[j].key)
                        && out@[j].1@ == self@[j].path,
            decreases self.entries.len() - i,
        {
            let entry = &self.entries[i];
            assert(self@[i as int].key == entry.key@ && self@[i as int].path == entry.path@);
            let version = Version::from_components(&entry.key).unwrap();
            out.push((version, entry.path.clone()));
            i += 1;
        }
        out
    }

    /// The listing shown to the user: a line for each release, oldest
    /// first, with the release, a space and its directory.
    pub fn listing(&self) -> (out: String)
        requires
            self.wf(),
        ensures
            out@ == listing_of(self@),
    {
        let mut out = String::new();
        let mut i: usize = 0;
        while i < self.entries.len()
            invariant
                i <= self.entries.len(),
                self.entries.len() == self@.len(),
                self.wf(),
                out@ == listing_of(self@.take(i as int)),
            decreases self.entries.len() - i,
        {
            let entry = &self.entries[i];
            let ghost upto = self@.take(i + 1);
            proof {
                assert(upto.drop_last() =~= self@.take(i as int));
            }
            let mut line = render_components(&entry.key);
            line.push(' ');
            out.append(string_of(&line).as_str());
            out.append(entry.path.as_str());
            crate::text::push_char(&mut out, '\n');
            i += 1;
        }
        proof {
            assert(self@.take(i as int) =~= self@);
        }
        out
    }
}

} // verus!
