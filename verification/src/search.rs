//! The traversal engine: walks a snapshot of a directory tree depth-first,
//! applies the matcher to every file, collects matching paths in discovery
//! order, and keeps the progress counters.

use vstd::prelude::*;

verus! {

use vstd::string::StringExecFns;
use crate::pattern::Matcher;
use crate::progress::ProgressCounter;
use crate::progress::sat_add;

/// A file or directory in a snapshot of the tree under search.
pub enum FsNode {
    /// A file. `content` is its full text when it was read as UTF-8 text;
    /// `None` when it was unreadable, not valid UTF-8, or never read.
    File { content: Option<String> },
    /// A directory. `entries` is its listing, in the order the filesystem
    /// enumerated it; `None` when the listing could not be read.
    Dir { entries: Option<Vec<FsEntry>> },
}

/// One named entry of a directory listing.
pub struct FsEntry {
    pub name: String,
    pub node: FsNode,
}

/// The path of an entry: its parent's path, a separator, its base name.
pub open spec fn child_path(prefix: Seq<char>, name: Seq<char>) -> Seq<char> {
    prefix + "/"@ + name
}

/// The text content of a file, as the matcher sees it.
pub open spec fn content_view(c: Option<String>) -> Option<Seq<char>> {
    match c {
        Some(s) => Some(s@),
        None => None,
    }
}

/// The paths that searching one entry contributes, in discovery order.
pub open spec fn entry_matches(m: Matcher, prefix: Seq<char>, e: FsEntry) -> Seq<Seq<char>>
    decreases e, 1int,
{
    match e.node {
        FsNode::File { content } => if m.spec_matches(e.name@, content_view(content)) {
            seq![child_path(prefix, e.name@)]
        } else {
            Seq::empty()
        },
        FsNode::Dir { entries } => match entries {
            Some(v) => entries_matches(m, child_path(prefix, e.name@), v@),
            None => Seq::empty(),
        },
    }
}

/// The paths that searching a listing contributes, in discovery order.
pub open spec fn entries_matches(m: Matcher, prefix: Seq<char>, s: Seq<FsEntry>) -> Seq<Seq<char>>
    decreases s, 0int,
{
    if s.len() == 0 {
        Seq::empty()
    } else {
        entry_matches(m, prefix, s[0]) + entries_matches(m, prefix, s.drop_first())
    }
}

/// How many entries a pre-count pass finds under one entry, itself included.
pub open spec fn entry_total(e: FsEntry) -> nat
    decreases e, 1int,
{
    match e.node {
        FsNode::File { .. } => 1,
        FsNode::Dir { entries } => match entries {
            Some(v) => 1 + entries_total(v@),
            None => 1,
        },
    }
}

/// How many entries a pre-count pass finds in a listing and below it.
pub open spec fn entries_total(s: Seq<FsEntry>) -> nat
    decreases s, 0int,
{
    if s.len() == 0 {
        0
    } else {
        entry_total(s[0]) + entries_total(s.drop_first())
    }
}

/// How many entries lie strictly below one entry (its own listing and deeper).
pub open spec fn entry_children_total(e: FsEntry) -> nat
    decreases e, 1int,
{
    match e.node {
        FsNode::File { .. } => 0,
        FsNode::Dir { entries } => match entries {
            Some(v) => entries_total(v@),
            None => 0,
        },
    }
}

/// How many entries lie strictly below the entries of a listing.
pub open spec fn entries_children_total(s: Seq<FsEntry>) -> nat
    decreases s, 0int,
{
    if s.len() == 0 {
        0
    } else {
        entry_children_total(s[0]) + entries_children_total(s.drop_first())
    }
}

/// How many files the search visits under one entry.
pub open spec fn entry_visited(e: FsEntry) -> nat
    decreases e, 1int,
{
    match e.node {
        FsNode::File { .. } => 1,
        FsNode::Dir { entries } => match entries {
            Some(v) => entries_visited(v@),
            None => 0,
        },
    }
}

/// How many files the search visits in a listing and below it.
pub open spec fn entries_visited(s: Seq<FsEntry>) -> nat
    decreases s, 0int,
{
    if s.len() == 0 {
        0
    } else {
        entry_visited(s[0]) + entries_visited(s.drop_first())
    }
}

/// The matches a whole (possibly unreadable) listing contributes.
pub open spec fn listing_matches(m: Matcher, prefix: Seq<char>, l: Option<Vec<FsEntry>>) -> Seq<
    Seq<char>,
> {
    match l {
        Some(v) => entries_matches(m, prefix, v@),
        None => Seq::empty(),
    }
}

/// The entry count of a whole (possibly unreadable) listing.
pub open spec fn listing_total(l: Option<Vec<FsEntry>>) -> nat {
    match l {
        Some(v) => entries_total(v@),
        None => 0,
    }
}

/// The visited-file count of a whole (possibly unreadable) listing.
pub open spec fn listing_visited(l: Option<Vec<FsEntry>>) -> nat {
    match l {
        Some(v) => entries_visited(v@),
        None => 0,
    }
}

/// The character sequences of a sequence of strings.
pub open spec fn path_views(s: Seq<String>) -> Seq<Seq<char>> {
    s.map_values(|x: String| x@)
}

/// Builds the path of a directory entry from its parent's path and its name.
pub fn join_path(prefix: &str, name: &str) -> (r: String)
    ensures
        r@ == child_path(prefix@, name@),
{
    let mut s = String::from_str(prefix);
    s.append("/");
    s.append(name);
    s
}

/// The one collection every traversal branch appends its matches to; it
/// keeps them in the order they were pushed, with nothing lost, doubled or
/// reordered.
pub struct MatchSet {
    items: Vec<String>,
}

impl MatchSet {
    /// The matched paths collected so far, in order.
    pub closed spec fn paths(self) -> Seq<Seq<char>> {
        path_views(self.items@)
    }

    pub fn new() -> (r: MatchSet)
        ensures
            r.paths() == Seq::<Seq<char>>::empty(),
    {
        let r = MatchSet { items: Vec::new() };
        proof {
            assert(r.paths() =~= Seq::<Seq<char>>::empty());
        }
        r
    }

    /// Records one matched path at the end of the collection.
    pub fn push(&mut self, path: String)
        ensures
            final(self).paths() == old(self).paths().push(path@),
    {
        self.items.push(path);
        proof {
            assert(self.paths() =~~= old(self).paths().push(path@));
        }
    }

    pub fn len(&self) -> (n: usize)
        ensures
            n == self.paths().len(),
    {
        self.items.len()
    }

    pub fn is_empty(&self) -> (b: bool)
        ensures
            b == (self.paths().len() == 0),
    {
        self.items.len() == 0
    }

    /// Hands the collected paths out, in the order they were recorded.
    /// Called once, after all traversal work has finished.
    pub fn drain(self) -> (r: Vec<String>)
        ensures
            path_views(r@) == self.paths(),
    {
        self.items
    }
}

/// Appending one entry to a listing adds that entry's counts.
proof fn lemma_counts_snoc(s: Seq<FsEntry>, e: FsEntry)
    ensures
        entries_total(s.push(e)) == entries_total(s) + entry_total(e),
        entries_children_total(s.push(e)) == entries_children_total(s) + entry_children_total(e),
        entries_visited(s.push(e)) == entries_visited(s) + entry_visited(e),
    decreases s.len(),
{
    if s.len() == 0 {
        assert(s.push(e)[0] == e);
        assert(s.push(e).drop_first() =~= s);
    } else {
        assert(s.push(e)[0] == s[0]);
        assert(s.push(e).drop_first() =~= s.drop_first().push(e));
        lemma_counts_snoc(s.drop_first(), e);
    }
}

/// Appending one entry to a listing appends that entry's matches.
proof fn lemma_entries_snoc(m: Matcher, prefix: Seq<char>, s: Seq<FsEntry>, e: FsEntry)
    ensures
        entries_matches(m, prefix, s.push(e)) == entries_matches(m, prefix, s) + entry_matches(
            m,
            prefix,
            e,
        ),
    decreases s.len(),
{
    if s.len() == 0 {
        assert(s.push(e)[0] == e);
        assert(s.push(e).drop_first() =~= s);
        assert(entries_matches(m, prefix, s.push(e)) =~~= entries_matches(m, prefix, s)
            + entry_matches(m, prefix, e));
    } else {
        let t = s.drop_first();
        assert(s.push(e)[0] == s[0]);
        assert(s.push(e).drop_first() =~= t.push(e));
        lemma_entries_snoc(m, prefix, t, e);
        assert(entries_matches(m, prefix, s.push(e)) == entry_matches(m, prefix, s[0])
            + entries_matches(m, prefix, t.push(e)));
        assert(entries_matches(m, prefix, s) == entry_matches(m, prefix, s[0]) + entries_matches(
            m,
            prefix,
            t,
        ));
        assert(entry_matches(m, prefix, s[0]) + (entries_matches(m, prefix, t) + entry_matches(
            m,
            prefix,
            e,
        )) =~~= (entry_matches(m, prefix, s[0]) + entries_matches(m, prefix, t)) + entry_matches(
            m,
            prefix,
            e,
        ));
    }
}

/// Every entry of a listing contributes its whole subtree to the listing's
/// entry count.
proof fn lemma_entry_le_total(s: Seq<FsEntry>, i: int)
    requires
        0 <= i < s.len(),
    ensures
        entry_total(s[i]) <= entries_total(s),
    decreases s.len(),
{
    if i > 0 {
        lemma_entry_le_total(s.drop_first(), i - 1);
    }
}

/// One entry's subtree is the entry itself plus what lies below it.
proof fn lemma_entry_total_split(e: FsEntry)
    ensures
        entry_total(e) == entry_children_total(e) + 1,
{
    match e.node {
        FsNode::File { content } => {
            assert(entry_total(e) == 1);
            assert(entry_children_total(e) == 0);
        },
        FsNode::Dir { entries } => {
            match entries {
                Some(v) => {
                    assert(entry_total(e) == 1 + entries_total(v@));
                    assert(entry_children_total(e) == entries_total(v@));
                },
                None => {
                    assert(entry_total(e) == 1);
                    assert(entry_children_total(e) == 0);
                },
            }
        },
    }
}

/// The entry count of a listing is its length plus everything below it.
proof fn lemma_total_splits(s: Seq<FsEntry>)
    ensures
        entries_total(s) == entries_children_total(s) + s.len(),
    decreases s.len(),
{
    if s.len() > 0 {
        lemma_total_splits(s.drop_first());
        lemma_entry_total_split(s[0]);
    }
}

/// Searches one directory listing: recurses into subdirectories, counts
/// every file as visited, and appends the path of every matching file to
/// the shared match collection, in discovery order. An unreadable listing
/// contributes nothing and is not an error.
pub fn search_folder(
    m: &Matcher,
    path: &str,
    listing: &Option<Vec<FsEntry>>,
    files: &mut MatchSet,
    progress: &mut ProgressCounter,
)
    ensures
        final(files).paths() == old(files).paths() + listing_matches(*m, path@, *listing),
        final(progress).visited == sat_add(old(progress).visited, listing_visited(*listing)),
        final(progress).total == old(progress).total,
    decreases listing_total(*listing),
{
    match listing {
        None => {
            proof {
                assert(files.paths() =~~= old(files).paths() + Seq::<Seq<char>>::empty());
            }
        },
        Some(v) => {
            let ghost orig_paths = files.paths();
            let ghost orig_visited = progress.visited;
            let ghost orig_total = progress.total;
            let mut i: usize = 0;
            while i < v.len()
                invariant
                    *listing == Some(*v),
                    i <= v.len(),
                    files.paths() == orig_paths + entries_matches(*m, path@, v@.take(i as int)),
                    progress.visited == sat_add(orig_visited, entries_visited(v@.take(i as int))),
                    progress.total == orig_total,
                decreases v.len() - i,
            {
                let e = &v[i];
                let p = join_path(path, e.name.as_str());
                match &e.node {
                    FsNode::Dir { entries } => {
                        proof {
                            lemma_entry_le_total(v@, i as int);
                            assert(v@[i as int].node == (FsNode::Dir { entries: *entries }));
                            assert(listing_total(*entries) < entry_total(v@[i as int]));
                            assert(listing_total(*listing) == entries_total(v@));
                            assert(listing_total(*entries) < listing_total(*listing));
                        }
                        search_folder(m, p.as_str(), entries, files, progress);
                    },
                    FsNode::File { content } => {
                        progress.advance();
                        let c = match content {
                            Some(s) => Some(s.as_str()),
                            None => None,
                        };
                        if m.matches(e.name.as_str(), c) {
                            files.push(p);
                        }
                    },
                }
                proof {
                    assert(v@.take(i + 1) =~= v@.take(i as int).push(v@[i as int]));
                    lemma_entries_snoc(*m, path@, v@.take(i as int), v@[i as int]);
                    lemma_counts_snoc(v@.take(i as int), v@[i as int]);
                    crate::progress::lemma_sat_add_assoc(
                        orig_visited,
                        entries_visited(v@.take(i as int)),
                        entry_visited(v@[i as int]),
                    );
                    assert(files.paths() =~~= orig_paths + entries_matches(
                        *m,
                        path@,
                        v@.take(i + 1),
                    ));
                }
                i += 1;
            }
            proof {
                assert(v@.take(v@.len() as int) =~= v@);
            }
        },
    }
}

/// The advisory pre-count: adds to the progress total the number of entries
/// of this listing and, through its recursive calls, of everything below
/// it. An unreadable listing adds nothing; the pre-count never fails.
pub fn count(listing: &Option<Vec<FsEntry>>, progress: &mut ProgressCounter)
    ensures
        final(progress).total == sat_add(old(progress).total, listing_total(*listing)),
        final(progress).visited == old(progress).visited,
    decreases listing_total(*listing),
{
    match listing {
        None => {},
        Some(v) => {
            let ghost orig_total = progress.total;
            let ghost orig_visited = progress.visited;
            let mut counter: u64 = 0;
            let mut i: usize = 0;
            while i < v.len()
                invariant
                    *listing == Some(*v),
                    i <= v.len(),
                    counter == i,
                    progress.total == sat_add(
                        orig_total,
                        entries_children_total(v@.take(i as int)),
                    ),
                    progress.visited == orig_visited,
                decreases v.len() - i,
            {
                counter = counter + 1;
                let e = &v[i];
                match &e.node {
                    FsNode::Dir { entries } => {
                        proof {
                            lemma_entry_le_total(v@, i as int);
                            assert(v@[i as int].node == (FsNode::Dir { entries: *entries }));
                            assert(listing_total(*entries) < entry_total(v@[i as int]));
                            assert(listing_total(*listing) == entries_total(v@));
                            assert(listing_total(*entries) < listing_total(*listing));
                        }
                        count(entries, progress);
                    },
                    FsNode::File { .. } => {},
                }
                proof {
                    assert(v@.take(i + 1) =~= v@.take(i as int).push(v@[i as int]));
                    lemma_counts_snoc(v@.take(i as int), v@[i as int]);
                    crate::progress::lemma_sat_add_assoc(
                        orig_total,
                        entries_children_total(v@.take(i as int)),
                        entry_children_total(v@[i as int]),
                    );
                }
                i += 1;
            }
            progress.increment_total(counter);
            proof {
                assert(v@.take(v@.len() as int) =~= v@);
                lemma_total_splits(v@);
                crate::progress::lemma_sat_add_assoc(
                    orig_total,
                    entries_children_total(v@),
                    v@.len() as nat,
                );
            }
        },
    }
}

} // verus!
