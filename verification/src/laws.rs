//! The properties the search engine guarantees, each proved from the
//! contracts in the other modules: soundness and completeness of the match
//! collection, repeatability, isolation of unreadable subtrees, exclusion
//! of unreadable content, and progress-counter bounds.

use vstd::prelude::*;

verus! {

use crate::pattern::Matcher;
use crate::search::FsNode;
use crate::search::FsEntry;
use crate::search::child_path;
use crate::search::content_view;
use crate::search::entry_matches;
use crate::search::entries_matches;
use crate::search::listing_matches;
use crate::search::entry_total;
use crate::search::entries_total;
use crate::search::entry_visited;
use crate::search::entries_visited;
use crate::search::listing_total;
use crate::search::listing_visited;

/// Whether some file under one entry lies at path `p` and matches.
pub open spec fn entry_has_match(m: Matcher, prefix: Seq<char>, e: FsEntry, p: Seq<char>) -> bool
    decreases e, 1int,
{
    match e.node {
        FsNode::File { content } => p == child_path(prefix, e.name@) && m.spec_matches(
            e.name@,
            content_view(content),
        ),
        FsNode::Dir { entries } => match entries {
            Some(v) => entries_has_match(m, child_path(prefix, e.name@), v@, p),
            None => false,
        },
    }
}

/// Whether some file under a listing lies at path `p` and matches.
pub open spec fn entries_has_match(
    m: Matcher,
    prefix: Seq<char>,
    s: Seq<FsEntry>,
    p: Seq<char>,
) -> bool
    decreases s, 0int,
{
    if s.len() == 0 {
        false
    } else {
        entry_has_match(m, prefix, s[0], p) || entries_has_match(m, prefix, s.drop_first(), p)
    }
}

/// An element lies in a concatenation exactly when it lies in one of the
/// two halves.
proof fn lemma_concat_contains<T>(a: Seq<T>, b: Seq<T>, x: T)
    ensures
        (a + b).contains(x) <==> a.contains(x) || b.contains(x),
{
    if a.contains(x) {
        let i = choose|i: int| 0 <= i < a.len() && a[i] == x;
        assert((a + b)[i] == x);
    }
    if b.contains(x) {
        let i = choose|i: int| 0 <= i < b.len() && b[i] == x;
        assert((a + b)[a.len() + i] == x);
    }
    if (a + b).contains(x) {
        let i = choose|i: int| 0 <= i < (a + b).len() && (a + b)[i] == x;
        if i < a.len() {
            assert(a[i] == x);
        } else {
            assert(b[i - a.len()] == x);
        }
    }
}

/// Soundness and completeness for one entry: the collected paths are
/// exactly the paths of matching files under it.
proof fn lemma_entry_exact(m: Matcher, prefix: Seq<char>, e: FsEntry, p: Seq<char>)
    ensures
        entry_matches(m, prefix, e).contains(p) <==> entry_has_match(m, prefix, e, p),
    decreases e, 1int,
{
    match e.node {
        FsNode::File { content } => {
            let cp = child_path(prefix, e.name@);
            if m.spec_matches(e.name@, content_view(content)) {
                assert(entry_matches(m, prefix, e) == seq![cp]);
                assert(seq![cp][0] == cp);
                if p == cp {
                    assert(entry_matches(m, prefix, e).contains(p));
                }
            } else {
                assert(entry_matches(m, prefix, e) == Seq::<Seq<char>>::empty());
            }
        },
        FsNode::Dir { entries } => {
            match entries {
                Some(v) => {
                    lemma_entries_exact(m, child_path(prefix, e.name@), v@, p);
                },
                None => {},
            }
        },
    }
}

/// Soundness and completeness for a listing: the collected paths are
/// exactly the paths of matching files under it.
pub proof fn lemma_entries_exact(m: Matcher, prefix: Seq<char>, s: Seq<FsEntry>, p: Seq<char>)
    ensures
        entries_matches(m, prefix, s).contains(p) <==> entries_has_match(m, prefix, s, p),
    decreases s, 0int,
{
    if s.len() > 0 {
        lemma_concat_contains(
            entry_matches(m, prefix, s[0]),
            entries_matches(m, prefix, s.drop_first()),
            p,
        );
        lemma_entry_exact(m, prefix, s[0], p);
        lemma_entries_exact(m, prefix, s.drop_first(), p);
    }
}

/// A path is in the match collection of a whole search exactly when some
/// matching file lies at it: nothing is missed (completeness) and nothing
/// extra is reported (soundness).
pub proof fn lemma_search_exact(
    m: Matcher,
    prefix: Seq<char>,
    l: Option<Vec<FsEntry>>,
    p: Seq<char>,
)
    ensures
        listing_matches(m, prefix, l).contains(p) <==> match l {
            Some(v) => entries_has_match(m, prefix, v@, p),
            None => false,
        },
{
    match l {
        Some(v) => {
            lemma_entries_exact(m, prefix, v@, p);
        },
        None => {},
    }
}

/// Searching the same snapshot twice yields the same match collection:
/// the same length, the same paths, the same order.
pub proof fn lemma_search_repeatable(
    m: Matcher,
    prefix: Seq<char>,
    l: Option<Vec<FsEntry>>,
    r1: Seq<Seq<char>>,
    r2: Seq<Seq<char>>,
)
    requires
        r1 == listing_matches(m, prefix, l),
        r2 == listing_matches(m, prefix, l),
    ensures
        r1 == r2,
        r1.len() == r2.len(),
        r1.to_set() == r2.to_set(),
{
}

/// When a content pattern is configured, a file whose text could not be
/// read (unreadable, or not UTF-8) never matches, whatever its name.
pub proof fn lemma_content_filter_excludes(m: Matcher, prefix: Seq<char>, e: FsEntry)
    requires
        m.content_pat() is Some,
        e.node matches FsNode::File { content: None },
    ensures
        !m.spec_matches(e.name@, None),
        entry_matches(m, prefix, e) == Seq::<Seq<char>>::empty(),
{
}

/// The search visits no more files under one entry than a pre-count pass
/// counts entries there.
proof fn lemma_entry_visited_le(e: FsEntry)
    ensures
        entry_visited(e) <= entry_total(e),
    decreases e, 1int,
{
    match e.node {
        FsNode::File { content } => {},
        FsNode::Dir { entries } => {
            match entries {
                Some(v) => {
                    lemma_entries_visited_le(v@);
                },
                None => {},
            }
        },
    }
}

/// The search visits no more files under a listing than a pre-count pass
/// counts entries there.
proof fn lemma_entries_visited_le(s: Seq<FsEntry>)
    ensures
        entries_visited(s) <= entries_total(s),
    decreases s, 0int,
{
    if s.len() > 0 {
        lemma_entry_visited_le(s[0]);
        lemma_entries_visited_le(s.drop_first());
    }
}

/// The visited counter stays within the counted total: over any snapshot,
/// the search visits no more files than the pre-count pass counts entries,
/// so a progress numerator driven by the one never passes a denominator
/// driven by the other.
pub proof fn lemma_visited_le_total(l: Option<Vec<FsEntry>>)
    ensures
        listing_visited(l) <= listing_total(l),
{
    match l {
        Some(v) => {
            lemma_entries_visited_le(v@);
        },
        None => {},
    }
}

/// A counter driven from zero by the pre-count and the search over the
/// same snapshot ends with no more visited than total: the progress
/// indicator's numerator stays within its denominator.
pub proof fn lemma_progress_bounded(l: Option<Vec<FsEntry>>, c: crate::progress::ProgressCounter)
    requires
        c.total == crate::progress::sat_add(0, listing_total(l)),
        c.visited == crate::progress::sat_add(0, listing_visited(l)),
    ensures
        c.visited <= c.total,
{
    lemma_visited_le_total(l);
    crate::progress::lemma_sat_add_monotone(0, listing_visited(l), listing_total(l));
}

/// The matches of a listing split around any one position: what comes
/// before it, what the entry there contributes, what comes after it.
pub proof fn lemma_entries_matches_split(m: Matcher, prefix: Seq<char>, s: Seq<FsEntry>, k: int)
    requires
        0 <= k < s.len(),
    ensures
        entries_matches(m, prefix, s) == entries_matches(m, prefix, s.take(k)) + entry_matches(
            m,
            prefix,
            s[k],
        ) + entries_matches(m, prefix, s.skip(k + 1)),
    decreases k,
{
    if k == 0 {
        assert(s.take(0) =~= Seq::<FsEntry>::empty());
        assert(s.skip(1) =~= s.drop_first());
        assert(entries_matches(m, prefix, s) =~~= entries_matches(m, prefix, s.take(0))
            + entry_matches(m, prefix, s[0]) + entries_matches(m, prefix, s.skip(1)));
    } else {
        let t = s.drop_first();
        lemma_entries_matches_split(m, prefix, t, k - 1);
        assert(t.take(k - 1) =~= s.take(k).drop_first());
        assert(t.skip(k) =~= s.skip(k + 1));
        assert(t[k - 1] == s[k]);
        assert(s.take(k)[0] == s[0]);
        assert(entries_matches(m, prefix, s) == entry_matches(m, prefix, s[0]) + entries_matches(
            m,
            prefix,
            t,
        ));
        assert(entries_matches(m, prefix, s.take(k)) == entry_matches(m, prefix, s[0])
            + entries_matches(m, prefix, s.take(k).drop_first()));
        assert(entries_matches(m, prefix, s) =~~= entries_matches(m, prefix, s.take(k))
            + entry_matches(m, prefix, s[k]) + entries_matches(m, prefix, s.skip(k + 1)));
    }
}

/// Turning one subdirectory unreadable removes exactly that subtree's
/// matches: every sibling entry contributes what it contributed before,
/// in the same order, and nothing else changes.
pub proof fn lemma_unreadable_subtree_isolated(
    m: Matcher,
    prefix: Seq<char>,
    s1: Seq<FsEntry>,
    s2: Seq<FsEntry>,
    k: int,
)
    requires
        0 <= k < s1.len(),
        s2.len() == s1.len(),
        forall|i: int| 0 <= i < s1.len() && i != k ==> s2[i] == s1[i],
        s2[k].node == (FsNode::Dir { entries: None::<Vec<FsEntry>> }),
    ensures
        entries_matches(m, prefix, s2) == entries_matches(m, prefix, s1.take(k)) + entries_matches(
            m,
            prefix,
            s1.skip(k + 1),
        ),
        entries_matches(m, prefix, s1) == entries_matches(m, prefix, s1.take(k)) + entry_matches(
            m,
            prefix,
            s1[k],
        ) + entries_matches(m, prefix, s1.skip(k + 1)),
{
    lemma_entries_matches_split(m, prefix, s1, k);
    lemma_entries_matches_split(m, prefix, s2, k);
    assert(s2.take(k) =~= s1.take(k));
    assert(s2.skip(k + 1) =~= s1.skip(k + 1));
    assert(entry_matches(m, prefix, s2[k]) == Seq::<Seq<char>>::empty());
    assert(entries_matches(m, prefix, s1.take(k)) + entry_matches(m, prefix, s2[k])
        + entries_matches(m, prefix, s1.skip(k + 1)) =~~= entries_matches(m, prefix, s1.take(k))
        + entries_matches(m, prefix, s1.skip(k + 1)));
}

/// A base name as a real filesystem yields it: free of the path separator.
pub open spec fn name_ok(n: Seq<char>) -> bool {
    !n.contains('/')
}

/// A snapshot as a real filesystem produces it: within each directory the
/// entry names are distinct and separator-free, recursively.
pub open spec fn entry_wf(e: FsEntry) -> bool
    decreases e, 1int,
{
    match e.node {
        FsNode::File { .. } => true,
        FsNode::Dir { entries } => match entries {
            Some(v) => entries_wf(v@),
            None => true,
        },
    }
}

/// Well-formedness of one directory listing and everything below it.
pub open spec fn entries_wf(s: Seq<FsEntry>) -> bool
    decreases s, 0int,
{
    &&& forall|i: int, j: int|
        #![trigger s[i], s[j]]
        0 <= i < j < s.len() ==> s[i].name@ != s[j].name@
    &&& forall|i: int| 0 <= i < s.len() ==> name_ok((#[trigger] s[i]).name@)
    &&& forall|i: int| 0 <= i < s.len() ==> entry_wf(#[trigger] s[i])
}

/// Well-formedness of a whole (possibly unreadable) listing.
pub open spec fn listing_wf(l: Option<Vec<FsEntry>>) -> bool {
    match l {
        Some(v) => entries_wf(v@),
        None => true,
    }
}

/// Every path an entry contributes starts with that entry's own path, and
/// whatever follows starts with a separator.
proof fn lemma_entry_match_shape(m: Matcher, prefix: Seq<char>, e: FsEntry, p: Seq<char>)
    requires
        entry_matches(m, prefix, e).contains(p),
    ensures
        ({
            let cp = child_path(prefix, e.name@);
            p.len() >= cp.len() && p.subrange(0, cp.len() as int) == cp && (p.len() == cp.len()
                || p[cp.len() as int] == '/')
        }),
    decreases e, 1int,
{
    let cp = child_path(prefix, e.name@);
    match e.node {
        FsNode::File { content } => {
            let i = choose|i: int|
                0 <= i < entry_matches(m, prefix, e).len() && entry_matches(m, prefix, e)[i] == p;
            assert(p == cp);
            assert(p.subrange(0, cp.len() as int) =~= cp);
        },
        FsNode::Dir { entries } => {
            match entries {
                Some(v) => {
                    lemma_entries_match_shape(m, cp, v@, p);
                    assert(p.subrange(0, cp.len() as int) =~= cp);
                },
                None => {},
            }
        },
    }
}

/// Every path a listing contributes extends the listing's own path by a
/// separator and more.
proof fn lemma_entries_match_shape(m: Matcher, prefix: Seq<char>, s: Seq<FsEntry>, p: Seq<char>)
    requires
        entries_matches(m, prefix, s).contains(p),
    ensures
        p.len() > prefix.len(),
        p.subrange(0, prefix.len() as int) == prefix,
        p[prefix.len() as int] == '/',
    decreases s, 0int,
{
    reveal_strlit("/");
    lemma_entries_contains_witness(m, prefix, s, p);
    let k = choose|k: int|
        0 <= k < s.len() && entry_matches(m, prefix, #[trigger] s[k]).contains(p);
    lemma_entry_match_shape(m, prefix, s[k], p);
    let cp = child_path(prefix, s[k].name@);
    assert(cp.len() == prefix.len() + 1 + s[k].name@.len());
    assert(cp[prefix.len() as int] == '/');
    assert(forall|i: int| 0 <= i < cp.len() ==> p[i] == cp[i]) by {
        assert(forall|i: int|
            0 <= i < cp.len() ==> p.subrange(0, cp.len() as int)[i] == p[i]);
    }
    assert(p.subrange(0, prefix.len() as int) =~= prefix);
}

/// Some entry of the listing contributed any path the listing contributed.
proof fn lemma_entries_contains_witness(m: Matcher, prefix: Seq<char>, s: Seq<FsEntry>, p: Seq<char>)
    requires
        entries_matches(m, prefix, s).contains(p),
    ensures
        exists|k: int| 0 <= k < s.len() && entry_matches(m, prefix, #[trigger] s[k]).contains(p),
    decreases s.len(),
{
    let a = entry_matches(m, prefix, s[0]);
    let b = entries_matches(m, prefix, s.drop_first());
    lemma_concat_contains(a, b, p);
    if a.contains(p) {
        assert(entry_matches(m, prefix, s[0]).contains(p));
    } else {
        lemma_entries_contains_witness(m, prefix, s.drop_first(), p);
        let k = choose|k: int|
            0 <= k < s.drop_first().len() && entry_matches(
                m,
                prefix,
                #[trigger] s.drop_first()[k],
            ).contains(p);
        assert(s.drop_first()[k] == s[k + 1]);
        assert(entry_matches(m, prefix, s[k + 1]).contains(p));
    }
}

/// Entries with different separator-free names contribute disjoint paths:
/// a path of one is never a path of the other.
proof fn lemma_distinct_names_disjoint(
    m: Matcher,
    prefix: Seq<char>,
    e1: FsEntry,
    e2: FsEntry,
    p: Seq<char>,
)
    requires
        e1.name@ != e2.name@,
        name_ok(e1.name@),
        name_ok(e2.name@),
        entry_matches(m, prefix, e1).contains(p),
    ensures
        !entry_matches(m, prefix, e2).contains(p),
{
    reveal_strlit("/");
    if entry_matches(m, prefix, e2).contains(p) {
        lemma_entry_match_shape(m, prefix, e1, p);
        lemma_entry_match_shape(m, prefix, e2, p);
        let c1 = child_path(prefix, e1.name@);
        let c2 = child_path(prefix, e2.name@);
        assert(forall|i: int| 0 <= i < c1.len() ==> p[i] == c1[i]) by {
            assert(forall|i: int|
                0 <= i < c1.len() ==> p.subrange(0, c1.len() as int)[i] == p[i]);
        }
        assert(forall|i: int| 0 <= i < c2.len() ==> p[i] == c2[i]) by {
            assert(forall|i: int|
                0 <= i < c2.len() ==> p.subrange(0, c2.len() as int)[i] == p[i]);
        }
        assert(forall|i: int|
            0 <= i < e1.name@.len() ==> c1[prefix.len() + 1 + i] == e1.name@[i]);
        assert(forall|i: int|
            0 <= i < e2.name@.len() ==> c2[prefix.len() + 1 + i] == e2.name@[i]);
        if c1.len() == c2.len() {
            assert(e1.name@ =~= e2.name@);
        } else if c1.len() < c2.len() {
            assert(p.len() > c1.len());
            assert(p[c1.len() as int] == '/');
            assert(c2[c1.len() as int] == e2.name@[c1.len() - prefix.len() - 1]);
            assert(e2.name@.contains('/'));
        } else {
            assert(p.len() > c2.len());
            assert(p[c2.len() as int] == '/');
            assert(c1[c2.len() as int] == e1.name@[c2.len() - prefix.len() - 1]);
            assert(e1.name@.contains('/'));
        }
    }
}

/// Two duplicate-free halves with no common element concatenate to a
/// duplicate-free whole.
proof fn lemma_concat_no_dup<T>(a: Seq<T>, b: Seq<T>)
    requires
        a.no_duplicates(),
        b.no_duplicates(),
        forall|x: T| a.contains(x) ==> !b.contains(x),
    ensures
        (a + b).no_duplicates(),
{
    assert forall|i: int, j: int|
        0 <= i < (a + b).len() && 0 <= j < (a + b).len() && i != j implies (a + b)[i] != (a
        + b)[j] by {
        if i < a.len() && j >= a.len() {
            if (a + b)[i] == (a + b)[j] {
                assert(a.contains((a + b)[i]));
                assert(b.contains((a + b)[j]));
            }
        } else if i >= a.len() && j < a.len() {
            if (a + b)[i] == (a + b)[j] {
                assert(a.contains((a + b)[j]));
                assert(b.contains((a + b)[i]));
            }
        }
    }
}

/// One well-formed entry contributes each path at most once.
proof fn lemma_entry_no_dup(m: Matcher, prefix: Seq<char>, e: FsEntry)
    requires
        entry_wf(e),
    ensures
        entry_matches(m, prefix, e).no_duplicates(),
    decreases e, 1int,
{
    match e.node {
        FsNode::File { content } => {},
        FsNode::Dir { entries } => {
            match entries {
                Some(v) => {
                    lemma_entries_no_dup(m, child_path(prefix, e.name@), v@);
                },
                None => {},
            }
        },
    }
}

/// A well-formed listing contributes each path at most once.
proof fn lemma_entries_no_dup(m: Matcher, prefix: Seq<char>, s: Seq<FsEntry>)
    requires
        entries_wf(s),
    ensures
        entries_matches(m, prefix, s).no_duplicates(),
    decreases s, 0int,
{
    if s.len() > 0 {
        let a = entry_matches(m, prefix, s[0]);
        let b = entries_matches(m, prefix, s.drop_first());
        assert(entries_wf(s.drop_first())) by {
            assert(forall|i: int|
                0 <= i < s.drop_first().len() ==> #[trigger] s.drop_first()[i] == s[i + 1]);
        }
        lemma_entry_no_dup(m, prefix, s[0]);
        lemma_entries_no_dup(m, prefix, s.drop_first());
        assert forall|x: Seq<char>| a.contains(x) implies !b.contains(x) by {
            if b.contains(x) {
                lemma_entries_contains_witness(m, prefix, s.drop_first(), x);
                let k = choose|k: int|
                    0 <= k < s.drop_first().len() && entry_matches(
                        m,
                        prefix,
                        #[trigger] s.drop_first()[k],
                    ).contains(x);
                assert(s.drop_first()[k] == s[k + 1]);
                lemma_distinct_names_disjoint(m, prefix, s[k + 1], s[0], x);
            }
        }
        lemma_concat_no_dup(a, b);
    }
}

/// Over a well-formed snapshot each matching file's path appears at most
/// once in the match collection; with soundness and completeness, exactly
/// once.
pub proof fn lemma_no_duplication(m: Matcher, prefix: Seq<char>, l: Option<Vec<FsEntry>>)
    requires
        listing_wf(l),
    ensures
        listing_matches(m, prefix, l).no_duplicates(),
{
    match l {
        Some(v) => {
            lemma_entries_no_dup(m, prefix, v@);
        },
        None => {},
    }
}

} // verus!
