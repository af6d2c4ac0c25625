//! The pure part of path completion: scoring and ranking candidates.
//!
//! The shell scans directories and prompts; what stands here is the logic
//! in between — when a rescan is due, and how the scanned paths are scored
//! against the typed text and ranked best-first.  The score itself is
//! `fuzzy_matcher`'s, named by `fuzzy_score_of`.

use vstd::prelude::*;

verus! {

use vstd::utf8::{encode_utf8, encode_utf8_decode_utf8};

/// The score `fuzzy_matcher`'s smart-case skim matcher gives `pattern`
/// against `choice`; nothing when they do not match.  The score is a
/// function of the two texts alone.
pub uninterp spec fn fuzzy_score_of(choice: Seq<char>, pattern: Seq<char>) -> Option<i64>;

/// Relies on `fuzzy_matcher`'s `SkimMatcherV2::fuzzy_match` with smart
/// case: the score depends on the two texts alone.
#[verifier::external_body]
fn fuzzy_score(choice: &str, pattern: &str) -> (r: Option<i64>)
    ensures
        r == fuzzy_score_of(choice@, pattern@),
{
    fuzzy_matcher::FuzzyMatcher::fuzzy_match(
        &fuzzy_matcher::skim::SkimMatcherV2::default().smart_case(),
        choice,
        pattern,
    )
}

/// Whether two pieces of text are equal, decided byte by byte.
fn str_eq(a: &str, b: &str) -> (r: bool)
    ensures
        r == (a@ == b@),
{
    let ab = a.as_bytes_vec();
    let bb = b.as_bytes_vec();
    if ab.len() != bb.len() {
        proof {
            assert(a@ != b@);
        }
        return false;
    }
    let mut i: usize = 0;
    while i < ab.len()
        invariant
            i <= ab.len(),
            ab.len() == bb.len(),
            ab@ == encode_utf8(a@),
            bb@ == encode_utf8(b@),
            forall|j: int| 0 <= j < i ==> ab@[j] == bb@[j],
        decreases ab.len() - i,
    {
        if ab[i] != bb[i] {
            proof {
                assert(encode_utf8(a@)[i as int] != encode_utf8(b@)[i as int]);
            }
            return false;
        }
        i = i + 1;
    }
    proof {
        assert(encode_utf8(a@) =~= encode_utf8(b@));
        encode_utf8_decode_utf8(a@);
        encode_utf8_decode_utf8(b@);
    }
    true
}

/// The candidates that match the typed text, each with its score, in
/// candidate order.
pub open spec fn scored(paths: Seq<Seq<char>>, pattern: Seq<char>) -> Seq<(Seq<char>, i64)>
    decreases paths.len(),
{
    if paths.len() == 0 {
        Seq::empty()
    } else {
        let rest = scored(paths.drop_last(), pattern);
        match fuzzy_score_of(paths.last(), pattern) {
            Some(sc) => rest.push((paths.last(), sc)),
            None => rest,
        }
    }
}

/// The view of a scored candidate.
pub open spec fn pair_view(p: (String, i64)) -> (Seq<char>, i64) {
    (p.0@, p.1)
}

/// Index of the first best-scored pair.
fn first_max_index(v: &Vec<(String, i64)>) -> (m: usize)
    requires
        v@.len() > 0,
    ensures
        m < v@.len(),
        forall|j: int| 0 <= j < v@.len() ==> v@[m as int].1 >= #[trigger] v@[j].1,
{
    let mut m: usize = 0;
    let mut j: usize = 1;
    while j < v.len()
        invariant
            m < j <= v@.len(),
            forall|t: int| 0 <= t < j ==> v@[m as int].1 >= #[trigger] v@[t].1,
        decreases v@.len() - j,
    {
        if v[j].1 > v[m].1 {
            m = j;
        }
        j = j + 1;
    }
    m
}

/// Sorts scored candidates best-first: repeatedly extracts the first
/// best-scored pair, so the result holds the same pairs, ordered by
/// non-increasing score.
fn sort_desc(v: Vec<(String, i64)>) -> (r: Vec<(String, i64)>)
    ensures
        r@.map_values(|p: (String, i64)| pair_view(p)).to_multiset() == v@.map_values(
            |p: (String, i64)| pair_view(p),
        ).to_multiset(),
        forall|i: int, j: int| #![trigger r@[i], r@[j]] 0 <= i < j < r@.len() ==> r@[i].1 >= r@[j].1,
{
    broadcast use vstd::seq_lib::group_to_multiset_ensures;
    broadcast use vstd::multiset::group_multiset_axioms;

    let ghost orig = v@.map_values(|p: (String, i64)| pair_view(p)).to_multiset();
    let mut v = v;
    let mut r: Vec<(String, i64)> = Vec::new();
    while v.len() > 0
        invariant
            r@.map_values(|p: (String, i64)| pair_view(p)).to_multiset().add(
                v@.map_values(|p: (String, i64)| pair_view(p)).to_multiset(),
            ) =~= orig,
            forall|i: int, j: int| #![trigger r@[i], r@[j]] 0 <= i < j < r@.len() ==> r@[i].1 >= r@[j].1,
            forall|i: int, j: int|
                #![trigger r@[i], v@[j]]
                0 <= i < r@.len() && 0 <= j < v@.len() ==> r@[i].1 >= v@[j].1,
        decreases v@.len(),
    {
        let m = first_max_index(&v);
        let ghost v_before = v@;
        let ghost r_before = r@;
        let item = v.remove(m);
        r.push(item);
        proof {
            broadcast use vstd::seq_lib::group_to_multiset_ensures;
            broadcast use vstd::multiset::group_multiset_axioms;

            let f = |p: (String, i64)| pair_view(p);
            assert(v_before.map_values(f)[m as int] == pair_view(item));
            assert(v@.map_values(f) =~= v_before.map_values(f).remove(m as int));
            assert(r@.map_values(f) =~= r_before.map_values(f).push(pair_view(item)));
            assert(v_before.map_values(f).contains(pair_view(item)));
            assert(r_before.map_values(f).push(pair_view(item)).to_multiset()
                =~= r_before.map_values(f).to_multiset().insert(pair_view(item)));
            assert(v_before.map_values(f).remove(m as int).to_multiset() =~= v_before.map_values(
                f,
            ).to_multiset().remove(pair_view(item)));
            assert(v_before.map_values(f).to_multiset().count(pair_view(item)) > 0);
            assert(r@.map_values(f).to_multiset().add(v@.map_values(f).to_multiset()) =~= orig);
        }
    }
    proof {
        let f = |p: (String, i64)| pair_view(p);
        assert(v@.map_values(f).to_multiset() =~= vstd::multiset::Multiset::empty());
        assert(r@.map_values(f).to_multiset() =~= orig);
    }
    r
}

/// The part of a path prompt that remembers the last scan.
#[derive(Clone, Default)]
pub struct FilePathCompleter {
    /// The text the paths were last scanned for.
    pub input: String,
    /// The paths found by that scan.
    pub paths: Vec<String>,
}

impl FilePathCompleter {
    /// Whether a new directory scan is due: the typed text changed, or no
    /// scan has produced anything yet.
    pub fn needs_refresh(&self, input: &str) -> (b: bool)
        ensures
            b == !(self.input@ == input@ && self.paths@.len() != 0),
    {
        !(str_eq(self.input.as_str(), input) && self.paths.len() != 0)
    }

    /// Remembers the text a scan was made for and what it found.
    pub fn store_scan(&mut self, input: &str, paths: Vec<String>)
        ensures
            final(self).input@ == input@,
            final(self).paths == paths,
    {
        self.input = input.to_owned();
        self.paths = paths;
    }

    /// Scores the remembered paths against the typed text and ranks the
    /// matching ones best-first.
    pub fn fuzzy_sort(&self, input: &str) -> (r: Vec<(String, i64)>)
        ensures
            r@.map_values(|p: (String, i64)| pair_view(p)).to_multiset() == scored(
                self.paths@.map_values(|p: String| p@),
                input@,
            ).to_multiset(),
            forall|i: int, j: int| #![trigger r@[i], r@[j]] 0 <= i < j < r@.len() ==> r@[i].1 >= r@[j].1,
    {
        let ghost all = self.paths@.map_values(|p: String| p@);
        let mut matches: Vec<(String, i64)> = Vec::new();
        let mut i: usize = 0;
        while i < self.paths.len()
            invariant
                i <= self.paths@.len(),
                all == self.paths@.map_values(|p: String| p@),
                matches@.map_values(|p: (String, i64)| pair_view(p)) == scored(
                    all.take(i as int),
                    input@,
                ),
            decreases self.paths@.len() - i,
        {
            let path = &self.paths[i];
            proof {
                assert(all.take(i as int + 1).drop_last() =~= all.take(i as int));
                assert(all.take(i as int + 1).last() == path@);
            }
            match fuzzy_score(path.as_str(), input) {
                Some(sc) => {
                    matches.push((path.clone(), sc));
                    proof {
                        assert(matches@.map_values(|p: (String, i64)| pair_view(p)) =~= scored(
                            all.take(i as int + 1),
                            input@,
                        ));
                    }
                },
                None => {
                    proof {
                        assert(matches@.map_values(|p: (String, i64)| pair_view(p)) =~= scored(
                            all.take(i as int + 1),
                            input@,
                        ));
                    }
                },
            }
            i = i + 1;
        }
        proof {
            assert(all.take(self.paths@.len() as int) =~= all);
        }
        sort_desc(matches)
    }
}

} // verus!
