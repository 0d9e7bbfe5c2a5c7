//! Spelling suggestions for unresolvable tool names.

use vstd::prelude::*;

use crate::paths::{
    file_stem, has_drive_prefix, is_sep, lemma_stem_of_name_with_extension, spec_file_stem, Platform,
};

verus! {

/// Maximum edit distance for which a suggestion is offered.
pub const MAX_DISTANCE: usize = 2;

/// The smaller of three numbers.
pub open spec fn min3(x: nat, y: nat, z: nat) -> nat {
    if x <= y && x <= z {
        x
    } else if y <= z {
        y
    } else {
        z
    }
}

/// The Levenshtein distance between two strings, counted in characters:
/// the minimum number of single-character insertions, deletions and
/// substitutions that turn `a` into `b`.
pub open spec fn levenshtein_distance(a: Seq<char>, b: Seq<char>) -> nat
    decreases a.len() + b.len(),
{
    if a.len() == 0 {
        b.len()
    } else if b.len() == 0 {
        a.len()
    } else {
        min3(
            levenshtein_distance(a.drop_last(), b.drop_last()) + (if a.last() == b.last() {
                0nat
            } else {
                1nat
            }),
            levenshtein_distance(a.drop_last(), b) + 1,
            levenshtein_distance(a, b.drop_last()) + 1,
        )
    }
}

/// Calls `strsim::levenshtein`, which computes the minimum number of
/// single-character insertions, deletions and substitutions that turn `a`
/// into `b`, counting characters (not bytes). Trusted: the result is that
/// distance.
#[verifier::external_body]
fn levenshtein(a: &str, b: &str) -> (d: usize)
    ensures
        d == levenshtein_distance(a@, b@),
{
    strsim::levenshtein(a, b)
}

/// The name a candidate is also compared by: its file stem, or the name
/// itself when it has none.
pub open spec fn spec_base_name(name: Seq<char>, p: Platform) -> Seq<char> {
    match spec_file_stem(name, p) {
        Some(s) => s,
        None => name,
    }
}

/// On every platform a candidate is also compared by its name without its
/// extension: a file name made of a stem, a `.` and an extension without
/// `.` (no separator, no drive) has that stem as its base name, and the
/// query's second distance to it is the distance to the stem.
pub proof fn lemma_base_name_drops_extension(
    query: Seq<char>,
    candidates: Seq<String>,
    i: int,
    stem: Seq<char>,
    ext: Seq<char>,
    p: Platform,
)
    requires
        0 <= i < candidates.len(),
        candidates[i]@ == stem + seq!['.'] + ext,
        stem.len() > 0,
        forall|k: int| 0 <= k < ext.len() ==> #[trigger] ext[k] != '.',
        forall|k: int| 0 <= k < stem.len() ==> !is_sep(#[trigger] stem[k], p),
        forall|k: int| 0 <= k < ext.len() ==> !is_sep(#[trigger] ext[k], p),
        !has_drive_prefix(stem + seq!['.'] + ext, p),
        stem + seq!['.'] + ext != seq!['.', '.'],
    ensures
        spec_base_name(stem + seq!['.'] + ext, p) == stem,
        spec_distances(query, candidates, p)[i] == (
            levenshtein_distance(query, stem + seq!['.'] + ext) as usize,
            levenshtein_distance(query, stem) as usize,
        ),
{
    lemma_stem_of_name_with_extension(stem, ext, p);
}

/// The name a candidate is also compared by.
pub fn base_name(name: &str, p: Platform) -> (r: String)
    ensures
        r@ == spec_base_name(name@, p),
{
    match file_stem(name, p) {
        Some(s) => s,
        None => name.to_owned(),
    }
}

/// The score of a candidate: the smaller of its two distances.
pub open spec fn score(d: (usize, usize)) -> int {
    if d.0 <= d.1 {
        d.0 as int
    } else {
        d.1 as int
    }
}

/// One step of the scan: take `(d, i)` when `d` is within range and
/// strictly better than the best so far.
pub open spec fn step(best: Option<(int, int)>, d: int, i: int) -> Option<(int, int)> {
    let better = match best {
        Some((bd, _)) => d < bd,
        None => true,
    };
    if d <= MAX_DISTANCE && better {
        Some((d, i))
    } else {
        best
    }
}

/// The best `(distance, index)` after scanning the candidates in order,
/// each by its full name and then by its base name.
pub open spec fn best_of(ds: Seq<(usize, usize)>) -> Option<(int, int)>
    decreases ds.len(),
{
    if ds.len() == 0 {
        None
    } else {
        let i = ds.len() - 1;
        step(step(best_of(ds.drop_last()), ds[i].0 as int, i), ds[i].1 as int, i)
    }
}

/// The suggestion rule: the suggested candidate has the smallest score of
/// all, at most [`MAX_DISTANCE`], and is the first with that score; there is
/// no suggestion exactly when every score exceeds [`MAX_DISTANCE`].
pub proof fn lemma_best_of(ds: Seq<(usize, usize)>)
    ensures
        best_of(ds) matches Some((d, j)) ==> {
            &&& 0 <= j < ds.len()
            &&& d == score(ds[j])
            &&& d <= MAX_DISTANCE
            &&& forall|i: int| 0 <= i < ds.len() ==> score(#[trigger] ds[i]) >= d
            &&& forall|i: int| 0 <= i < j ==> score(#[trigger] ds[i]) > d
        },
        best_of(ds) is None ==> forall|i: int|
            0 <= i < ds.len() ==> score(#[trigger] ds[i]) > MAX_DISTANCE,
    decreases ds.len(),
{
    if ds.len() > 0 {
        let prev = ds.drop_last();
        lemma_best_of(prev);
        assert forall|i: int| 0 <= i < prev.len() implies ds[i] == prev[i] by {}
    }
}

/// The candidate to suggest, given each candidate's distances to the query
/// (by full name, by base name): the first candidate with the smallest
/// score, when that score is at most [`MAX_DISTANCE`].
pub fn closest_candidate(candidates: &[String], distances: &[(usize, usize)]) -> (r: Option<String>)
    requires
        candidates@.len() == distances@.len(),
    ensures
        match best_of(distances@) {
            Some((d, j)) => r matches Some(s) && s@ == candidates@[j]@,
            None => r is None,
        },
{
    let mut best: Option<(usize, usize)> = None;
    let mut i: usize = 0;
    while i < distances.len()
        invariant
            i <= distances@.len(),
            candidates@.len() == distances@.len(),
            match best {
                Some((d, j)) => best_of(distances@.take(i as int)) == Some((d as int, j as int)),
                None => best_of(distances@.take(i as int)) is None,
            },
            best matches Some((d, j)) ==> j < i,
        decreases distances@.len() - i,
    {
        let (d1, d2) = distances[i];
        assert(distances@.take(i + 1).drop_last() =~= distances@.take(i as int));
        assert(distances@.take(i + 1)[i as int] == distances@[i as int]);
        match best {
            Some((bd, _)) => {
                if d1 <= MAX_DISTANCE && d1 < bd {
                    best = Some((d1, i));
                }
            },
            None => {
                if d1 <= MAX_DISTANCE {
                    best = Some((d1, i));
                }
            },
        }
        match best {
            Some((bd, _)) => {
                if d2 <= MAX_DISTANCE && d2 < bd {
                    best = Some((d2, i));
                }
            },
            None => {
                if d2 <= MAX_DISTANCE {
                    best = Some((d2, i));
                }
            },
        }
        i = i + 1;
    }
    assert(distances@.take(distances@.len() as int) =~= distances@);
    match best {
        Some((_, j)) => Some(candidates[j].clone()),
        None => None,
    }
}

/// The distances of `query` to each candidate's full name and base name.
pub open spec fn spec_distances(query: Seq<char>, candidates: Seq<String>, p: Platform) -> Seq<
    (usize, usize),
> {
    Seq::new(
        candidates.len(),
        |i: int|
            (
                levenshtein_distance(query, candidates[i]@) as usize,
                levenshtein_distance(query, spec_base_name(candidates[i]@, p)) as usize,
            ),
    )
}

/// Find the closest existing tool for a misspelled name.
///
/// Candidates are compared both by full name and by name without its
/// extension, so a bare query like `echo` can suggest `echo.bat`. Returns
/// the first closest candidate within [`MAX_DISTANCE`], if any.
pub fn suggest(query: &str, candidates: &[String], p: Platform) -> (r: Option<String>)
    ensures
        match best_of(spec_distances(query@, candidates@, p)) {
            Some((d, j)) => r matches Some(s) && s@ == candidates@[j]@,
            None => r is None,
        },
{
    let mut distances: Vec<(usize, usize)> = Vec::new();
    let mut i: usize = 0;
    while i < candidates.len()
        invariant
            i <= candidates@.len(),
            distances@ == spec_distances(query@, candidates@, p).take(i as int),
        decreases candidates@.len() - i,
    {
        let name = &candidates[i];
        let d1 = levenshtein(query, name.as_str());
        let base = base_name(name.as_str(), p);
        let d2 = levenshtein(query, base.as_str());
        distances.push((d1, d2));
        assert(distances@ =~= spec_distances(query@, candidates@, p).take(i + 1));
        i = i + 1;
    }
    assert(distances@ =~= spec_distances(query@, candidates@, p));
    closest_candidate(candidates, distances.as_slice())
}

} // verus!
