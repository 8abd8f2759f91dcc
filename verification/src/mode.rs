//! The most frequent value of a column.
//!
//! An album shows the camera model, lens model and aperture that most of its
//! images share. Values that are absent do not count, and where two values
//! occur equally often the one that was met first wins.

use vstd::prelude::*;

verus! {

/// A column of optional texts, as sequences of characters.
pub open spec fn texts(values: Seq<Option<String>>) -> Seq<Option<Seq<char>>> {
    Seq::new(
        values.len(),
        |i: int|
            match values[i] {
                Some(s) => Some(s@),
                None => None,
            },
    )
}

/// How often `v` occurs in `values`.
pub open spec fn occurrences(values: Seq<Option<Seq<char>>>, v: Seq<char>) -> nat
    decreases values.len(),
{
    if values.len() == 0 {
        0
    } else {
        occurrences(values.drop_last(), v) + if values.last() == Some(v) {
            1nat
        } else {
            0nat
        }
    }
}

/// Whether the value at index `at` is the mode of `values`: no value occurs
/// more often, and every value that is met before it occurs less often.
pub open spec fn is_mode_at(values: Seq<Option<Seq<char>>>, at: int) -> bool {
    &&& 0 <= at < values.len()
    &&& values[at] is Some
    &&& forall|j: int|
        0 <= j < values.len() && (#[trigger] values[j]) is Some ==> occurrences(
            values,
            values[j]->0,
        ) <= occurrences(values, values[at]->0)
    &&& forall|j: int|
        0 <= j < at && (#[trigger] values[j]) is Some ==> occurrences(values, values[j]->0)
            < occurrences(values, values[at]->0)
}

/// Whether `m` is the mode of `values`: absent exactly where every value is
/// absent, else the most frequent value, the first met among equals.
pub open spec fn is_mode(values: Seq<Option<Seq<char>>>, m: Option<Seq<char>>) -> bool {
    match m {
        None => forall|j: int| 0 <= j < values.len() ==> (#[trigger] values[j]) is None,
        Some(v) => exists|at: int| #[trigger] is_mode_at(values, at) && values[at] == Some(v),
    }
}

/// A value that stands at some index occurs at least once.
pub proof fn lemma_occurs(values: Seq<Option<Seq<char>>>, j: int)
    requires
        0 <= j < values.len(),
        values[j] is Some,
    ensures
        occurrences(values, values[j]->0) >= 1,
    decreases values.len(),
{
    if j < values.len() - 1 {
        lemma_occurs(values.drop_last(), j);
    }
}

/// The mode of a column is unique: a column has at most one index that
/// `is_mode_at` accepts, and so at most one mode.
pub proof fn lemma_mode_unique(
    values: Seq<Option<Seq<char>>>,
    a: Option<Seq<char>>,
    b: Option<Seq<char>>,
)
    requires
        is_mode(values, a),
        is_mode(values, b),
    ensures
        a == b,
{
    match (a, b) {
        (Some(x), Some(y)) => {
            let i = choose|at: int| #[trigger] is_mode_at(values, at) && values[at] == Some(x);
            let j = choose|at: int| #[trigger] is_mode_at(values, at) && values[at] == Some(y);
            if i < j {
                assert(values[i] is Some);
            } else if j < i {
                assert(values[j] is Some);
            }
        },
        (Some(x), None) => {
            let i = choose|at: int| #[trigger] is_mode_at(values, at) && values[at] == Some(x);
            assert(values[i] is Some);
        },
        (None, Some(y)) => {
            let j = choose|at: int| #[trigger] is_mode_at(values, at) && values[at] == Some(y);
            assert(values[j] is Some);
        },
        (None, None) => {},
    }
}

/// Counts how often `v` occurs in `values`.
fn count_occurrences(values: &Vec<Option<String>>, v: &String) -> (n: usize)
    ensures
        n == occurrences(texts(values@), v@),
{
    let mut n: usize = 0;
    let mut k: usize = 0;
    while k < values.len()
        invariant
            k <= values.len(),
            n == occurrences(texts(values@).take(k as int), v@),
            n <= k,
        decreases values.len() - k,
    {
        let hit = match &values[k] {
            Some(s) => *s == *v,
            None => false,
        };
        proof {
            let t = texts(values@);
            assert(t.take(k + 1).drop_last() == t.take(k as int));
            assert(t.take(k + 1).last() == t[k as int]);
        }
        if hit {
            n += 1;
        }
        k += 1;
    }
    assert(texts(values@).take(k as int) == texts(values@));
    n
}

/// Finds the index of the mode of `values`, if there is one.
pub fn mode_index(values: &Vec<Option<String>>) -> (at: Option<usize>)
    ensures
        match at {
            Some(i) => is_mode_at(texts(values@), i as int),
            None => is_mode(texts(values@), None),
        },
{
    let ghost t = texts(values@);
    let mut best: Option<usize> = None;
    let mut best_count: usize = 0;
    let mut i: usize = 0;
    while i < values.len()
        invariant
            i <= values.len(),
            t == texts(values@),
            match best {
                Some(b) => b < i && t[b as int] is Some && best_count == occurrences(
                    t,
                    t[b as int]->0,
                ),
                None => best_count == 0,
            },
            forall|j: int|
                0 <= j < i && (#[trigger] t[j]) is Some ==> occurrences(t, t[j]->0) <= best_count,
            forall|j: int|
                0 <= j < i && (#[trigger] t[j]) is Some && best is Some && j < best->0
                    ==> occurrences(t, t[j]->0) < best_count,
            best is None ==> forall|j: int| 0 <= j < i ==> (#[trigger] t[j]) is None,
        decreases values.len() - i,
    {
        match &values[i] {
            Some(v) => {
                let count = count_occurrences(values, v);
                proof {
                    lemma_occurs(t, i as int);
                }
                if count > best_count {
                    best = Some(i);
                    best_count = count;
                }
            },
            None => {},
        }
        i += 1;
    }
    best
}

/// The mode of `values`: the most frequent of the values that are present,
/// the first met among those that occur equally often; `None` where no value
/// is present.
pub fn mode_of(values: &Vec<Option<String>>) -> (m: Option<String>)
    ensures
        is_mode(
            texts(values@),
            match m {
                Some(s) => Some(s@),
                None => None,
            },
        ),
{
    match mode_index(values) {
        Some(i) => {
            match &values[i] {
                Some(s) => Some(s.clone()),
                None => None,
            }
        },
        None => None,
    }
}

} // verus!
