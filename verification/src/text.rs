//! Character sequences: the view under which text is searched and compared.

use vstd::prelude::*;

verus! {

/// Whether `pattern` stands in `s` at index `i`.
pub open spec fn occurs_at(s: Seq<char>, pattern: Seq<char>, i: int) -> bool {
    &&& 0 <= i
    &&& i + pattern.len() <= s.len()
    &&& s.subrange(i, i + pattern.len()) == pattern
}

/// Whether `pattern` stands in `s` somewhere.
pub open spec fn contains(s: Seq<char>, pattern: Seq<char>) -> bool {
    exists|i: int| occurs_at(s, pattern, i)
}

/// Whether `i` is the least index, from `from` on, at which `pattern` stands in `s`.
pub open spec fn first_occurrence(s: Seq<char>, pattern: Seq<char>, from: int, i: int) -> bool {
    &&& from <= i
    &&& occurs_at(s, pattern, i)
    &&& forall|k: int| from <= k < i ==> !occurs_at(s, pattern, k)
}

/// The least index, from `from` on, at which `pattern` stands in `s`, if there is one.
pub open spec fn index_of(s: Seq<char>, pattern: Seq<char>, from: int) -> Option<int> {
    if exists|i: int| first_occurrence(s, pattern, from, i) {
        Some(choose|i: int| first_occurrence(s, pattern, from, i))
    } else {
        None
    }
}

/// What lies between the first occurrence of `marker` in `s` and the next one after it, or the
/// end of `s` where there is no next one; nothing where `marker` does not occur at all.
pub open spec fn field_after(s: Seq<char>, marker: Seq<char>) -> Option<Seq<char>> {
    match index_of(s, marker, 0) {
        None => None,
        Some(i) => {
            let start = i + marker.len();
            match index_of(s, marker, start) {
                None => Some(s.subrange(start, s.len() as int)),
                Some(j) => Some(s.subrange(start, j)),
            }
        },
    }
}

/// The least index of an occurrence is the only one.
pub proof fn lemma_first_occurrence_unique(
    s: Seq<char>,
    pattern: Seq<char>,
    from: int,
    i: int,
    j: int,
)
    requires
        first_occurrence(s, pattern, from, i),
        first_occurrence(s, pattern, from, j),
    ensures
        i == j,
{
}

/// An index that is the least occurrence is the one that `index_of` names.
pub proof fn lemma_index_of_found(s: Seq<char>, pattern: Seq<char>, from: int, i: int)
    requires
        first_occurrence(s, pattern, from, i),
    ensures
        index_of(s, pattern, from) == Some(i),
{
    let j = choose|j: int| first_occurrence(s, pattern, from, j);
    lemma_first_occurrence_unique(s, pattern, from, i, j);
}

/// The index that `index_of` names is the least occurrence.
pub proof fn lemma_index_of_first(s: Seq<char>, pattern: Seq<char>, from: int)
    ensures
        index_of(s, pattern, from) matches Some(i) ==> first_occurrence(s, pattern, from, i),
{
}

/// Where `pattern` stands nowhere from `from` on, `index_of` names nothing.
pub proof fn lemma_index_of_absent(s: Seq<char>, pattern: Seq<char>, from: int)
    requires
        forall|k: int| from <= k ==> !occurs_at(s, pattern, k),
    ensures
        index_of(s, pattern, from) is None,
{
}

/// Where `pattern` stands in `s`, the characters of `s` are those of `pattern`.
pub proof fn lemma_occurrence_characters(s: Seq<char>, pattern: Seq<char>, i: int, j: int)
    requires
        occurs_at(s, pattern, i),
        0 <= j < pattern.len(),
    ensures
        s[i + j] == pattern[j],
{
    assert(s.subrange(i, i + pattern.len())[j] == s[i + j]);
}

/// Where `marker` stands in `s` at `i` first and nowhere behind that occurrence, the field is
/// what follows the occurrence.
pub proof fn lemma_field_after_single(s: Seq<char>, marker: Seq<char>, i: int)
    requires
        first_occurrence(s, marker, 0, i),
        forall|k: int| i + marker.len() <= k ==> !occurs_at(s, marker, k),
    ensures
        field_after(s, marker) == Some(s.subrange(i + marker.len(), s.len() as int)),
{
    lemma_index_of_found(s, marker, 0, i);
    lemma_index_of_absent(s, marker, i + marker.len());
}

/// The characters of `s`, in order.
pub fn chars_of(s: &str) -> (v: Vec<char>)
    ensures
        v@ == s@,
{
    let mut v: Vec<char> = Vec::new();
    for c in it: s.chars()
        invariant
            v@ == it.seq().take(it.index()),
    {
        v.push(c);
    }
    v
}

/// Whether `pattern` stands in `s` at index `i`.
pub fn matches_at(s: &[char], pattern: &[char], i: usize) -> (b: bool)
    ensures
        b == occurs_at(s@, pattern@, i as int),
{
    if pattern.len() > s.len() || i > s.len() - pattern.len() {
        return false;
    }
    let mut k: usize = 0;
    while k < pattern.len()
        invariant
            pattern.len() <= s.len(),
            i <= s.len() - pattern.len(),
            k <= pattern.len(),
            forall|m: int| 0 <= m < k ==> s@[i + m] == pattern@[m],
        decreases pattern.len() - k,
    {
        if s[i + k] != pattern[k] {
            assert(s@.subrange(i as int, i + pattern.len())[k as int] == s@[i + k]);
            return false;
        }
        k += 1;
    }
    assert(s@.subrange(i as int, i + pattern.len()) =~= pattern@);
    true
}

/// Whether `s` ends with `suffix`.
pub fn ends_with(s: &[char], suffix: &[char]) -> (b: bool)
    ensures
        b == suffix@.is_suffix_of(s@),
{
    if suffix.len() > s.len() {
        return false;
    }
    matches_at(s, suffix, s.len() - suffix.len())
}

/// The least index, from `from` on, at which `pattern` stands in `s`.
pub fn find(s: &[char], pattern: &[char], from: usize) -> (r: Option<usize>)
    ensures
        match r {
            Some(i) => index_of(s@, pattern@, from as int) == Some(i as int),
            None => index_of(s@, pattern@, from as int) is None,
        },
{
    let mut i: usize = from;
    while i <= s.len()
        invariant
            from <= i,
            forall|k: int| from <= k < i ==> !occurs_at(s@, pattern@, k),
        decreases s.len() + 1 - i,
    {
        if matches_at(s, pattern, i) {
            proof {
                lemma_index_of_found(s@, pattern@, from as int, i as int);
            }
            return Some(i);
        }
        if i == s.len() {
            proof {
                lemma_index_of_absent(s@, pattern@, from as int);
            }
            return None;
        }
        i += 1;
    }
    proof {
        lemma_index_of_absent(s@, pattern@, from as int);
    }
    None
}

/// The bounds of what lies between the first occurrence of `marker` in `s` and the next one
/// after it, or the end of `s`.
pub fn field_range(s: &[char], marker: &[char]) -> (r: Option<(usize, usize)>)
    ensures
        match r {
            Some((from, to)) => from <= to <= s.len() && field_after(s@, marker@) == Some(
                s@.subrange(from as int, to as int),
            ),
            None => field_after(s@, marker@) is None,
        },
{
    match find(s, marker, 0) {
        None => None,
        Some(i) => {
            proof {
                lemma_index_of_first(s@, marker@, 0);
            }
            let end = s.len();
            let from = i + marker.len();
            match find(s, marker, from) {
                None => Some((from, end)),
                Some(j) => {
                    proof {
                        lemma_index_of_first(s@, marker@, from as int);
                    }
                    Some((from, j))
                },
            }
        },
    }
}

} // verus!
