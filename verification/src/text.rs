//! Searching and comparing bytes.
use vstd::prelude::*;

verus! {

/// Where a pattern first stands in a text.
pub open spec fn find(text: Seq<u8>, pattern: Seq<u8>) -> Option<int>
    decreases text.len(),
{
    if pattern.is_prefix_of(text) {
        Some(0)
    } else if text.len() == 0 {
        None
    } else {
        match find(text.skip(1), pattern) {
            Some(i) => Some(i + 1),
            None => None,
        }
    }
}

/// A pattern stands in a text at a position.
pub open spec fn stands_at(text: Seq<u8>, pattern: Seq<u8>, i: int) -> bool {
    0 <= i && i + pattern.len() <= text.len() && text.subrange(i, i + pattern.len()) == pattern
}

/// `find` gives the first position at which the pattern stands.
pub proof fn lemma_find(text: Seq<u8>, pattern: Seq<u8>)
    ensures
        match find(text, pattern) {
            Some(i) => stands_at(text, pattern, i) && forall|j: int|
                0 <= j < i ==> !stands_at(text, pattern, j),
            None => forall|j: int| !stands_at(text, pattern, j),
        },
    decreases text.len(),
{
    assert(stands_at(text, pattern, 0) <==> pattern.is_prefix_of(text)) by {
        if pattern.len() <= text.len() {
            assert(text.subrange(0, pattern.len() as int) =~= pattern <==> pattern.is_prefix_of(
                text,
            ));
        }
    }
    if !pattern.is_prefix_of(text) && text.len() > 0 {
        let rest = text.skip(1);
        lemma_find(rest, pattern);
        assert forall|j: int| 1 <= j implies #[trigger] stands_at(text, pattern, j) == stands_at(
            rest,
            pattern,
            j - 1,
        ) by {
            if j + pattern.len() <= text.len() {
                assert(text.subrange(j, j + pattern.len()) =~= rest.subrange(
                    j - 1,
                    j - 1 + pattern.len(),
                ));
            }
        }
    }
}

/// The first position at which a pattern stands is what `find` gives.
pub proof fn lemma_find_is(text: Seq<u8>, pattern: Seq<u8>, i: int)
    requires
        stands_at(text, pattern, i),
        forall|j: int| 0 <= j < i ==> !stands_at(text, pattern, j),
    ensures
        find(text, pattern) == Some(i),
{
    lemma_find(text, pattern);
}

/// Tells whether a pattern stands in a text at a position.
pub fn matches_at(text: &[u8], pattern: &[u8], at: usize) -> (result: bool)
    requires
        at <= text@.len(),
    ensures
        result == stands_at(text@, pattern@, at as int),
{
    let len: usize = text.len();
    if len - at < pattern.len() {
        return false;
    }
    let ghost part = text@.subrange(at as int, at + pattern@.len());
    let mut i: usize = 0;
    while i < pattern.len()
        invariant
            i <= pattern@.len(),
            len == text@.len(),
            at + pattern@.len() <= len,
            part == text@.subrange(at as int, at + pattern@.len()),
            forall|j: int| 0 <= j < i ==> part[j] == pattern@[j],
        decreases pattern@.len() - i,
    {
        if text[at + i] != pattern[i] {
            assert(part[i as int] != pattern@[i as int]);
            return false;
        }
        i = i + 1;
    }
    assert(part =~= pattern@);
    true
}

/// Finds the first position at which a pattern stands in a text.
pub fn find_bytes(text: &[u8], pattern: &[u8]) -> (position: Option<usize>)
    ensures
        match position {
            Some(i) => find(text@, pattern@) == Some(i as int) && i + pattern@.len() <= text@.len(),
            None => find(text@, pattern@) is None,
        },
{
    let len: usize = text.len();
    let mut i: usize = 0;
    while i < len
        invariant
            i <= len == text@.len(),
            forall|j: int| 0 <= j < i ==> !stands_at(text@, pattern@, j),
        decreases len - i,
    {
        if matches_at(text, pattern, i) {
            proof {
                lemma_find_is(text@, pattern@, i as int);
            }
            return Some(i);
        }
        i = i + 1;
    }
    if matches_at(text, pattern, i) {
        proof {
            lemma_find_is(text@, pattern@, i as int);
        }
        return Some(i);
    }
    proof {
        lemma_find(text@, pattern@);
    }
    None
}

/// Tells whether two texts are the same.
pub fn same_bytes(a: &[u8], b: &[u8]) -> (same: bool)
    ensures
        same == (a@ == b@),
{
    if a.len() != b.len() {
        return false;
    }
    let same = matches_at(a, b, 0);
    assert(a@.subrange(0, b@.len() as int) =~= a@);
    same
}

/// A pattern stands at a position exactly if all its bytes do, one after the other.
pub proof fn standing_at(text: Seq<u8>, pattern: Seq<u8>, i: int)
    ensures
        stands_at(text, pattern, i) <==> {
            &&& 0 <= i
            &&& i + pattern.len() <= text.len()
            &&& forall|k: int| 0 <= k < pattern.len() ==> text[i + k] == #[trigger] pattern[k]
        },
{
    if 0 <= i && i + pattern.len() <= text.len() {
        let part = text.subrange(i, i + pattern.len());
        if part == pattern {
            assert forall|k: int| 0 <= k < pattern.len() implies text[i + k]
                == #[trigger] pattern[k] by {
                assert(part[k] == text[i + k]);
            }
        }
        if forall|k: int| 0 <= k < pattern.len() ==> text[i + k] == #[trigger] pattern[k] {
            assert(part =~= pattern);
        }
    }
}

} // verus!
