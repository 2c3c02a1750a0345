//! Character-level helpers on strings: splitting on a separator and locating
//! the first occurrence of a character.

use vstd::prelude::*;

verus! {

/// The pieces of `s` between occurrences of `sep`, in order. A string with no
/// separator gives one piece (itself); the empty string gives one empty piece.
pub open spec fn split_spec(s: Seq<char>, sep: char) -> Seq<Seq<char>>
    decreases s.len(),
{
    if s.len() == 0 {
        seq![Seq::<char>::empty()]
    } else {
        let p = split_spec(s.drop_last(), sep);
        if s.last() == sep {
            p.push(Seq::<char>::empty())
        } else {
            p.update(p.len() - 1, p.last().push(s.last()))
        }
    }
}

/// Index of the first `c` in `s`, or -1 when `s` holds no `c`.
pub open spec fn first_index(s: Seq<char>, c: char) -> int
    decreases s.len(),
{
    if s.len() == 0 {
        -1
    } else if s[0] == c {
        0
    } else {
        let r = first_index(s.drop_first(), c);
        if r < 0 {
            -1
        } else {
            r + 1
        }
    }
}

/// `first_index` is the smallest position holding `c`, and -1 exactly when none does.
pub proof fn lemma_first_index(s: Seq<char>, c: char)
    ensures
        -1 <= first_index(s, c) < s.len(),
        first_index(s, c) >= 0 ==> s[first_index(s, c)] == c,
        forall|j: int| 0 <= j < s.len() && (first_index(s, c) < 0 || j < first_index(s, c)) ==> s[j] != c,
    decreases s.len(),
{
    if s.len() > 0 && s[0] != c {
        let t = s.drop_first();
        lemma_first_index(t, c);
        assert forall|j: int| 0 <= j < s.len() && (first_index(s, c) < 0 || j < first_index(s, c)) implies s[j] != c by {
            if j > 0 {
                assert(s[j] == t[j - 1]);
            }
        }
    }
}

/// Splits `s` on every occurrence of `sep`.
pub fn split_on(s: &str, sep: char) -> (r: Vec<String>)
    ensures
        r.deep_view() == split_spec(s@, sep),
{
    let n = s.unicode_len();
    let mut pieces: Vec<String> = Vec::new();
    let mut start: usize = 0;
    let mut i: usize = 0;
    proof {
        assert(s@.subrange(0, 0) =~= Seq::<char>::empty());
        assert(pieces.deep_view().push(s@.subrange(0, 0)) =~= split_spec(Seq::<char>::empty(), sep));
    }
    while i < n
        invariant
            n == s@.len(),
            start <= i <= n,
            pieces.deep_view().push(s@.subrange(start as int, i as int)) == split_spec(
                s@.subrange(0, i as int),
                sep,
            ),
        decreases n - i,
    {
        let c = s.get_char(i);
        proof {
            assert(s@.subrange(0, i + 1).drop_last() =~= s@.subrange(0, i as int));
            assert(s@.subrange(0, i + 1).last() == c);
        }
        if c == sep {
            let piece = s.substring_char(start, i).to_owned();
            pieces.push(piece);
            start = i + 1;
            proof {
                assert(s@.subrange(start as int, i + 1) =~= Seq::<char>::empty());
                assert(pieces.deep_view().push(s@.subrange(start as int, i + 1)) =~= split_spec(
                    s@.subrange(0, i + 1),
                    sep,
                ));
            }
        } else {
            proof {
                assert(s@.subrange(start as int, i + 1) =~= s@.subrange(start as int, i as int).push(c));
                assert(pieces.deep_view().push(s@.subrange(start as int, i + 1)) =~= split_spec(
                    s@.subrange(0, i + 1),
                    sep,
                ));
            }
        }
        i = i + 1;
    }
    let last = s.substring_char(start, n).to_owned();
    pieces.push(last);
    proof {
        assert(s@.subrange(0, n as int) =~= s@);
        assert(pieces.deep_view() =~= split_spec(s@, sep));
    }
    pieces
}

/// Position of the first `c` in `s`, if any.
pub fn find_char(s: &str, c: char) -> (r: Option<usize>)
    ensures
        match r {
            Some(i) => i == first_index(s@, c),
            None => first_index(s@, c) == -1,
        },
{
    let n = s.unicode_len();
    let mut i: usize = 0;
    proof {
        lemma_first_index(s@, c);
    }
    while i < n
        invariant
            n == s@.len(),
            i <= n,
            forall|j: int| 0 <= j < i ==> s@[j] != c,
            -1 <= first_index(s@, c) < s@.len(),
            first_index(s@, c) >= 0 ==> s@[first_index(s@, c)] == c,
            forall|j: int| 0 <= j < s@.len() && (first_index(s@, c) < 0 || j < first_index(s@, c)) ==> s@[j] != c,
        decreases n - i,
    {
        if s.get_char(i) == c {
            return Some(i);
        }
        i = i + 1;
    }
    None
}

} // verus!
