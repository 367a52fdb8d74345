//! Character-level string utilities: substring search with an exact
//! specification, string equality, and decimal formatting of counters.

use vstd::prelude::*;

verus! {

/// `pat` occurs in `text` starting at position `i`.
pub open spec fn match_at(text: Seq<char>, pat: Seq<char>, i: int) -> bool {
    &&& 0 <= i
    &&& i + pat.len() <= text.len()
    &&& text.subrange(i, i + pat.len()) == pat
}

/// The first position at or after `from` where `pat` occurs in `text`,
/// or `None` when there is no such position.
pub open spec fn find_from_spec(text: Seq<char>, pat: Seq<char>, from: int) -> Option<int>
    decreases text.len() - from,
{
    if from < 0 || from > text.len() {
        None
    } else if match_at(text, pat, from) {
        Some(from)
    } else if from == text.len() {
        None
    } else {
        find_from_spec(text, pat, from + 1)
    }
}

/// `find_from_spec` returns the first match at or after `from`: a returned
/// position matches and no earlier position at or after `from` does, and
/// `None` means no position at or after `from` matches.
pub proof fn lemma_find_from_spec(text: Seq<char>, pat: Seq<char>, from: int)
    requires
        0 <= from <= text.len(),
    ensures
        match find_from_spec(text, pat, from) {
            Some(i) => {
                &&& from <= i
                &&& match_at(text, pat, i)
                &&& forall|j: int| from <= j < i ==> !match_at(text, pat, j)
            },
            None => forall|j: int| from <= j ==> !match_at(text, pat, j),
        },
    decreases text.len() - from,
{
    if match_at(text, pat, from) {
    } else if from == text.len() {
        assert forall|j: int| from <= j implies !match_at(text, pat, j) by {
            if j == from {
            } else {
                assert(j > text.len());
            }
        }
    } else {
        lemma_find_from_spec(text, pat, from + 1);
    }
}

/// Compares `pat` against `text` at position `i`, character by character.
fn is_match_at(text: &str, pat: &str, i: usize, m: usize) -> (r: bool)
    requires
        m == pat@.len(),
        i + m <= text@.len(),
        i + m <= usize::MAX,
    ensures
        r == match_at(text@, pat@, i as int),
{
    let mut k: usize = 0;
    while k < m
        invariant
            m == pat@.len(),
            i + m <= text@.len(),
            i + m <= usize::MAX,
            k <= m,
            forall|k2: int| 0 <= k2 < k ==> text@[i + k2] == pat@[k2],
        decreases m - k,
    {
        let tc = text.get_char(i + k);
        let pc = pat.get_char(k);
        if tc != pc {
            proof {
                let sub = text@.subrange(i as int, i + m);
                if sub == pat@ {
                    assert(sub[k as int] == text@[i + k]);
                    assert(false);
                }
            }
            return false;
        }
        k += 1;
    }
    proof {
        assert(text@.subrange(i as int, i + m) =~= pat@);
    }
    true
}

/// Finds the first occurrence of `pat` in `text` at or after `from`,
/// exactly as `find_from_spec` describes it.
pub fn find_from(text: &str, pat: &str, from: usize) -> (r: Option<usize>)
    requires
        from <= text@.len(),
    ensures
        match r {
            Some(i) => find_from_spec(text@, pat@, from as int) == Some(i as int),
            None => find_from_spec(text@, pat@, from as int) is None,
        },
{
    let n = text.unicode_len();
    let m = pat.unicode_len();
    proof {
        lemma_find_from_spec(text@, pat@, from as int);
    }
    if m > n || from > n - m {
        proof {
            if let Some(i) = find_from_spec(text@, pat@, from as int) {
                assert(match_at(text@, pat@, i));
                assert(false);
            }
        }
        return None;
    }
    let mut i: usize = from;
    while i <= n - m
        invariant
            m <= n,
            from <= i <= n - m + 1,
            n == text@.len(),
            m == pat@.len(),
            forall|j: int| from <= j < i ==> !match_at(text@, pat@, j),
        decreases n - m - i + 1,
    {
        if is_match_at(text, pat, i, m) {
            proof {
                lemma_find_from_spec(text@, pat@, from as int);
                match find_from_spec(text@, pat@, from as int) {
                    Some(i0) => {
                        assert(!(i0 < i));
                        assert(!(i0 > i));
                    },
                    None => {
                        assert(!match_at(text@, pat@, i as int));
                    },
                }
            }
            return Some(i);
        }
        proof {
            if m == 0 {
                assert(text@.subrange(i as int, i as int) =~= pat@);
                assert(match_at(text@, pat@, i as int));
            }
        }
        i += 1;
    }
    proof {
        if let Some(i0) = find_from_spec(text@, pat@, from as int) {
            assert(match_at(text@, pat@, i0));
            assert(i0 + m <= n);
            assert(!match_at(text@, pat@, i0));
        }
    }
    None
}

/// Character-for-character string equality.
pub fn str_eq(a: &str, b: &str) -> (r: bool)
    ensures
        r == (a@ == b@),
{
    let n = a.unicode_len();
    let m = b.unicode_len();
    if n != m {
        return false;
    }
    let mut k: usize = 0;
    while k < n
        invariant
            n == a@.len(),
            n == b@.len(),
            k <= n,
            forall|k2: int| 0 <= k2 < k ==> a@[k2] == b@[k2],
        decreases n - k,
    {
        if a.get_char(k) != b.get_char(k) {
            proof {
                if a@ == b@ {
                    assert(a@[k as int] == b@[k as int]);
                }
            }
            return false;
        }
        k += 1;
    }
    proof {
        assert(a@ =~= b@);
    }
    true
}

/// The decimal digit character for a value below ten.
pub open spec fn dec_digit(d: int) -> char {
    if d == 0 {
        '0'
    } else if d == 1 {
        '1'
    } else if d == 2 {
        '2'
    } else if d == 3 {
        '3'
    } else if d == 4 {
        '4'
    } else if d == 5 {
        '5'
    } else if d == 6 {
        '6'
    } else if d == 7 {
        '7'
    } else if d == 8 {
        '8'
    } else {
        '9'
    }
}

/// The decimal representation of a natural number, most significant
/// digit first, with no leading zeros (a single `'0'` for zero).
pub open spec fn dec_rep(n: nat) -> Seq<char>
    decreases n,
{
    if n < 10 {
        seq![dec_digit(n as int)]
    } else {
        dec_rep(n / 10).push(dec_digit((n % 10) as int))
    }
}

/// The one-character string for a decimal digit.
fn digit_str(d: u64) -> (r: &'static str)
    requires
        d < 10,
    ensures
        r@ == seq![dec_digit(d as int)],
{
    let r: &'static str = if d == 0 {
        "0"
    } else if d == 1 {
        "1"
    } else if d == 2 {
        "2"
    } else if d == 3 {
        "3"
    } else if d == 4 {
        "4"
    } else if d == 5 {
        "5"
    } else if d == 6 {
        "6"
    } else if d == 7 {
        "7"
    } else if d == 8 {
        "8"
    } else {
        "9"
    };
    proof {
        reveal_strlit("0");
        reveal_strlit("1");
        reveal_strlit("2");
        reveal_strlit("3");
        reveal_strlit("4");
        reveal_strlit("5");
        reveal_strlit("6");
        reveal_strlit("7");
        reveal_strlit("8");
        reveal_strlit("9");
        assert(r@ =~= seq![dec_digit(d as int)]);
    }
    r
}

/// Renders a counter value as its decimal string.
pub fn u64_to_string(n: u64) -> (r: String)
    ensures
        r@ == dec_rep(n as nat),
    decreases n,
{
    if n < 10 {
        let s = String::from_str(digit_str(n));
        proof {
            assert(s@ =~= dec_rep(n as nat));
        }
        s
    } else {
        let mut s = u64_to_string(n / 10);
        let d = digit_str(n % 10);
        s.append(d);
        proof {
            assert(s@ =~= dec_rep(n as nat));
        }
        s
    }
}

} // verus!
