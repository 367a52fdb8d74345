//! The color scale: an ordered, non-empty sequence of color strings
//! parsed from newline-delimited text, with a count-based (linearly
//! interpolated) and a random color-selection strategy.

use rand::RngExt;
use vstd::prelude::*;

use crate::error::Error;

verus! {

/// The non-empty lines of `text` from position `i` on, with `cur` the
/// characters of the line read so far.
pub open spec fn lines_acc(text: Seq<char>, i: int, cur: Seq<char>) -> Seq<Seq<char>>
    decreases text.len() - i,
{
    if i < 0 || i >= text.len() {
        if cur.len() == 0 {
            Seq::empty()
        } else {
            seq![cur]
        }
    } else if text[i] == '\n' {
        (if cur.len() == 0 {
            Seq::empty()
        } else {
            seq![cur]
        }) + lines_acc(text, i + 1, Seq::empty())
    } else {
        lines_acc(text, i + 1, cur.push(text[i]))
    }
}

/// The non-empty lines of `text`, in order: the maximal segments
/// between `'\n'` characters, with empty segments discarded.
pub open spec fn nonempty_lines(text: Seq<char>) -> Seq<Seq<char>> {
    lines_acc(text, 0, Seq::empty())
}

/// Relies on `rand::RngExt::random_range` over `0..n`: the draw lies in
/// the range, so strictly below `n`, and the call does not panic since
/// the range is non-empty.
#[verifier::external_body]
fn random_below(n: usize) -> (r: usize)
    requires
        n >= 1,
    ensures
        r < n,
{
    let mut rng = rand::rng();
    rng.random_range(0..n)
}

/// An ordered sequence of colors (low to high) and the view ceiling
/// that the milestone strategy clamps counts to.
#[derive(Debug)]
pub struct ColorScale {
    pub colors: Vec<String>,
    pub max_views: u64,
}

impl ColorScale {
    /// The scale is usable: at least one color, and a positive ceiling.
    pub open spec fn wf(self) -> bool {
        self.colors@.len() >= 1 && self.max_views >= 1
    }

    /// The index the milestone strategy selects for `view_count`: the
    /// count clamped to the ceiling, then linearly interpolated across
    /// the color indices and floored.
    pub open spec fn spec_color_index(self, view_count: u64) -> int {
        let capped = if view_count < self.max_views {
            view_count as int
        } else {
            self.max_views as int
        };
        capped * (self.colors@.len() - 1) / (self.max_views as int)
    }

    /// Builds a scale from newline-delimited text, discarding empty
    /// lines; fails with `EmptyScale` when no color is left.
    pub fn from_source(source: &str, max_views: u64) -> (r: Result<ColorScale, Error>)
        requires
            max_views >= 1,
        ensures
            match r {
                Ok(s) => {
                    &&& s.wf()
                    &&& s.colors.deep_view() == nonempty_lines(source@)
                    &&& s.max_views == max_views
                    &&& nonempty_lines(source@).len() >= 1
                },
                Err(e) => e == Error::EmptyScale && nonempty_lines(source@).len() == 0,
            },
    {
        let n = source.unicode_len();
        let mut colors: Vec<String> = Vec::new();
        let mut start: usize = 0;
        let mut i: usize = 0;
        proof {
            assert(source@.subrange(0, 0) =~= Seq::<char>::empty());
            assert(colors.deep_view() =~~= Seq::<Seq<char>>::empty());
        }
        while i < n
            invariant
                n == source@.len(),
                start <= i <= n,
                forall|k: int| start <= k < i ==> source@[k] != '\n',
                nonempty_lines(source@) =~~= colors.deep_view() + lines_acc(
                    source@,
                    i as int,
                    source@.subrange(start as int, i as int),
                ),
            decreases n - i,
        {
            let c = source.get_char(i);
            let ghost cur = source@.subrange(start as int, i as int);
            if c == '\n' {
                if i > start {
                    let ghost prev = colors.deep_view();
                    let line = String::from_str(source.substring_char(start, i));
                    colors.push(line);
                    proof {
                        assert(cur.len() > 0);
                        assert(colors.deep_view() =~~= prev.push(cur));
                        assert(prev.push(cur) + lines_acc(source@, i + 1, Seq::empty())
                            =~~= prev + (seq![cur] + lines_acc(source@, i + 1, Seq::empty())));
                    }
                } else {
                    proof {
                        assert(cur.len() == 0);
                    }
                }
                start = i + 1;
                proof {
                    assert(source@.subrange(start as int, i + 1) =~= Seq::<char>::empty());
                }
            } else {
                proof {
                    assert(source@.subrange(start as int, i + 1) =~= cur.push(source@[i as int]));
                }
            }
            i += 1;
        }
        proof {
            assert(i == n);
        }
        let ghost last = source@.subrange(start as int, n as int);
        if start < n {
            let ghost prev = colors.deep_view();
            let line = String::from_str(source.substring_char(start, n));
            colors.push(line);
            proof {
                assert(last.len() > 0);
                assert(lines_acc(source@, n as int, last) =~~= seq![last]);
                assert(colors.deep_view() =~~= prev.push(last));
                assert(prev.push(last) =~~= prev + seq![last]);
            }
        } else {
            proof {
                assert(last.len() == 0);
                assert(lines_acc(source@, n as int, last) =~~= Seq::<Seq<char>>::empty());
            }
        }
        proof {
            assert(nonempty_lines(source@) =~~= colors.deep_view());
        }
        if colors.len() == 0 {
            Err(Error::EmptyScale)
        } else {
            Ok(ColorScale { colors, max_views })
        }
    }

    /// The color the milestone strategy selects: the count is clamped
    /// to the ceiling first, so the interpolated index is always in
    /// bounds. Count zero yields the first color; the ceiling, or any
    /// count at or above it, yields the last.
    pub fn hex_color_for_view_count<'a>(&'a self, view_count: u64) -> (r: &'a str)
        requires
            self.wf(),
        ensures
            0 <= self.spec_color_index(view_count) < self.colors@.len(),
            r@ == self.colors@[self.spec_color_index(view_count)]@,
            view_count == 0 ==> r@ == self.colors@[0]@,
            view_count >= self.max_views ==> r@ == self.colors@[self.colors@.len() - 1]@,
    {
        let capped: u64 = if view_count < self.max_views {
            view_count
        } else {
            self.max_views
        };
        let len = self.colors.len();
        proof {
            lemma_color_index_in_bounds(*self, view_count);
            assert((capped as int) * ((len - 1) as int) < 0x10000000000000000u128
                * 0x10000000000000000u128) by (nonlinear_arith)
                requires
                    (capped as int) < (0x10000000000000000u128 as int),
                    ((len - 1) as int) < (0x10000000000000000u128 as int),
                    0 <= (capped as int),
                    0 <= ((len - 1) as int),
            ;
        }
        let idx_wide: u128 = (capped as u128) * ((len - 1) as u128) / (self.max_views as u128);
        proof {
            assert(idx_wide == self.spec_color_index(view_count));
            assert(idx_wide <= len - 1);
        }
        let idx: usize = idx_wide as usize;
        self.colors[idx].as_str()
    }

    /// The color the random strategy selects: uniformly among all
    /// colors but the last (the scale must hold at least two).
    pub fn random_hex_color<'a>(&'a self) -> (r: &'a str)
        requires
            self.wf(),
            self.colors@.len() >= 2,
        ensures
            exists|ci: int|
                0 <= ci < self.colors@.len() - 1 && r@ == self.colors@[ci]@,
    {
        let idx = random_below(self.colors.len() - 1);
        self.colors[idx].as_str()
    }
}

/// The milestone index is within the color sequence: the clamp runs
/// before the interpolation, so no bounds check is needed at lookup.
pub proof fn lemma_color_index_in_bounds(s: ColorScale, view_count: u64)
    requires
        s.wf(),
    ensures
        0 <= s.spec_color_index(view_count) <= s.colors@.len() - 1,
        view_count == 0 ==> s.spec_color_index(view_count) == 0,
        view_count >= s.max_views ==> s.spec_color_index(view_count) == s.colors@.len() - 1,
{
    let m = s.max_views as int;
    let l = s.colors@.len() as int;
    let capped = if view_count < s.max_views {
        view_count as int
    } else {
        m
    };
    vstd::arithmetic::mul::lemma_mul_inequality(capped, m, l - 1);
    vstd::arithmetic::div_mod::lemma_div_is_ordered(capped * (l - 1), m * (l - 1), m);
    vstd::arithmetic::div_mod::lemma_div_multiples_vanish(l - 1, m);
    assert(m * (l - 1) == (l - 1) * m) by (nonlinear_arith);
    vstd::arithmetic::div_mod::lemma_div_is_ordered(0, capped * (l - 1), m);
    vstd::arithmetic::mul::lemma_mul_inequality(0, capped, l - 1);
    assert(0int / m == 0) by (nonlinear_arith)
        requires
            m >= 1,
    ;
    if view_count == 0 {
        assert(capped == 0);
        assert(capped * (l - 1) == 0) by (nonlinear_arith)
            requires
                capped == 0,
        ;
    }
}

/// The milestone index never decreases as the count grows.
pub proof fn lemma_color_index_monotonic(s: ColorScale, c1: u64, c2: u64)
    requires
        s.wf(),
        c1 <= c2,
    ensures
        s.spec_color_index(c1) <= s.spec_color_index(c2),
{
    let m = s.max_views as int;
    let l = s.colors@.len() as int;
    let a1 = if c1 < s.max_views {
        c1 as int
    } else {
        m
    };
    let a2 = if c2 < s.max_views {
        c2 as int
    } else {
        m
    };
    vstd::arithmetic::mul::lemma_mul_inequality(a1, a2, l - 1);
    vstd::arithmetic::div_mod::lemma_div_is_ordered(a1 * (l - 1), a2 * (l - 1), m);
}

} // verus!
