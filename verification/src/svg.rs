//! The badge template: a document split into three literal segments
//! around two substitution markers, and rendering of a color and a
//! count into a fresh document.

use vstd::prelude::*;

use crate::error::Error;
use crate::text::{find_from, find_from_spec, lemma_find_from_spec, match_at};

verus! {

/// A badge template, pre-parsed into the three literal segments that
/// surround the color marker and the count marker.
#[derive(Debug)]
pub struct ViewCountSVG {
    pub before_color_part: String,
    pub after_color_before_text_part: String,
    pub after_text_part: String,
}

/// Splits `doc` at the first two (greedy, non-overlapping) occurrences
/// of `marker`: the segment before the first occurrence, the segment
/// between the two, and everything after the second. `None` when there
/// is no such pair of occurrences.
pub open spec fn spec_split(doc: Seq<char>, marker: Seq<char>) -> Option<
    (Seq<char>, Seq<char>, Seq<char>),
> {
    match find_from_spec(doc, marker, 0) {
        Option::None => Option::None,
        Option::Some(i) => match find_from_spec(doc, marker, i + marker.len()) {
            Option::None => Option::None,
            Option::Some(j) => Option::Some(
                (
                    doc.subrange(0, i),
                    doc.subrange(i + marker.len(), j),
                    doc.subrange(j + marker.len(), doc.len() as int),
                ),
            ),
        },
    }
}

impl ViewCountSVG {
    /// The three segments, as the view of the whole template.
    pub open spec fn parts(self) -> (Seq<char>, Seq<char>, Seq<char>) {
        (self.before_color_part@, self.after_color_before_text_part@, self.after_text_part@)
    }

    /// Parses a template document by splitting it on `pattern`, keeping
    /// the first two occurrences; fails with `MissingPart` when the
    /// document holds fewer than two. The marker is a fixed non-empty
    /// literal: with an empty one the two found occurrences would
    /// coincide instead of marking two insertion points.
    pub fn from_source(document: &str, pattern: &str) -> (r: Result<ViewCountSVG, Error>)
        requires
            pattern@.len() >= 1,
        ensures
            match r {
                Ok(t) => spec_split(document@, pattern@) == Some(t.parts()),
                Err(e) => e == Error::MissingPart && spec_split(document@, pattern@) is None,
            },
    {
        let n = document.unicode_len();
        let m = pattern.unicode_len();
        match find_from(document, pattern, 0) {
            Option::None => Err(Error::MissingPart),
            Option::Some(i) => {
                proof {
                    lemma_find_from_spec(document@, pattern@, 0);
                    assert(match_at(document@, pattern@, i as int));
                }
                match find_from(document, pattern, i + m) {
                    Option::None => Err(Error::MissingPart),
                    Option::Some(j) => {
                        proof {
                            lemma_find_from_spec(document@, pattern@, i + m);
                            assert(match_at(document@, pattern@, j as int));
                        }
                        Ok(
                            ViewCountSVG {
                                before_color_part: String::from_str(
                                    document.substring_char(0, i),
                                ),
                                after_color_before_text_part: String::from_str(
                                    document.substring_char(i + m, j),
                                ),
                                after_text_part: String::from_str(
                                    document.substring_char(j + m, n),
                                ),
                            },
                        )
                    },
                }
            },
        }
    }

    /// Renders the badge: the three segments with the color text after
    /// the first and the count text after the second.
    pub fn template(&self, css_color_str: &str, view_count: &str) -> (r: String)
        ensures
            r@ == self.before_color_part@ + css_color_str@ + self.after_color_before_text_part@
                + view_count@ + self.after_text_part@,
    {
        let mut buf = self.before_color_part.clone();
        buf.append(css_color_str);
        buf.append(self.after_color_before_text_part.as_str());
        buf.append(view_count);
        buf.append(self.after_text_part.as_str());
        buf
    }
}

/// A template source splits into three parts exactly when it holds a
/// pair of occurrences of the marker, the second starting at or after
/// the end of the first.
pub proof fn lemma_split_two_occurrences(doc: Seq<char>, marker: Seq<char>)
    ensures
        spec_split(doc, marker) is Some <==> (exists|i: int, j: int|
            match_at(doc, marker, i) && i + marker.len() <= j && match_at(doc, marker, j)),
{
    lemma_find_from_spec(doc, marker, 0);
    match find_from_spec(doc, marker, 0) {
        Option::None => {
            assert forall|i: int, j: int|
                !(match_at(doc, marker, i) && i + marker.len() <= j && match_at(
                    doc,
                    marker,
                    j,
                )) by {
                if match_at(doc, marker, i) {
                    assert(i >= 0);
                    assert(!match_at(doc, marker, i));
                }
            }
        },
        Option::Some(i0) => {
            assert(match_at(doc, marker, i0));
            assert(i0 + marker.len() <= doc.len());
            lemma_find_from_spec(doc, marker, i0 + marker.len() as int);
            match find_from_spec(doc, marker, i0 + marker.len() as int) {
                Option::None => {
                    assert forall|i: int, j: int|
                        !(match_at(doc, marker, i) && i + marker.len() <= j && match_at(
                            doc,
                            marker,
                            j,
                        )) by {
                        if match_at(doc, marker, i) && i + marker.len() <= j && match_at(
                            doc,
                            marker,
                            j,
                        ) {
                            assert(i0 <= i);
                            assert(j >= i0 + marker.len());
                            assert(!match_at(doc, marker, j));
                        }
                    }
                },
                Option::Some(j0) => {
                    assert(match_at(doc, marker, i0) && i0 + marker.len() <= j0 && match_at(
                        doc,
                        marker,
                        j0,
                    ));
                },
            }
        },
    }
}

/// Template round trip: a document assembled as
/// `prefix + marker + middle + marker + suffix` splits back into
/// exactly those three parts, provided the marker is non-empty and
/// the assembled occurrences are the first two (no occurrence starts
/// earlier inside `prefix + marker` or `middle + marker`). Together
/// with the contract of `template`, rendering the parsed template
/// with a color and a count then reproduces
/// `prefix + color + middle + count + suffix`.
pub proof fn lemma_template_round_trip(
    prefix: Seq<char>,
    middle: Seq<char>,
    suffix: Seq<char>,
    marker: Seq<char>,
)
    requires
        marker.len() >= 1,
        forall|j: int| 0 <= j < prefix.len() ==> !match_at(prefix + marker, marker, j),
        forall|j: int| 0 <= j < middle.len() ==> !match_at(middle + marker, marker, j),
    ensures
        spec_split(prefix + marker + middle + marker + suffix, marker) == Some(
            (prefix, middle, suffix),
        ),
{
    let doc = prefix + marker + middle + marker + suffix;
    let a = prefix.len() as int;
    let b = marker.len() as int;
    let c = middle.len() as int;
    let n = doc.len() as int;
    assert(n == a + b + c + b + suffix.len());
    assert(forall|k: int| 0 <= k < a + b ==> doc[k] == (prefix + marker)[k]);
    assert(forall|k: int|
        a + b <= k < a + b + c + b ==> doc[k] == (middle + marker)[k - (a + b)]);
    assert(forall|k: int| a + b + c + b <= k < n ==> doc[k] == suffix[k - (a + b + c + b)]);

    // The marker occurs at `a` and nowhere before it.
    assert(doc.subrange(a, a + b) =~= marker);
    assert(match_at(doc, marker, a));
    assert forall|j: int| 0 <= j < a implies !match_at(doc, marker, j) by {
        if match_at(doc, marker, j) {
            assert((prefix + marker).subrange(j, j + b) =~= doc.subrange(j, j + b));
            assert(match_at(prefix + marker, marker, j));
        }
    }
    lemma_find_from_spec(doc, marker, 0);
    match find_from_spec(doc, marker, 0) {
        Option::None => {
            assert(!match_at(doc, marker, a));
        },
        Option::Some(i0) => {
            if i0 < a {
                assert(!match_at(doc, marker, i0));
            } else if i0 > a {
                assert(!match_at(doc, marker, a));
            }
            assert(i0 == a);
        },
    }

    // The marker occurs at `a + b + c` and nowhere in between.
    assert(doc.subrange(a + b + c, a + b + c + b) =~= marker) by {
        assert(forall|k: int|
            0 <= k < b ==> #[trigger] doc.subrange(a + b + c, a + b + c + b)[k] == (middle
                + marker)[c + k]);
    }
    assert(match_at(doc, marker, a + b + c));
    assert forall|j: int| a + b <= j < a + b + c implies !match_at(doc, marker, j) by {
        if match_at(doc, marker, j) {
            let j2 = j - (a + b);
            assert((middle + marker).subrange(j2, j2 + b) =~= doc.subrange(j, j + b));
            assert(match_at(middle + marker, marker, j2));
        }
    }
    lemma_find_from_spec(doc, marker, a + b);
    match find_from_spec(doc, marker, a + b) {
        Option::None => {
            assert(!match_at(doc, marker, a + b + c));
        },
        Option::Some(j0) => {
            if j0 < a + b + c {
                assert(!match_at(doc, marker, j0));
            } else if j0 > a + b + c {
                assert(!match_at(doc, marker, a + b + c));
            }
            assert(j0 == a + b + c);
        },
    }

    // The three segments are exactly the assembled parts.
    assert(doc.subrange(0, a) =~= prefix);
    assert(doc.subrange(a + b, a + b + c) =~= middle);
    assert(doc.subrange(a + b + c + b, n) =~= suffix);
}

} // verus!
