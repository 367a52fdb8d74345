//! The request handler: given a resource key and a fill mode, it
//! increments the view counter, selects a color from the scale, and
//! renders the badge template.

use vstd::prelude::*;

use crate::colors::ColorScale;
use crate::counter::ViewCounter;
use crate::svg::ViewCountSVG;
use crate::text::{dec_rep, u64_to_string};

verus! {

/// Which color-selection strategy a request uses.
#[derive(Clone, Copy, Debug, PartialEq, Eq, Structural)]
pub enum FillMode {
    Milestone,
    Random,
}

/// The fill mode a request gets when it names none.
pub fn default_fill_mode() -> (r: FillMode)
    ensures
        r == FillMode::Milestone,
{
    FillMode::Milestone
}

/// The badge document a request is answered with: the template's
/// segments around `'#'`, the selected color, and the decimal count.
pub open spec fn spec_badge(svg: ViewCountSVG, color: Seq<char>, count: u64) -> Seq<char> {
    svg.before_color_part@ + seq!['#'] + color + svg.after_color_before_text_part@ + dec_rep(
        count as nat,
    ) + svg.after_text_part@
}

/// The composition root: owns the color scale and the parsed badge
/// template, both immutable after construction, and drives the view
/// counter that is handed in per request.
pub struct RequestHandler {
    pub scale: ColorScale,
    pub svg: ViewCountSVG,
}

impl RequestHandler {
    /// The handler is usable whenever its scale is.
    pub open spec fn wf(self) -> bool {
        self.scale.wf()
    }

    pub fn new(scale: ColorScale, svg: ViewCountSVG) -> (r: RequestHandler)
        requires
            scale.wf(),
        ensures
            r.wf(),
            r.scale == scale,
            r.svg == svg,
    {
        RequestHandler { scale, svg }
    }

    /// Serves one request: increments the counter for `key`, selects a
    /// color for the new count per `mode`, and renders the badge. The
    /// counter changes exactly as one `increment_and_get` does.
    pub fn handle(&self, counter: &mut ViewCounter, key: &str, mode: FillMode) -> (r: String)
        requires
            self.wf(),
            old(counter).wf(),
            old(counter).count_of(key@) < u64::MAX,
            mode == FillMode::Random ==> self.scale.colors@.len() >= 2,
        ensures
            final(counter).wf(),
            final(counter).count_of(key@) == old(counter).count_of(key@) + 1,
            forall|k: Seq<char>|
                k != key@ ==> final(counter).count_of(k) == old(counter).count_of(k),
            forall|k: Seq<char>|
                final(counter).has_key(k) <==> (old(counter).has_key(k) || k == key@),
            ({
                let n = (old(counter).count_of(key@) + 1) as u64;
                match mode {
                    FillMode::Milestone => r@ == spec_badge(
                        self.svg,
                        self.scale.colors@[self.scale.spec_color_index(n)]@,
                        n,
                    ),
                    FillMode::Random => exists|ci: int|
                        0 <= ci < self.scale.colors@.len() - 1 && r@ == spec_badge(
                            self.svg,
                            self.scale.colors@[ci]@,
                            n,
                        ),
                }
            }),
    {
        let view_count = counter.increment_and_get(key);
        let color: &str = match mode {
            FillMode::Milestone => self.scale.hex_color_for_view_count(view_count),
            FillMode::Random => self.scale.random_hex_color(),
        };
        let mut css_color = String::from_str("#");
        proof {
            reveal_strlit("#");
            assert(css_color@ =~= seq!['#']);
        }
        css_color.append(color);
        let count_text = u64_to_string(view_count);
        self.svg.template(css_color.as_str(), count_text.as_str())
    }
}

} // verus!
