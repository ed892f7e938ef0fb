//! Light sources.

use vstd::prelude::*;

use crate::color::Color;
use crate::normal::Normal;
use crate::point::Point;

verus! {

/// Largest intensity factor a light is specified for.
pub const INTENSITY_MAX: i64 = 1_000_000;

/// A light: ambient everywhere, or placed at a point, or shining along a
/// fixed direction. The scalar is the intensity factor.
#[derive(Clone, Copy, Debug)]
pub enum Light {
    Environment(Color, i64),
    Point(Point, Color, i64),
    Directed(Normal, Color, i64),
}

impl Light {
    pub open spec fn wf(self) -> bool {
        match self {
            Light::Environment(c, k) => c.wf() && 0 <= k <= INTENSITY_MAX,
            Light::Point(p, c, k) => p.wf() && c.wf() && 0 <= k <= INTENSITY_MAX,
            Light::Directed(d, c, k) => d.wf() && c.wf() && 0 <= k <= INTENSITY_MAX,
        }
    }
}

} // verus!
