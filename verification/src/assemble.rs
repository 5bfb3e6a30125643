//! The collection assembler: validates the document's rectangles once,
//! resolves the styling fallback chain, and runs the geometry engine over
//! every grid in input order.

use crate::geometry::{
    min_index, num_segments, proj_model, project, seg_model_at, GridError, GridSpec, Rect, Segment,
};
use vstd::prelude::*;

verus! {

/// One grid's emitted segments, carrying the styling it resolved to.
pub struct StyledGroup {
    pub stroke: String,
    pub stroke_width: Option<i64>,
    pub segments: Vec<Segment>,
}

/// The whole input document: canvas bounds, an optional clip region that
/// segments are computed against, document-level styling defaults, and the
/// ordered grids.
pub struct GridCollection {
    pub bounds: Rect,
    pub clip: Option<Rect>,
    pub stroke: Option<String>,
    pub stroke_width: Option<i64>,
    pub grids: Vec<GridSpec>,
}

impl GridCollection {
    /// The region every projection runs against: the clip when present,
    /// the canvas bounds otherwise.
    pub open spec fn effective_viewport(self) -> Rect {
        match self.clip {
            Some(r) => r,
            None => self.bounds,
        }
    }

    /// Both document rectangles satisfy the rectangle invariant.
    pub open spec fn viewports_ok(self) -> bool {
        &&& self.bounds.valid()
        &&& (self.clip matches Some(r) ==> r.valid())
    }

    /// Machine limits on every numeric field, and an acceptable supplied
    /// direction on every grid.
    pub open spec fn bounded(self) -> bool {
        &&& self.bounds.bounded()
        &&& (self.clip matches Some(r) ==> r.bounded())
        &&& forall|j: int|
            0 <= j < self.grids@.len() ==> (#[trigger] self.grids@[j]).bounded()
                && self.grids@[j].dir_ok()
    }
}

/// The stroke a grid is drawn with: the grid's own, else the document
/// default, else black.
pub open spec fn resolved_stroke_spec(g: Option<String>, d: Option<String>) -> Seq<char> {
    match g {
        Some(s) => s@,
        None => match d {
            Some(s) => s@,
            None => "black"@,
        },
    }
}

/// The stroke width a grid is drawn with: the grid's own, else the
/// document default, else unset (the renderer's own default applies).
pub open spec fn resolved_width_spec(g: Option<i64>, d: Option<i64>) -> Option<i64> {
    match g {
        Some(w) => Some(w),
        None => d,
    }
}

/// Resolves the three-level stroke fallback chain.
fn resolve_stroke(g: &Option<String>, d: &Option<String>) -> (r: String)
    ensures
        r@ == resolved_stroke_spec(*g, *d),
{
    match g {
        Some(s) => s.clone(),
        None => match d {
            Some(s) => s.clone(),
            None => "black".to_owned(),
        },
    }
}

/// Resolves the two-level stroke-width fallback chain.
fn resolve_width(g: &Option<i64>, d: &Option<i64>) -> (r: Option<i64>)
    ensures
        r == resolved_width_spec(*g, *d),
{
    match g {
        Some(w) => Some(*w),
        None => *d,
    }
}

/// A fully assembled drawing.  The canvas is always sized by the
/// document's bounds, while every segment was computed against the
/// effective viewport — clipping narrows the drawing, never the canvas.
pub struct GridDrawing {
    pub canvas: Rect,
    pub viewport: Rect,
    pub groups: Vec<StyledGroup>,
}

/// What `assemble` promises of each emitted group: resolved styling, and
/// exactly the ordered segments the geometry engine's model gives for its
/// grid against the effective viewport.
pub open spec fn group_matches(gr: StyledGroup, g: GridSpec, c: GridCollection, vp: Rect) -> bool {
    &&& gr.stroke@ == resolved_stroke_spec(g.stroke, c.stroke)
    &&& gr.stroke_width == resolved_width_spec(g.stroke_width, c.stroke_width)
    &&& gr.segments@.len() == num_segments(proj_model(g, vp))
    &&& forall|k: int|
        0 <= k < gr.segments@.len() ==> (#[trigger] gr.segments@[k])@ == seg_model_at(
            proj_model(g, vp),
            min_index(proj_model(g, vp)) + k,
        )
}

/// Assembles the whole document: validates both rectangles once, then
/// projects every grid against the effective viewport in input order.
///
/// Fails with `InvalidViewport` exactly when a document rectangle breaks
/// the `min < max` invariant, and otherwise with `InvalidGrid` exactly
/// when some grid's spacing is zero (the whole run aborts, no partial
/// output).
#[verifier::loop_isolation(false)]
pub fn assemble(c: &GridCollection) -> (r: Result<GridDrawing, GridError>)
    requires
        c.bounded(),
    ensures
        (r matches Err(e) && e == GridError::InvalidViewport) <==> !c.viewports_ok(),
        (r matches Err(e) && e == GridError::InvalidGrid) <==> (c.viewports_ok() && exists|j: int|
            0 <= j < c.grids@.len() && (#[trigger] c.grids@[j]).step == 0),
        r matches Ok(d) ==> ({
            &&& c.viewports_ok()
            &&& forall|j: int| 0 <= j < c.grids@.len() ==> (#[trigger] c.grids@[j]).step != 0
            &&& d.canvas == c.bounds
            &&& d.viewport == c.effective_viewport()
            &&& d.groups@.len() == c.grids@.len()
            &&& forall|j: int|
                0 <= j < d.groups@.len() ==> group_matches(
                    #[trigger] d.groups@[j],
                    c.grids@[j],
                    *c,
                    c.effective_viewport(),
                )
        }),
{
    if !c.bounds.is_valid() {
        return Err(GridError::InvalidViewport);
    }
    let vp: Rect = match &c.clip {
        Some(r) => {
            if !r.is_valid() {
                return Err(GridError::InvalidViewport);
            }
            *r
        },
        None => c.bounds,
    };
    let mut groups: Vec<StyledGroup> = Vec::new();
    let n: usize = c.grids.len();
    let mut j: usize = 0;
    while j < n
        invariant
            j <= n,
            groups@.len() == j,
            forall|t: int| 0 <= t < j ==> (#[trigger] c.grids@[t]).step != 0,
            forall|t: int|
                0 <= t < j ==> group_matches(#[trigger] groups@[t], c.grids@[t], *c, vp),
        decreases n - j,
    {
        let g = &c.grids[j];
        let segs: Vec<Segment> = match project(g, &vp) {
            Ok(v) => v,
            Err(_) => {
                return Err(GridError::InvalidGrid);
            },
        };
        let gr = StyledGroup {
            stroke: resolve_stroke(&g.stroke, &c.stroke),
            stroke_width: resolve_width(&g.stroke_width, &c.stroke_width),
            segments: segs,
        };
        groups.push(gr);
        j += 1;
    }
    Ok(GridDrawing { canvas: c.bounds, viewport: vp, groups })
}

} // verus!
