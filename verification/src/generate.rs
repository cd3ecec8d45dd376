//! From a picture and the name of a method to a mask.

use crate::dither::{dithering_mask, is_dithering_of};
use crate::edges::{contour_mask, edge_map, is_contour_of};
use crate::human::{human_outline, is_outline_of};
use crate::mask::{lemma_masks_agree, ActivationMask};
use crate::matrix::{is_dark, matrix_mask};
use crate::path::MAX_VISITS;
use crate::raster::{GrayGrid, Picture, Samples};
use crate::scan::{continuous_mask, DARK_BELOW};
use crate::spiral::{spiral_mask, spiralled};
use crate::stipple::{stippled, stippling_mask};
use vstd::prelude::*;

verus! {

/// The ways of turning an image into a mask.
#[derive(Clone, Copy, PartialEq, Eq, Structural, Debug)]
pub enum Method {
    /// Threshold on the luminance of the colour.
    Matrix,
    /// Error diffusion.
    Dithering,
    /// Sweep along a spiral from the centre outwards.
    Spiral,
    /// Dots on a lattice, denser where the image is darker.
    Stippling,
    /// Edges.
    Contour,
    /// Edges, walked as an outline.
    Human,
    /// Serpentine scan.
    Continuous,
}

/// The method that a name selects. A name that is none of the six others
/// selects the threshold method.
pub open spec fn method_named(name: Seq<char>) -> Method {
    if name == "dithering"@ {
        Method::Dithering
    } else if name == "spiral"@ {
        Method::Spiral
    } else if name == "stippling"@ {
        Method::Stippling
    } else if name == "contour"@ {
        Method::Contour
    } else if name == "human"@ {
        Method::Human
    } else if name == "continuous"@ {
        Method::Continuous
    } else {
        Method::Matrix
    }
}

impl Method {
    pub fn from_name(name: &str) -> (method: Method)
        ensures
            method == method_named(name@),
    {
        let name = name.to_string();
        if name == "dithering".to_string() {
            Method::Dithering
        } else if name == "spiral".to_string() {
            Method::Spiral
        } else if name == "stippling".to_string() {
            Method::Stippling
        } else if name == "contour".to_string() {
            Method::Contour
        } else if name == "human".to_string() {
            Method::Human
        } else if name == "continuous".to_string() {
            Method::Continuous
        } else {
            Method::Matrix
        }
    }
}

/// What the two methods that rest on trigonometry take from their caller,
/// who evaluates the sines and cosines.
#[derive(Debug)]
pub struct Tables {
    /// The positions of the spiral sweep, in the order of the sweep.
    pub spiral_samples: Vec<(i32, i32)>,
    /// The dot level of each lattice point, row by row.
    pub stipple_levels: Vec<u8>,
}

/// What a method makes of an image: the mask and, for the outline method,
/// the order of its walk (empty for the other methods). The order is the
/// method's own; playback goes through the mask in row-major order.
#[derive(Debug)]
pub struct MaskPlan {
    pub mask: ActivationMask,
    pub order: Vec<(u32, u32)>,
}

/// Whether `plan` is what `method` makes of the luminance grid `gray`. The
/// two edge methods read the edge map of the grid. The threshold method
/// reads colours: no plan is its plan of a luminance grid.
pub open spec fn plan_of_gray(plan: MaskPlan, gray: Samples, method: Method, tables: Tables) -> bool {
    &&& plan.mask.wf()
    &&& plan.mask.width == gray.width
    &&& plan.mask.height == gray.height
    &&& match method {
        Method::Matrix => false,
        Method::Dithering => plan.order@.len() == 0 && is_dithering_of(plan.mask, gray),
        Method::Spiral => plan.order@.len() == 0 && forall|x: int, y: int|
            plan.mask.in_bounds(x, y) ==> #[trigger] plan.mask.active(x, y) == spiralled(
                gray,
                tables.spiral_samples@,
                x,
                y,
            ),
        Method::Stippling => plan.order@.len() == 0 && forall|x: int, y: int|
            plan.mask.in_bounds(x, y) ==> #[trigger] plan.mask.active(x, y) == stippled(
                gray,
                tables.stipple_levels@,
                x,
                y,
            ),
        Method::Continuous => plan.order@.len() == 0 && forall|x: int, y: int|
            plan.mask.in_bounds(x, y) ==> #[trigger] plan.mask.active(x, y) == (gray.at(x, y)
                < DARK_BELOW),
        Method::Contour => plan.order@.len() == 0 && is_contour_of(plan.mask, edge_map(gray)),
        Method::Human => is_outline_of(plan.mask, plan.order@, edge_map(gray)),
    }
}

/// Whether `plan` is what `method` makes of `picture`. The threshold method
/// reads the colours; every other method reads the picture's luminance.
pub open spec fn plan_of(plan: MaskPlan, picture: Picture, method: Method, tables: Tables) -> bool {
    match method {
        Method::Matrix => {
            &&& plan.mask.wf()
            &&& plan.mask.width == picture.width
            &&& plan.mask.height == picture.height
            &&& plan.order@.len() == 0
            &&& forall|x: int, y: int|
                plan.mask.in_bounds(x, y) ==> #[trigger] plan.mask.active(x, y) == is_dark(
                    picture.channel(x, y, 0),
                    picture.channel(x, y, 1),
                    picture.channel(x, y, 2),
                )
        },
        _ => plan_of_gray(plan, picture.luminance(), method, tables),
    }
}

/// Makes the plan of a luminance grid by one of the methods that read
/// luminance. The threshold method reads colours and has no plan of a
/// luminance grid: asked for it, this function gives `None`.
pub fn plan_gray(gray: &GrayGrid, method: Method, tables: &Tables) -> (plan: Option<MaskPlan>)
    requires
        gray.wf(),
    ensures
        plan is None <==> method == Method::Matrix,
        plan matches Some(p) ==> plan_of_gray(p, gray@, method, *tables)
            && p.order@.len() <= MAX_VISITS && p.order@.no_duplicates(),
{
    let plan = match method {
        Method::Matrix => {
            return None;
        },
        Method::Dithering => MaskPlan { mask: dithering_mask(gray), order: Vec::new() },
        Method::Spiral => MaskPlan {
            mask: spiral_mask(gray, &tables.spiral_samples),
            order: Vec::new(),
        },
        Method::Stippling => MaskPlan {
            mask: stippling_mask(gray, &tables.stipple_levels),
            order: Vec::new(),
        },
        Method::Contour => MaskPlan { mask: contour_mask(gray), order: Vec::new() },
        Method::Human => {
            let outline = human_outline(gray);
            MaskPlan { mask: outline.0, order: outline.1 }
        },
        Method::Continuous => MaskPlan { mask: continuous_mask(gray), order: Vec::new() },
    };
    Some(plan)
}

/// Two plans of one picture by one method under the same tables are the
/// same: the mask and the order are determined by the picture.
pub proof fn lemma_plan_is_determined(
    first: MaskPlan,
    second: MaskPlan,
    picture: Picture,
    method: Method,
    tables: Tables,
)
    requires
        picture.wf(),
        plan_of(first, picture, method, tables),
        plan_of(second, picture, method, tables),
    ensures
        first.mask.cells@ == second.mask.cells@,
        first.order@ == second.order@,
{
    assert forall|x: int, y: int| first.mask.in_bounds(x, y) implies #[trigger] first.mask.active(
        x,
        y,
    ) == second.mask.active(x, y) by {
        assert(second.mask.in_bounds(x, y));
        if method == Method::Human {
            let c = (x as u32, y as u32);
            assert(first.mask.active(x, y) == first.order@.contains(c));
            assert(second.mask.active(x, y) == second.order@.contains(c));
        }
    }
    lemma_masks_agree(first.mask, second.mask);
    assert(first.order@ =~= second.order@);
}

/// Turns a picture into the plan of the method that `method` names. The
/// order of a plan holds `MAX_VISITS` cells at most and none twice.
pub fn process_image(picture: &Picture, method: &str, tables: &Tables) -> (plan: MaskPlan)
    requires
        picture.wf(),
    ensures
        plan_of(plan, *picture, method_named(method@), *tables),
        plan.order@.len() <= MAX_VISITS,
        plan.order@.no_duplicates(),
{
    let chosen = Method::from_name(method);
    if chosen == Method::Matrix {
        return MaskPlan { mask: matrix_mask(picture), order: Vec::new() };
    }
    let gray = picture.to_gray();
    let plan = plan_gray(&gray, chosen, tables);
    plan.unwrap()
}

} // verus!
