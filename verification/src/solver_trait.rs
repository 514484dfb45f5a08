//! What a plate solver is asked.
//!
//! Angles are in microarcseconds, durations in nanoseconds and ratios in billionths.

use vstd::prelude::*;

use crate::astro_util::ImageCoord;
use crate::cedar::CelestialCoord;

verus! {

/// What else to return with a solution.
#[derive(Debug)]
pub struct SolveExtension {
    /// Points of the image to find the sky places of.
    pub target_pixel: Option<Vec<ImageCoord>>,
    /// Places in the sky to find the points in the image of.
    pub target_sky_coord: Option<Vec<CelestialCoord>>,
    /// Whether to return the matched stars.
    pub return_matches: bool,
    /// Whether to return the stars of the catalog within the image.
    pub return_catalog: bool,
    /// Whether to return the rotation matrix.
    pub return_rotation_matrix: bool,
}

impl Default for SolveExtension {
    /// Asks for nothing else.
    fn default() -> (extension: Self)
        ensures
            extension.target_pixel is None,
            extension.target_sky_coord is None,
            !extension.return_matches,
            !extension.return_catalog,
            !extension.return_rotation_matrix,
    {
        SolveExtension {
            target_pixel: None,
            target_sky_coord: None,
            return_matches: false,
            return_catalog: false,
            return_rotation_matrix: false,
        }
    }
}

/// How to solve.
#[derive(Clone, Copy, Debug, PartialEq, Eq)]
pub struct SolveParams {
    /// The horizontal field of view and its tolerance; without it any field of view is tried.
    pub fov_estimate: Option<(i64, i64)>,
    /// How far apart a match may be, as a part of the field of view.
    pub match_radius: Option<i64>,
    /// How likely a false match may be.
    pub match_threshold: Option<i64>,
    /// How long to try.
    pub solve_timeout: Option<u64>,
    /// The distortion of the lens.
    pub distortion: Option<i64>,
    /// How far a pattern may be off.
    pub match_max_error: Option<i64>,
}

impl Default for SolveParams {
    /// Leaves everything to the solver.
    fn default() -> (params: Self)
        ensures
            params == (SolveParams {
                fov_estimate: None,
                match_radius: None,
                match_threshold: None,
                solve_timeout: None,
                distortion: None,
                match_max_error: None,
            }),
    {
        SolveParams {
            fov_estimate: None,
            match_radius: None,
            match_threshold: None,
            solve_timeout: None,
            distortion: None,
            match_max_error: None,
        }
    }
}

} // verus!
