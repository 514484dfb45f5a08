//! How a plate solution is judged against what is true of a field.
//!
//! Numbers are in billionths of the unit that their name gives.

use vstd::prelude::*;

use crate::corpus::{Field, Number};

verus! {

/// How far off the center may be: five arc minutes.
pub const CENTER_TOL_ARCMIN: i64 = 5_000_000_000;

/// How far off the roll may be: a degree.
pub const ROLL_TOL_DEG: i64 = 1_000_000_000;

/// How far off the field of view may be: a fiftieth.
pub const FOV_TOL_FRAC: i64 = 20_000_000;

/// A full turn.
pub const TURN_DEG: i64 = 360_000_000_000;

/// How far a solution is off. What is not known is missing; without a solution nothing is.
#[derive(Debug)]
pub struct Outcome {
    /// The name of the field.
    pub name: String,
    /// Whether there is a solution.
    pub solved: bool,
    /// How far off the center is.
    pub center_arcmin: Option<i64>,
    /// How far off the roll is, with its sign.
    pub roll_err_deg: Option<i64>,
    /// How far off the field of view is, as a part of the true one.
    pub fov_err_frac: Option<i64>,
    /// How long the solution took.
    pub solve_time_ms: Option<i64>,
    /// How many stars matched.
    pub num_matches: i32,
    /// How many stars were detected.
    pub num_centroids: usize,
}

impl Outcome {
    /// Whether a solution is good: everything that is gated lies within its tolerance.
    pub open spec fn is_pass(&self) -> bool {
        &&& self.solved
        &&& self.center_arcmin matches Some(center) && center < CENTER_TOL_ARCMIN
        &&& self.roll_err_deg matches Some(roll) && -ROLL_TOL_DEG < roll < ROLL_TOL_DEG
        &&& self.fov_err_frac matches Some(fov) && fov < FOV_TOL_FRAC
    }

    /// Whether a solution is good.
    pub fn passed(&self) -> (pass: bool)
        ensures
            pass == self.is_pass(),
    {
        if !self.solved {
            return false;
        }
        match (self.center_arcmin, self.roll_err_deg, self.fov_err_frac) {
            (Some(center), Some(roll), Some(fov)) => center < CENTER_TOL_ARCMIN && roll
                > -ROLL_TOL_DEG && roll < ROLL_TOL_DEG && fov < FOV_TOL_FRAC,
            _ => false,
        }
    }
}

/// The smallest difference between two angles, with its sign.
pub open spec fn circular_diff(a: int, b: int) -> int {
    (a - b + TURN_DEG / 2) % TURN_DEG as int - TURN_DEG / 2
}

/// The smallest difference between two angles, with its sign.
pub fn circular_diff_deg(a: i64, b: i64) -> (difference: i64)
    requires
        -4_000_000_000_000_000_000 <= a <= 4_000_000_000_000_000_000,
        -4_000_000_000_000_000_000 <= b <= 4_000_000_000_000_000_000,
    ensures
        difference == circular_diff(a as int, b as int),
{
    let half: i64 = TURN_DEG / 2;
    let mut rest: i64 = (a - b + half) % TURN_DEG;
    if rest < 0 {
        rest = rest + TURN_DEG;
    }
    rest - half
}

/// The roll that a field's rotation leads to.
pub open spec fn expected_roll(rotation: int) -> int {
    (TURN_DEG / 2 + rotation) % TURN_DEG as int
}

/// The roll that a field's rotation leads to.
pub fn expected_roll_deg(rotation_deg: i64) -> (roll: i64)
    ensures
        roll == expected_roll(rotation_deg as int),
{
    let rest: i64 = ((TURN_DEG as i128 / 2 + rotation_deg as i128) % TURN_DEG as i128) as i64;
    if rest < 0 {
        rest + TURN_DEG
    } else {
        rest
    }
}

/// What a solution says.
#[derive(Clone, Copy, Debug, PartialEq, Eq, Structural)]
pub struct SolvedPose {
    /// How far its center is from that of the field.
    pub center_arcmin: i64,
    /// Its roll.
    pub roll_deg: i64,
    /// Its field of view.
    pub fov_deg: i64,
    /// How long it took, if that is known.
    pub solve_time_ms: Option<i64>,
    /// How many stars matched.
    pub num_matches: i32,
}

/// A difference as a part of the true value, to the nearest.
pub open spec fn fraction_off(value: int, truth: int) -> int {
    let off = if value < truth {
        truth - value
    } else {
        value - truth
    };
    (off * 2_000_000_000 + truth) / (truth * 2)
}

/// Judges a solution of a field, or that there is none. The true field of view goes by the
/// projection of the image. Where the rotation of the field is no number, the roll cannot be
/// judged.
pub fn evaluate(
    field: &Field,
    pose: Option<SolvedPose>,
    true_fov_deg: i64,
    num_centroids: usize,
) -> (outcome: Outcome)
    requires
        100 <= true_fov_deg <= TURN_DEG,
        pose is Some ==> !(field.rotation_deg is Beyond),
        pose matches Some(pose) ==> 0 <= pose.fov_deg <= TURN_DEG && -TURN_DEG <= pose.roll_deg
            <= TURN_DEG,
    ensures
        outcome.name@ == field.name@,
        outcome.num_centroids == num_centroids,
        match pose {
            Some(pose) => {
                &&& outcome.solved
                &&& outcome.center_arcmin == Some(pose.center_arcmin)
                &&& outcome.roll_err_deg == (match field.rotation_deg {
                    Number::Finite(rotation) => Some(
                        circular_diff(
                            pose.roll_deg as int,
                            expected_roll(rotation as int),
                        ) as i64,
                    ),
                    _ => None,
                })
                &&& outcome.fov_err_frac matches Some(off) && off == fraction_off(
                    pose.fov_deg as int,
                    true_fov_deg as int,
                )
                &&& outcome.solve_time_ms == pose.solve_time_ms
                &&& outcome.num_matches == pose.num_matches
            },
            None => {
                &&& !outcome.solved
                &&& outcome.center_arcmin is None
                &&& outcome.roll_err_deg is None
                &&& outcome.fov_err_frac is None
                &&& outcome.solve_time_ms is None
                &&& outcome.num_matches == 0
            },
        },
{
    let name: String = field.name.clone();
    match pose {
        None => Outcome {
            name,
            solved: false,
            center_arcmin: None,
            roll_err_deg: None,
            fov_err_frac: None,
            solve_time_ms: None,
            num_matches: 0,
            num_centroids,
        },
        Some(pose) => {
            let roll_err_deg: Option<i64> = match field.rotation_deg {
                Number::Finite(rotation) => Some(
                    circular_diff_deg(pose.roll_deg, expected_roll_deg(rotation)),
                ),
                _ => None,
            };
            let off: u128 = if pose.fov_deg < true_fov_deg {
                (true_fov_deg - pose.fov_deg) as u128
            } else {
                (pose.fov_deg - true_fov_deg) as u128
            };
            let truth: u128 = true_fov_deg as u128;
            let fraction: u128 = (off * 2_000_000_000 + truth) / (truth * 2);
            assert(fraction as int <= 4_000_000_000_000_000_000) by (nonlinear_arith)
                requires
                    fraction as int == (off * 2_000_000_000 + truth) / (truth * 2),
                    truth >= 100,
                    0 <= off <= 360_000_000_000,
            ;
            Outcome {
                name,
                solved: true,
                center_arcmin: Some(pose.center_arcmin),
                roll_err_deg,
                fov_err_frac: Some(fraction as i64),
                solve_time_ms: pose.solve_time_ms,
                num_matches: pose.num_matches,
                num_centroids,
            }
        },
    }
}

/// The difference between two angles is at most half a turn, and leads from one to the other.
pub proof fn law_circular_diff(a: int, b: int)
    ensures
        -TURN_DEG / 2 <= circular_diff(a, b) < TURN_DEG / 2,
        (b + circular_diff(a, b) - a) % TURN_DEG as int == 0,
{
    let shifted = a - b + TURN_DEG / 2;
    let turn = TURN_DEG as int;
    vstd::arithmetic::div_mod::lemma_fundamental_div_mod(shifted, turn);
    let q = shifted / turn;
    assert(b + circular_diff(a, b) - a == turn * (-q)) by (nonlinear_arith)
        requires
            shifted == turn * q + shifted % turn,
            circular_diff(a, b) == shifted % turn - 180_000_000_000,
            shifted == a - b + 180_000_000_000,
    ;
    vstd::arithmetic::div_mod::lemma_mod_multiples_basic(-q, turn);
    assert((-q) * turn == turn * (-q)) by (nonlinear_arith);
}

/// A solution that says exactly what is true passes, whatever the rotation.
pub proof fn law_truth_passes(outcome: Outcome, rotation: int, fov: int)
    requires
        0 < fov <= TURN_DEG,
        outcome.solved,
        outcome.center_arcmin == Some(0i64),
        outcome.roll_err_deg == Some(
            circular_diff(expected_roll(rotation), expected_roll(rotation)) as i64,
        ),
        outcome.fov_err_frac == Some(fraction_off(fov, fov) as i64),
    ensures
        outcome.is_pass(),
{
    assert(fov / (fov * 2) == 0) by (nonlinear_arith)
        requires
            fov > 0,
    ;
    assert(0 * 2_000_000_000 + fov == fov);
}

/// A solution whose center is off by the tolerance or more does not pass, and neither does a
/// missing one.
pub proof fn law_wrong_fails(outcome: Outcome)
    requires
        !outcome.solved || (outcome.center_arcmin matches Some(center) && center
            >= CENTER_TOL_ARCMIN),
    ensures
        !outcome.is_pass(),
{
}

/// A solution passes where its center is less than five minutes of arc off, its roll less than a
/// degree either way and its field of view less than a fiftieth, and where all of that is known.
pub proof fn law_passing_takes_all_three(outcome: Outcome, pass: bool)
    requires
        call_ensures(Outcome::passed, (&outcome,), pass),
    ensures
        pass ==> outcome.solved && outcome.center_arcmin is Some && outcome.roll_err_deg is Some
            && outcome.fov_err_frac is Some,
        pass ==> outcome.center_arcmin->0 < 5_000_000_000 && outcome.roll_err_deg->0
            < 1_000_000_000 && outcome.roll_err_deg->0 > -1_000_000_000 && outcome.fov_err_frac->0
            < 20_000_000,
        outcome.solved && (outcome.center_arcmin matches Some(center) && center < 5_000_000_000)
            && (outcome.roll_err_deg matches Some(roll) && -1_000_000_000 < roll < 1_000_000_000)
            && (outcome.fov_err_frac matches Some(fov) && fov < 20_000_000) ==> pass,
{
}

/// The difference of two angles leads from the second to the first by the shorter way, and back by
/// as much. The roll that a rotation leads to is half a turn beyond it.
pub proof fn law_angles_are_compared(a: i64, b: i64, there: i64, back: i64, roll: i64)
    requires
        call_ensures(circular_diff_deg, (a, b), there),
        call_ensures(circular_diff_deg, (b, a), back),
        call_ensures(expected_roll_deg, (a,), roll),
    ensures
        -180_000_000_000 <= there < 180_000_000_000,
        (b + there - a) % 360_000_000_000 == 0,
        there != -180_000_000_000 ==> back == -there,
        0 <= roll < 360_000_000_000,
        (roll - a) % 360_000_000_000 == 180_000_000_000,
{
}

/// A solution is judged by what it says: how far its center is off, how its roll differs from the
/// one that the field leads to, and how its field of view differs as a part of the true one.
/// Without one nothing is known.
pub proof fn law_solution_is_judged(
    field: Field,
    pose: SolvedPose,
    rotation: i64,
    truth: i64,
    count: usize,
    outcome: Outcome,
    none: Outcome,
)
    requires
        field.rotation_deg == Number::Finite(rotation),
        100 <= truth <= 360_000_000_000,
        0 <= pose.fov_deg <= 360_000_000_000,
        call_ensures(evaluate, (&field, Some(pose), truth, count), outcome),
        call_ensures(evaluate, (&field, None::<SolvedPose>, truth, count), none),
    ensures
        outcome.solved && !none.solved,
        outcome.name@ == field.name@ && none.name@ == field.name@,
        outcome.num_centroids == count && none.num_centroids == count,
        outcome.num_matches == pose.num_matches && none.num_matches == 0,
        outcome.center_arcmin == Some(pose.center_arcmin) && none.center_arcmin is None,
        outcome.solve_time_ms == pose.solve_time_ms && none.solve_time_ms is None,
        none.roll_err_deg is None && none.fov_err_frac is None,
        outcome.roll_err_deg matches Some(off) && -180_000_000_000 <= off < 180_000_000_000 && (
        pose.roll_deg - off - rotation) % 360_000_000_000 == 180_000_000_000,
        outcome.fov_err_frac matches Some(off) && {
            let apart = if pose.fov_deg < truth {
                truth - pose.fov_deg
            } else {
                pose.fov_deg - truth
            };
            2 * off * truth - truth <= 2_000_000_000 * apart <= 2 * off * truth + truth
        },
{
    let off = outcome.fov_err_frac->0 as int;
    let t = truth as int;
    let apart = if pose.fov_deg < truth {
        truth - pose.fov_deg
    } else {
        pose.fov_deg - truth
    };
    assert(2 * off * t - t <= 2_000_000_000 * apart <= 2 * off * t + t) by (nonlinear_arith)
        requires
            t > 0,
            off == (apart * 2_000_000_000 + t) / (t * 2),
    ;
}

} // verus!
