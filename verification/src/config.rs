//! The tunable parameters of a simulation, and their validation.

use crate::fixed::MAX_MAGNITUDE;
use vstd::prelude::*;

verus! {

/// What happens to an agent that leaves the box.
#[derive(Clone, Copy, Debug, PartialEq, Eq, Structural)]
pub enum BoundaryPolicy {
    /// The velocity is nudged back toward the box; the position is untouched,
    /// so an agent may stay outside for several ticks.
    SoftMargin,
    /// The position re-enters the box from the opposite side; the velocity is
    /// untouched.
    PeriodicWrap,
}

/// Why a configuration was rejected.
#[derive(Clone, Copy, Debug, PartialEq, Eq, Structural)]
pub enum ConfigError {
    /// A radius is negative.
    NegativeRadius,
    /// The minimum speed is not below the maximum speed.
    SpeedRange,
    /// The separation radius exceeds the visible radius.
    RadiusOrder,
    /// A value lies outside what the fixed-point format can hold: a magnitude
    /// above [`MAX_MAGNITUDE`], or a negative speed or box size.
    OutOfRange,
}

/// One consistent snapshot of the parameters; every value is in fixed-point
/// units.
#[derive(Clone, Copy, Debug, PartialEq, Eq, Structural)]
pub struct SimulationConfig {
    pub box_size: i64,
    pub min_speed: i64,
    pub max_speed: i64,
    pub separation_radius: i64,
    pub visible_radius: i64,
    pub coeff_separation: i64,
    pub coeff_alignment: i64,
    pub coeff_cohesion: i64,
    pub coeff_boundary: i64,
    pub attractor_radius: i64,
    pub coeff_attractor: i64,
    pub boundary: BoundaryPolicy,
}

/// Whether `c` can serve as a coefficient.
pub open spec fn coefficient_in_range(c: i64) -> bool {
    -MAX_MAGNITUDE <= c <= MAX_MAGNITUDE
}

impl SimulationConfig {
    /// Whether some radius is negative.
    pub open spec fn has_negative_radius(&self) -> bool {
        self.separation_radius < 0 || self.visible_radius < 0 || self.attractor_radius < 0
    }

    /// Whether every value fits the fixed-point format.
    pub open spec fn in_range(&self) -> bool {
        &&& 0 <= self.box_size <= MAX_MAGNITUDE
        &&& 0 <= self.min_speed <= MAX_MAGNITUDE
        &&& 0 <= self.max_speed <= MAX_MAGNITUDE
        &&& self.separation_radius <= MAX_MAGNITUDE
        &&& self.visible_radius <= MAX_MAGNITUDE
        &&& self.attractor_radius <= MAX_MAGNITUDE
        &&& coefficient_in_range(self.coeff_separation)
        &&& coefficient_in_range(self.coeff_alignment)
        &&& coefficient_in_range(self.coeff_cohesion)
        &&& coefficient_in_range(self.coeff_boundary)
        &&& coefficient_in_range(self.coeff_attractor)
    }

    /// The first reason, if any, to reject this configuration.
    pub open spec fn rejection(&self) -> Option<ConfigError> {
        if self.has_negative_radius() {
            Some(ConfigError::NegativeRadius)
        } else if self.min_speed >= self.max_speed {
            Some(ConfigError::SpeedRange)
        } else if self.separation_radius > self.visible_radius {
            Some(ConfigError::RadiusOrder)
        } else if !self.in_range() {
            Some(ConfigError::OutOfRange)
        } else {
            None
        }
    }

    /// Whether a tick may run under this configuration.
    pub open spec fn valid(&self) -> bool {
        &&& !self.has_negative_radius()
        &&& self.min_speed < self.max_speed
        &&& self.separation_radius <= self.visible_radius
        &&& self.in_range()
    }

    /// Half the box size: the distance of each margin from the centre.
    pub open spec fn half_extent(&self) -> int {
        self.box_size as int / 2
    }

    /// Accepts the configuration, or says why it is rejected.
    pub fn validate(&self) -> (r: Result<(), ConfigError>)
        ensures
            r == match self.rejection() {
                Some(e) => Err::<(), ConfigError>(e),
                None => Ok::<(), ConfigError>(()),
            },
            r is Ok <==> self.valid(),
    {
        if self.separation_radius < 0 || self.visible_radius < 0 || self.attractor_radius < 0 {
            return Err(ConfigError::NegativeRadius);
        }
        if self.min_speed >= self.max_speed {
            return Err(ConfigError::SpeedRange);
        }
        if self.separation_radius > self.visible_radius {
            return Err(ConfigError::RadiusOrder);
        }
        if !(0 <= self.box_size && self.box_size <= MAX_MAGNITUDE && 0 <= self.min_speed
            && self.max_speed <= MAX_MAGNITUDE && self.visible_radius <= MAX_MAGNITUDE
            && self.attractor_radius <= MAX_MAGNITUDE && is_coefficient(self.coeff_separation)
            && is_coefficient(self.coeff_alignment) && is_coefficient(self.coeff_cohesion)
            && is_coefficient(self.coeff_boundary) && is_coefficient(self.coeff_attractor)) {
            return Err(ConfigError::OutOfRange);
        }
        Ok(())
    }
}

fn is_coefficient(c: i64) -> (r: bool)
    ensures
        r == coefficient_in_range(c),
{
    -MAX_MAGNITUDE <= c && c <= MAX_MAGNITUDE
}

impl Default for SimulationConfig {
    /// A box of 250, speeds from 15 to 60, radii of 3 and 6 and an attractor
    /// radius of 60; coefficients 0.1 for separation, 0.005 for alignment,
    /// 0.0005 for cohesion and 1 for the boundary and the attractor, each
    /// rounded to the nearest unit.
    fn default() -> (c: SimulationConfig)
        ensures
            c == (SimulationConfig {
                box_size: 262_144_000,
                min_speed: 15_728_640,
                max_speed: 62_914_560,
                separation_radius: 3_145_728,
                visible_radius: 6_291_456,
                coeff_separation: 104_858,
                coeff_alignment: 5_243,
                coeff_cohesion: 524,
                coeff_boundary: 1_048_576,
                attractor_radius: 62_914_560,
                coeff_attractor: 1_048_576,
                boundary: BoundaryPolicy::SoftMargin,
            }),
            c.valid(),
    {
        SimulationConfig {
            box_size: 262_144_000,
            min_speed: 15_728_640,
            max_speed: 62_914_560,
            separation_radius: 3_145_728,
            visible_radius: 6_291_456,
            coeff_separation: 104_858,
            coeff_alignment: 5_243,
            coeff_cohesion: 524,
            coeff_boundary: 1_048_576,
            attractor_radius: 62_914_560,
            coeff_attractor: 1_048_576,
            boundary: BoundaryPolicy::SoftMargin,
        }
    }
}

} // verus!
