use boids::config::{BoundaryPolicy, ConfigError, SimulationConfig};
use boids::fixed::{MAX_MAGNITUDE, ONE};

#[test]
fn default_configuration_is_accepted() {
    let cfg = SimulationConfig::default();
    assert_eq!(cfg.validate(), Ok(()));
    assert_eq!(cfg.box_size, 250 * ONE);
    assert_eq!(cfg.min_speed, 15 * ONE);
    assert_eq!(cfg.max_speed, 60 * ONE);
    assert_eq!(cfg.separation_radius, 3 * ONE);
    assert_eq!(cfg.visible_radius, 6 * ONE);
    assert_eq!(cfg.attractor_radius, 60 * ONE);
    assert_eq!(cfg.coeff_separation, 104_858);
    assert_eq!(cfg.coeff_alignment, 5_243);
    assert_eq!(cfg.coeff_cohesion, 524);
    assert_eq!(cfg.coeff_boundary, ONE);
    assert_eq!(cfg.coeff_attractor, ONE);
    assert_eq!(cfg.boundary, BoundaryPolicy::SoftMargin);
}

#[test]
fn negative_radius_is_rejected() {
    let mut cfg = SimulationConfig::default();
    cfg.separation_radius = -1;
    assert_eq!(cfg.validate(), Err(ConfigError::NegativeRadius));
    let mut cfg = SimulationConfig::default();
    cfg.visible_radius = -ONE;
    assert_eq!(cfg.validate(), Err(ConfigError::NegativeRadius));
    let mut cfg = SimulationConfig::default();
    cfg.attractor_radius = -5;
    assert_eq!(cfg.validate(), Err(ConfigError::NegativeRadius));
}

#[test]
fn minimum_speed_not_below_maximum_is_rejected() {
    let mut cfg = SimulationConfig::default();
    cfg.min_speed = cfg.max_speed;
    assert_eq!(cfg.validate(), Err(ConfigError::SpeedRange));
    cfg.min_speed = cfg.max_speed + 1;
    assert_eq!(cfg.validate(), Err(ConfigError::SpeedRange));
    cfg.min_speed = cfg.max_speed - 1;
    assert_eq!(cfg.validate(), Ok(()));
}

#[test]
fn separation_radius_above_visible_radius_is_rejected() {
    let mut cfg = SimulationConfig::default();
    cfg.separation_radius = cfg.visible_radius + 1;
    assert_eq!(cfg.validate(), Err(ConfigError::RadiusOrder));
    cfg.separation_radius = cfg.visible_radius;
    assert_eq!(cfg.validate(), Ok(()));
}

#[test]
fn values_outside_the_format_are_rejected() {
    let mut cfg = SimulationConfig::default();
    cfg.box_size = MAX_MAGNITUDE + 1;
    assert_eq!(cfg.validate(), Err(ConfigError::OutOfRange));
    let mut cfg = SimulationConfig::default();
    cfg.box_size = -1;
    assert_eq!(cfg.validate(), Err(ConfigError::OutOfRange));
    let mut cfg = SimulationConfig::default();
    cfg.min_speed = -1;
    assert_eq!(cfg.validate(), Err(ConfigError::OutOfRange));
    let mut cfg = SimulationConfig::default();
    cfg.max_speed = MAX_MAGNITUDE + 1;
    assert_eq!(cfg.validate(), Err(ConfigError::OutOfRange));
    let mut cfg = SimulationConfig::default();
    cfg.visible_radius = MAX_MAGNITUDE + 1;
    assert_eq!(cfg.validate(), Err(ConfigError::OutOfRange));
    let mut cfg = SimulationConfig::default();
    cfg.attractor_radius = MAX_MAGNITUDE + 1;
    assert_eq!(cfg.validate(), Err(ConfigError::OutOfRange));
    let mut cfg = SimulationConfig::default();
    cfg.coeff_attractor = -MAX_MAGNITUDE - 1;
    assert_eq!(cfg.validate(), Err(ConfigError::OutOfRange));
    let mut cfg = SimulationConfig::default();
    cfg.coeff_cohesion = MAX_MAGNITUDE + 1;
    assert_eq!(cfg.validate(), Err(ConfigError::OutOfRange));
}

#[test]
fn extreme_values_inside_the_format_are_accepted() {
    let cfg = SimulationConfig {
        box_size: MAX_MAGNITUDE,
        min_speed: 0,
        max_speed: MAX_MAGNITUDE,
        separation_radius: 0,
        visible_radius: MAX_MAGNITUDE,
        coeff_separation: -MAX_MAGNITUDE,
        coeff_alignment: MAX_MAGNITUDE,
        coeff_cohesion: 0,
        coeff_boundary: -1,
        attractor_radius: 0,
        coeff_attractor: -MAX_MAGNITUDE,
        boundary: BoundaryPolicy::PeriodicWrap,
    };
    assert_eq!(cfg.validate(), Ok(()));
}

#[test]
fn the_first_reason_wins() {
    let mut cfg = SimulationConfig::default();
    cfg.separation_radius = -1;
    cfg.min_speed = cfg.max_speed;
    cfg.box_size = -1;
    assert_eq!(cfg.validate(), Err(ConfigError::NegativeRadius));
    cfg.separation_radius = cfg.visible_radius + 1;
    assert_eq!(cfg.validate(), Err(ConfigError::SpeedRange));
    cfg.min_speed = 0;
    assert_eq!(cfg.validate(), Err(ConfigError::RadiusOrder));
}
