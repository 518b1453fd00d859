use raytracer::shading::{path_step, whitted_step, Bounce, PathStep, Surface, WhittedStep, MAX_DEPTH};

fn surface(emissive: bool, reflective: bool, diffuse: bool, transparent: bool) -> Surface {
    Surface { emissive, reflective, diffuse, transparent }
}

#[test]
fn default_depth_cap_is_ten() {
    assert_eq!(MAX_DEPTH, 10);
}

#[test]
fn a_light_ends_the_path_at_the_first_bounce() {
    let light = surface(true, false, false, false);
    assert_eq!(path_step(Some(light), 0, MAX_DEPTH), PathStep::Emit);
}

#[test]
fn a_light_ends_the_path_at_every_depth_and_with_every_material() {
    for depth in [0usize, 1, 9, 10, 11, usize::MAX] {
        for bits in 0..8u8 {
            let s = surface(true, bits & 1 != 0, bits & 2 != 0, bits & 4 != 0);
            assert_eq!(path_step(Some(s), depth, MAX_DEPTH), PathStep::Emit);
        }
    }
}

#[test]
fn a_miss_is_background_for_both_tracers() {
    for depth in [0usize, 5, 10, 20] {
        assert_eq!(path_step(None, depth, MAX_DEPTH), PathStep::Background);
        assert_eq!(whitted_step(None, depth, MAX_DEPTH), WhittedStep::Background);
    }
}

#[test]
fn a_path_is_absorbed_at_the_depth_cap() {
    let mirror = surface(false, true, false, false);
    assert_eq!(path_step(Some(mirror), 10, 10), PathStep::Absorbed);
    assert_eq!(path_step(Some(mirror), 11, 10), PathStep::Absorbed);
    assert_eq!(path_step(Some(mirror), 0, 0), PathStep::Absorbed);
    assert_eq!(
        path_step(Some(mirror), 9, 10),
        PathStep::Follow { refract: false, bounce: Some(Bounce::Mirror) }
    );
}

#[test]
fn a_path_follows_what_the_material_allows() {
    assert_eq!(
        path_step(Some(surface(false, false, false, false)), 0, 10),
        PathStep::Follow { refract: false, bounce: None }
    );
    assert_eq!(
        path_step(Some(surface(false, false, true, false)), 0, 10),
        PathStep::Follow { refract: false, bounce: None }
    );
    assert_eq!(
        path_step(Some(surface(false, true, true, false)), 3, 10),
        PathStep::Follow { refract: false, bounce: Some(Bounce::Scattered) }
    );
    assert_eq!(
        path_step(Some(surface(false, false, false, true)), 3, 10),
        PathStep::Follow { refract: true, bounce: None }
    );
    assert_eq!(
        path_step(Some(surface(false, true, false, true)), 3, 10),
        PathStep::Follow { refract: true, bounce: Some(Bounce::Mirror) }
    );
    assert_eq!(
        path_step(Some(surface(false, true, true, true)), 3, 10),
        PathStep::Follow { refract: true, bounce: Some(Bounce::Scattered) }
    );
}

#[test]
fn whitted_shades_every_hit_and_recurses_below_the_cap() {
    assert_eq!(
        whitted_step(Some(surface(false, false, false, false)), 0, 10),
        WhittedStep::Shade { mirror: false, refract: false }
    );
    assert_eq!(
        whitted_step(Some(surface(false, true, false, false)), 0, 10),
        WhittedStep::Shade { mirror: true, refract: false }
    );
    assert_eq!(
        whitted_step(Some(surface(false, true, true, false)), 4, 10),
        WhittedStep::Shade { mirror: true, refract: false }
    );
    assert_eq!(
        whitted_step(Some(surface(false, false, false, true)), 9, 10),
        WhittedStep::Shade { mirror: false, refract: true }
    );
    assert_eq!(
        whitted_step(Some(surface(true, true, false, true)), 9, 10),
        WhittedStep::Shade { mirror: true, refract: true }
    );
}

#[test]
fn whitted_stops_at_the_depth_cap() {
    for depth in [10usize, 11, 1000] {
        assert_eq!(
            whitted_step(Some(surface(false, true, false, true)), depth, 10),
            WhittedStep::Shade { mirror: false, refract: false }
        );
    }
    assert_eq!(
        whitted_step(Some(surface(false, true, false, true)), 0, 0),
        WhittedStep::Shade { mirror: false, refract: false }
    );
}

#[test]
fn no_step_recurses_from_the_cap() {
    for depth in 10..14usize {
        for bits in 0..16u8 {
            let s = surface(bits & 1 != 0, bits & 2 != 0, bits & 4 != 0, bits & 8 != 0);
            match path_step(Some(s), depth, 10) {
                PathStep::Follow { .. } => panic!("a path went on at depth {}", depth),
                _ => {}
            }
            assert_eq!(
                whitted_step(Some(s), depth, 10),
                WhittedStep::Shade { mirror: false, refract: false }
            );
        }
    }
}
