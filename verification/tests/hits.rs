use raytracer::hit::Hit;
use raytracer::scene::Scene;

fn hit(t: u64, object: usize) -> Option<Hit> {
    Some(Hit { t, reach: f32::to_bits(2.0) as u64, object })
}

fn key(distance: f32) -> u64 {
    distance.to_bits() as u64
}

#[test]
fn no_objects_no_hit() {
    assert_eq!(Scene::check_hits(&vec![]), None);
}

#[test]
fn all_misses_give_no_hit() {
    assert_eq!(Scene::check_hits(&vec![None, None, None]), None);
}

#[test]
fn single_hit_is_kept() {
    assert_eq!(Scene::check_hits(&vec![None, hit(7, 1), None]), hit(7, 1));
}

#[test]
fn strictly_nearer_hit_replaces_the_held_one() {
    let found = Scene::check_hits(&vec![hit(9, 0), None, hit(4, 2), hit(6, 3)]);
    assert_eq!(found, hit(4, 2));
}

#[test]
fn first_seen_wins_a_tie() {
    let found = Scene::check_hits(&vec![hit(5, 0), hit(3, 1), hit(3, 2), hit(5, 3)]);
    assert_eq!(found, hit(3, 1));
}

#[test]
fn keys_of_positive_distances_order_as_the_distances() {
    let candidates = vec![
        hit(key(2.5), 0),
        hit(key(0.00001), 1),
        hit(key(1.0e9), 2),
        hit(key(f32::INFINITY), 3),
    ];
    assert_eq!(Scene::check_hits(&candidates), hit(key(0.00001), 1));
}

#[test]
fn extreme_keys_are_compared_exactly() {
    let found = Scene::check_hits(&vec![hit(u64::MAX, 0), hit(u64::MAX - 1, 1), hit(0, 2)]);
    assert_eq!(found, hit(0, 2));
}

#[test]
fn unobstructed_light_is_visible() {
    assert_eq!(Scene::trace_ray(&vec![None, None], key(1.0)), None);
    assert_eq!(Scene::trace_ray(&vec![], key(1.0)), None);
}

#[test]
fn occluder_beyond_the_reference_casts_no_shadow() {
    let far = Some(Hit { t: key(3.0), reach: key(5.0), object: 0 });
    assert_eq!(Scene::trace_ray(&vec![far], key(1.0)), None);
}

#[test]
fn occluder_within_the_reference_casts_a_shadow() {
    let near = Some(Hit { t: key(0.4), reach: key(0.5), object: 1 });
    assert_eq!(Scene::trace_ray(&vec![None, near], key(1.0)), near);
}

#[test]
fn occluder_at_the_reference_casts_a_shadow() {
    let at = Some(Hit { t: key(0.4), reach: key(1.0), object: 0 });
    assert_eq!(Scene::trace_ray(&vec![at], key(1.0)), at);
}

#[test]
fn shadow_test_looks_at_the_nearest_occluder_only() {
    let nearest_is_far = Some(Hit { t: key(0.2), reach: key(9.0), object: 0 });
    let later_is_near = Some(Hit { t: key(0.7), reach: key(0.1), object: 1 });
    assert_eq!(Scene::trace_ray(&vec![nearest_is_far, later_is_near], key(1.0)), None);
    assert_eq!(Scene::trace_ray(&vec![later_is_near, nearest_is_far], key(1.0)), None);
}
