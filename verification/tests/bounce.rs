use raytracer::bounce::Contribution;
use raytracer::bounce::Path;
use raytracer::bounce::Probe;
use raytracer::bounce::Step;
use raytracer::hit::Hit;

fn surface(object: usize) -> Hit {
    Hit { t: 10 + object as u64, reach: 20, object }
}

#[test]
fn classify_miss_ignores_the_occluder() {
    assert_eq!(Probe::classify(None, None), Probe::Miss);
    assert_eq!(Probe::classify(None, Some(surface(1))), Probe::Miss);
}

#[test]
fn classify_hit_by_visibility() {
    assert_eq!(Probe::classify(Some(surface(0)), None), Probe::Lit(surface(0)));
    assert_eq!(Probe::classify(Some(surface(0)), Some(surface(1))), Probe::Shadowed(surface(0)));
}

#[test]
fn fresh_path_runs_unless_depth_is_zero() {
    let p = Path::new(3);
    assert_eq!(p, Path { depth: 3, bounces: 0, missed: false });
    assert!(p.is_running());
    assert!(!Path::new(0).is_running());
}

#[test]
fn path_of_depth_zero_takes_no_probe() {
    let mut p = Path::new(0);
    assert_eq!(p.step(Probe::Miss), None);
    assert_eq!(p.step(Probe::Lit(surface(0))), None);
    assert_eq!(p, Path { depth: 0, bounces: 0, missed: false });
}

#[test]
fn miss_contributes_background_and_ends_the_path() {
    let mut p = Path::new(3);
    let step = p.step(Probe::Miss);
    assert_eq!(step, Some(Step { contribution: Contribution::Background, advance: None }));
    assert!(!p.is_running());
    assert_eq!(p, Path { depth: 3, bounces: 0, missed: true });
    assert_eq!(p.step(Probe::Lit(surface(0))), None);
    assert_eq!(p, Path { depth: 3, bounces: 0, missed: true });
}

#[test]
fn lit_hit_contributes_shaded_colour_and_advances() {
    let mut p = Path::new(3);
    let step = p.step(Probe::Lit(surface(2)));
    assert_eq!(
        step,
        Some(Step { contribution: Contribution::Shaded, advance: Some(surface(2)) })
    );
    assert_eq!(p, Path { depth: 3, bounces: 1, missed: false });
    assert!(p.is_running());
}

#[test]
fn shadowed_hit_contributes_black_and_advances() {
    let mut p = Path::new(3);
    let step = p.step(Probe::Shadowed(surface(1)));
    assert_eq!(
        step,
        Some(Step { contribution: Contribution::Black, advance: Some(surface(1)) })
    );
    assert_eq!(p, Path { depth: 3, bounces: 1, missed: false });
}

#[test]
fn path_ends_at_the_depth_bound() {
    let mut p = Path::new(3);
    assert!(p.step(Probe::Lit(surface(0))).is_some());
    assert!(p.step(Probe::Shadowed(surface(1))).is_some());
    assert!(p.is_running());
    assert!(p.step(Probe::Lit(surface(2))).is_some());
    assert!(!p.is_running());
    assert_eq!(p, Path { depth: 3, bounces: 3, missed: false });
    assert_eq!(p.step(Probe::Lit(surface(0))), None);
    assert_eq!(p.step(Probe::Miss), None);
    assert_eq!(p, Path { depth: 3, bounces: 3, missed: false });
}

#[test]
fn miss_after_a_bounce_ends_the_path_early() {
    let mut p = Path::new(5);
    assert!(p.step(Probe::Lit(surface(0))).is_some());
    let step = p.step(Probe::Miss);
    assert_eq!(step, Some(Step { contribution: Contribution::Background, advance: None }));
    assert_eq!(p, Path { depth: 5, bounces: 1, missed: true });
    assert!(!p.is_running());
}

#[test]
fn a_path_takes_at_most_depth_probes() {
    let mut depth = 0;
    while depth < 6 {
        let mut p = Path::new(depth);
        let mut taken = 0;
        let mut i = 0;
        while i < 20 {
            if p.step(Probe::Lit(surface(i))).is_some() {
                taken += 1;
            }
            i += 1;
        }
        assert_eq!(taken, depth);
        assert_eq!(p.bounces, depth);
        depth += 1;
    }
}
