use pointprocesses::{thin, Candidate};

fn cand(time: f64, mark: f64, intensity: f64) -> Candidate<f64> {
    Candidate { time, mark, intensity }
}

#[test]
fn thinning_keeps_marks_below_intensity() {
    let cs = vec![
        cand(0.5, 0.2, 1.0),
        cand(1.0, 1.5, 1.0),
        cand(2.0, 0.9, 1.2),
        cand(3.0, 2.0, 2.0),
    ];
    let r = thin(&cs);
    assert_eq!(r, vec![(0.5, 1.0), (2.0, 1.2)]);
}

#[test]
fn thinning_with_constant_intensity_at_its_bound_keeps_all() {
    let c = 3.0;
    let cs: Vec<Candidate<f64>> = (0..10)
        .map(|i| cand(0.5 * i as f64, c * (i as f64) / 10.0, c))
        .collect();
    let r = thin(&cs);
    assert_eq!(r.len(), cs.len());
    for (k, rec) in r.iter().enumerate() {
        assert_eq!(*rec, (cs[k].time, c));
    }
}

#[test]
fn thinning_rejects_negative_and_undefined_intensity() {
    let cs = vec![cand(0.1, 0.0, -1.0), cand(0.2, 0.3, f64::NAN), cand(0.3, 0.0, 0.0)];
    assert!(thin(&cs).is_empty());
}

#[test]
fn thinning_of_no_candidates_is_empty() {
    let cs: Vec<Candidate<f64>> = vec![];
    assert!(thin(&cs).is_empty());
}

#[test]
fn thinning_on_integers() {
    let cs = vec![
        Candidate { time: 1u32, mark: 4, intensity: 5 },
        Candidate { time: 2, mark: 5, intensity: 5 },
        Candidate { time: 3, mark: 0, intensity: 1 },
    ];
    assert_eq!(thin(&cs), vec![(1, 5), (3, 1)]);
}
