use easer::functions::{
    Back, Bounce, Circ, Cubic, Easing, Elastic, Expo, Linear, Quad, Quart, Quint, Sine,
};
use hyprzoom::{ease_range, parse_ease, Ease, EaseFamily, EaseMode};

type EaseFn = fn(f64, f64, f64, f64) -> f64;

fn pick<E: Easing<f64>>(mode: EaseMode) -> EaseFn {
    match mode {
        EaseMode::In => E::ease_in,
        EaseMode::Out => E::ease_out,
        EaseMode::InOut => E::ease_in_out,
    }
}

fn curve(e: Ease) -> EaseFn {
    match e.family {
        EaseFamily::Linear => pick::<Linear>(e.mode),
        EaseFamily::Quad => pick::<Quad>(e.mode),
        EaseFamily::Cubic => pick::<Cubic>(e.mode),
        EaseFamily::Quart => pick::<Quart>(e.mode),
        EaseFamily::Quint => pick::<Quint>(e.mode),
        EaseFamily::Expo => pick::<Expo>(e.mode),
        EaseFamily::Sine => pick::<Sine>(e.mode),
        EaseFamily::Circ => pick::<Circ>(e.mode),
        EaseFamily::Back => pick::<Back>(e.mode),
        EaseFamily::Elastic => pick::<Elastic>(e.mode),
        EaseFamily::Bounce => pick::<Bounce>(e.mode),
    }
}

fn expand(start: f64, end: f64, steps: usize, e: Ease) -> Vec<f64> {
    let f = curve(e);
    ease_range(start, steps, |i: usize, total: usize| {
        f(i as f64, start, end - start, total as f64)
    })
}

const FAMILIES: [EaseFamily; 11] = [
    EaseFamily::Linear,
    EaseFamily::Quad,
    EaseFamily::Cubic,
    EaseFamily::Quart,
    EaseFamily::Quint,
    EaseFamily::Expo,
    EaseFamily::Sine,
    EaseFamily::Circ,
    EaseFamily::Back,
    EaseFamily::Elastic,
    EaseFamily::Bounce,
];
const MODES: [EaseMode; 3] = [EaseMode::In, EaseMode::Out, EaseMode::InOut];

fn all_curves() -> Vec<Ease> {
    let mut v = Vec::new();
    for family in FAMILIES {
        for mode in MODES {
            v.push(Ease { family, mode });
        }
    }
    v
}

fn non_overshooting() -> Vec<Ease> {
    all_curves()
        .into_iter()
        .filter(|e| {
            !matches!(
                e.family,
                EaseFamily::Back | EaseFamily::Elastic | EaseFamily::Bounce
            )
        })
        .collect()
}

fn close(a: f64, b: f64) -> bool {
    (a - b).abs() < 1e-9
}

#[test]
fn linear_in_five_steps() {
    let e = parse_ease("linear:in").unwrap();
    assert_eq!(expand(1.0, 2.0, 5, e), vec![1.0, 1.25, 1.5, 1.75, 2.0]);
}

#[test]
fn zero_delta_is_constant_for_every_curve() {
    for e in all_curves() {
        let r = expand(0.5, 0.5, 3, e);
        assert_eq!(r.len(), 3);
        for v in r {
            assert!(close(v, 0.5), "{:?}: {}", e, v);
        }
    }
}

#[test]
fn no_steps_gives_nothing() {
    for e in all_curves() {
        assert!(expand(1.0, 3.0, 0, e).is_empty());
        assert!(expand(-2.0, 7.5, 0, e).is_empty());
    }
}

#[test]
fn one_step_gives_start() {
    for e in all_curves() {
        assert_eq!(expand(1.0, 3.0, 1, e), vec![1.0]);
        assert_eq!(expand(4.5, -1.0, 1, e), vec![4.5]);
    }
}

#[test]
fn one_step_never_calls_curve() {
    let r: Vec<u32> = ease_range(7, 1, |_i: usize, _t: usize| -> u32 { panic!("called") });
    assert_eq!(r, vec![7]);
}

#[test]
fn samples_cover_zero_to_last() {
    let r: Vec<(usize, usize)> = ease_range((99, 99), 4, |i: usize, t: usize| (i, t));
    assert_eq!(r, vec![(0, 3), (1, 3), (2, 3), (3, 3)]);
}

#[test]
fn length_and_ends_for_non_overshooting_curves() {
    for e in non_overshooting() {
        for n in [2usize, 3, 7, 15, 100] {
            let r = expand(1.0, 2.5, n, e);
            assert_eq!(r.len(), n);
            assert!(close(r[0], 1.0), "{:?} first {}", e, r[0]);
            assert!(close(r[n - 1], 2.5), "{:?} last {}", e, r[n - 1]);
        }
    }
}

#[test]
fn curves_hit_both_boundaries() {
    for e in non_overshooting() {
        let f = curve(e);
        for total in [1.0, 4.0, 14.0, 0.25] {
            assert!(close(f(0.0, 3.0, -1.5, total), 3.0), "{:?}", e);
            assert!(close(f(total, 3.0, -1.5, total), 1.5), "{:?}", e);
        }
    }
}

#[test]
fn quad_in_out_default_descriptors() {
    let zin = expand(1.0, 2.0, 15, parse_ease("quad:in").unwrap());
    let zout = expand(2.0, 1.0, 15, parse_ease("quad:out").unwrap());
    assert_eq!(zin.len(), 15);
    assert_eq!(zout.len(), 15);
    assert!(close(zin[0], 1.0) && close(zin[14], 2.0));
    assert!(close(zout[0], 2.0) && close(zout[14], 1.0));
    // quad:in accelerates: it is below the straight line between the ends
    assert!(zin[7] < 1.5);
}
