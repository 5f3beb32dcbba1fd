use cve_reconcile::score::{magnitude_of, Score};

fn score(value: f32) -> Score {
    Score::new(value.to_bits(), value.to_string())
}

#[test]
fn differs_agrees_with_float_inequality() {
    let samples: [f32; 14] = [
        0.0,
        -0.0,
        1.0,
        -1.0,
        7.0,
        7.5,
        9.8,
        9.1,
        9.800001,
        10.0,
        f32::INFINITY,
        f32::NEG_INFINITY,
        f32::NAN,
        f32::MIN_POSITIVE,
    ];
    for a in samples {
        for b in samples {
            assert_eq!(score(a).differs(&score(b)), a != b, "{a} against {b}");
        }
    }
}

#[test]
fn equal_scores_do_not_differ() {
    assert!(!score(9.8).differs(&score(9.8)));
}

#[test]
fn near_equal_scores_differ() {
    let a = 9.8f32;
    let b = f32::from_bits(a.to_bits() + 1);
    assert!(score(a).differs(&score(b)));
}

#[test]
fn the_two_zeros_are_one_number() {
    assert!(!score(0.0).differs(&score(-0.0)));
    assert!(!score(-0.0).differs(&score(0.0)));
}

#[test]
fn nan_differs_from_itself() {
    let nan = score(f32::NAN);
    assert!(nan.is_nan());
    assert!(nan.differs(&score(f32::NAN)));
    assert!(nan.differs(&score(1.0)));
    assert!(score(1.0).differs(&nan));
}

#[test]
fn infinity_is_a_number() {
    assert!(!score(f32::INFINITY).is_nan());
    assert!(!score(f32::INFINITY).differs(&score(f32::INFINITY)));
    assert!(score(f32::INFINITY).differs(&score(f32::NEG_INFINITY)));
}

#[test]
fn magnitude_clears_the_sign() {
    assert_eq!(magnitude_of((-7.5f32).to_bits()), 7.5f32.to_bits());
    assert_eq!(magnitude_of(7.5f32.to_bits()), 7.5f32.to_bits());
    assert_eq!(magnitude_of(0x8000_0000), 0);
}

#[test]
fn render_gives_the_text() {
    assert_eq!(score(9.8).render(), "9.8");
    assert_eq!(score(7.0).render(), "7");
    assert_eq!(Score::new(0, "anything".to_string()).render(), "anything");
}

#[test]
fn clone_keeps_both_parts() {
    let s = score(4.3).clone();
    assert_eq!(s.bits, 4.3f32.to_bits());
    assert_eq!(s.text, "4.3");
}
