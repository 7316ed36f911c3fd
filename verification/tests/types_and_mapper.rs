use fractal_synaesthesia::audio::analyzer::FeatureType;
use fractal_synaesthesia::rendering::video::audio_mapper::{
    remove_action, ContinuousSampleWindowType, IntensityEmphasis, LayerActionKind, MapperKind,
};
use fractal_synaesthesia::types::complex::{
    factorial_fits_u32, factorial_u32, imaginary_unit_power, n_choose_r, UnitPower,
};

#[test]
fn factorials() {
    assert_eq!(factorial_u32(0), 1);
    assert_eq!(factorial_u32(1), 1);
    assert_eq!(factorial_u32(5), 120);
    assert_eq!(factorial_u32(12), 479001600);
    assert!(factorial_fits_u32(12));
    assert!(!factorial_fits_u32(13));
    assert!(!factorial_fits_u32(u32::MAX));
}

#[test]
fn binomials() {
    assert_eq!(n_choose_r(3, 0), 1);
    assert_eq!(n_choose_r(3, 1), 3);
    assert_eq!(n_choose_r(3, 2), 3);
    assert_eq!(n_choose_r(3, 3), 1);
    assert_eq!(n_choose_r(10, 4), 210);
    assert_eq!(n_choose_r(12, 6), 924);
    // edges need no factorial: large n works
    assert_eq!(n_choose_r(1000, 1), 1000);
    assert_eq!(n_choose_r(1000, 999), 1000);
    assert_eq!(n_choose_r(1000, 1000), 1);
}

#[test]
fn binomials_are_symmetric_and_pascal() {
    for n in 1..=12u32 {
        for r in 0..=n {
            assert_eq!(n_choose_r(n, r), n_choose_r(n, n - r));
            if r >= 1 && r < n {
                assert_eq!(n_choose_r(n, r), n_choose_r(n - 1, r - 1) + n_choose_r(n - 1, r));
            }
        }
    }
}

#[test]
fn powers_of_i() {
    assert_eq!(imaginary_unit_power(0), UnitPower::PlusReal);
    assert_eq!(imaginary_unit_power(1), UnitPower::PlusImaginary);
    assert_eq!(imaginary_unit_power(2), UnitPower::MinusReal);
    assert_eq!(imaginary_unit_power(3), UnitPower::MinusImaginary);
    assert_eq!(imaginary_unit_power(4), UnitPower::PlusReal);
    assert_eq!(imaginary_unit_power(4_000_000_003), UnitPower::MinusImaginary);
}

#[test]
fn cube_of_two_minus_five_i() {
    // (2 - 5i)^3 by the binomial expansion: the real part times i^k per term
    let (re, im) = (2i64, -5i64);
    let n = 3u32;
    let (mut out_re, mut out_im) = (0i64, 0i64);
    for i in 0..=n {
        let k = n - i;
        let c = n_choose_r(n, i) as i64 * im.pow(k) * re.pow(i);
        match imaginary_unit_power(k) {
            UnitPower::PlusReal => out_re += c,
            UnitPower::PlusImaginary => out_im += c,
            UnitPower::MinusReal => out_re -= c,
            UnitPower::MinusImaginary => out_im -= c,
        }
    }
    assert_eq!((out_re, out_im), (-142, 65));
}

#[test]
fn emphasis_equality_ignores_exponent() {
    assert!(IntensityEmphasis::High(1) == IntensityEmphasis::High(7));
    assert!(IntensityEmphasis::Low(2) == IntensityEmphasis::Low(3));
    assert!(IntensityEmphasis::Equal == IntensityEmphasis::Equal);
    assert!(IntensityEmphasis::High(1) != IntensityEmphasis::Low(1));
    assert!(IntensityEmphasis::Equal != IntensityEmphasis::High(0));
}

#[test]
fn emphasis_labels() {
    let v = IntensityEmphasis::get_variants();
    assert_eq!(v.len(), 3);
    assert!(matches!(v[1], IntensityEmphasis::High(1)));
    assert!(matches!(v[2], IntensityEmphasis::Low(1)));
    assert_eq!(IntensityEmphasis::High(9).get_text(), "Highs");
    assert_eq!(
        IntensityEmphasis::Equal.get_tooltip(),
        Some("Intensity has a linear effect on the mapping".to_string())
    );
}

#[test]
fn window_type_labels() {
    assert_eq!(ContinuousSampleWindowType::get_variants().len(), 3);
    assert_eq!(ContinuousSampleWindowType::Centered.get_text(), "Centered");
    assert_eq!(
        ContinuousSampleWindowType::Right.get_tooltip(),
        Some("Use samples to the right of the timestamp".to_string())
    );
}

#[test]
fn only_zoom_and_rotation_rebuild_timelines() {
    for kind in LayerActionKind::get_variants() {
        let expected = kind == LayerActionKind::AddZoomSpeed || kind == LayerActionKind::Rotate;
        assert_eq!(kind.timeline_needs_recompute(), expected);
    }
    assert_eq!(LayerActionKind::Flash.get_text(), "Flash Colour");
    assert_eq!(
        LayerActionKind::Rotate.get_tooltip(),
        Some("Rotate the video by this amount (in degrees) at maximum intensity".to_string())
    );
}

#[test]
fn mapper_features() {
    assert_eq!(MapperKind::OnBeat.sampled_feature(), None);
    assert_eq!(MapperKind::TrebleEnergy.sampled_feature(), Some(FeatureType::HighEnergy));
    assert_eq!(MapperKind::Pitch.sampled_feature(), Some(FeatureType::Pitch));
    let kinds = MapperKind::get_variants();
    assert_eq!(kinds.len(), 11);
    for (i, a) in kinds.iter().enumerate() {
        for b in kinds.iter().skip(i + 1) {
            if a.sampled_feature().is_some() {
                assert_ne!(a.sampled_feature(), b.sampled_feature());
            }
        }
    }
    assert_eq!(MapperKind::BassEnergy.get_text(), "Bass Energy");
}

#[test]
fn remove_action_in_and_out_of_range() {
    let mut actions = vec![10, 20, 30];
    assert_eq!(remove_action(&mut actions, 1), Some(20));
    assert_eq!(actions, vec![10, 30]);
    assert_eq!(remove_action(&mut actions, 2), None);
    assert_eq!(actions, vec![10, 30]);
}
