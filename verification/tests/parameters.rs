use compressor_core::parameters::CompressorEffectParameters;
use compressor_core::parameters::declared_ranges;
use compressor_core::parameters::ParameterRange;
use compressor_core::parameters::Unit;
use compressor_core::parameters::PARAMETER_COUNT;

fn named() -> CompressorEffectParameters<&'static str> {
    CompressorEffectParameters {
        threshold: "Threshold",
        knee: "Knee",
        pre_smooth: "PreSmooth",
        rms: "RMS",
        ratio: "Ratio",
        attack: "Attack",
        release: "Release",
        gain: "Gain",
    }
}

#[test]
fn controls_are_numbered_in_order() {
    let parameters = named();
    assert_eq!(parameters[0], "Threshold");
    assert_eq!(parameters[1], "Knee");
    assert_eq!(parameters[2], "PreSmooth");
    assert_eq!(parameters[3], "RMS");
    assert_eq!(parameters[4], "Ratio");
    assert_eq!(parameters[5], "Attack");
    assert_eq!(parameters[6], "Release");
    assert_eq!(parameters[7], "Gain");
}

#[test]
fn numbers_past_the_last_control_stand_for_the_gain() {
    let parameters = named();
    assert_eq!(parameters[8], "Gain");
    assert_eq!(parameters[9], "Gain");
    assert_eq!(parameters[usize::MAX], "Gain");
}

#[test]
fn there_are_eight_controls() {
    let parameters = named();
    assert_eq!(parameters.len(), 8);
    assert_eq!(PARAMETER_COUNT, 8);
}

#[test]
fn every_number_below_the_count_has_its_own_control() {
    let parameters = CompressorEffectParameters {
        threshold: 0u8,
        knee: 1,
        pre_smooth: 2,
        rms: 3,
        ratio: 4,
        attack: 5,
        release: 6,
        gain: 7,
    };
    for i in 0..parameters.len() {
        assert_eq!(parameters[i] as usize, i);
    }
}

#[test]
fn declared_ranges_of_the_controls() {
    let ranges = declared_ranges();
    let expected = [
        (-80, 12, 0, Unit::Decibels),
        (0, 48, 0, Unit::Decibels),
        (1, 300, 5, Unit::Milliseconds),
        (0, 100, 5, Unit::Milliseconds),
        (1, 20, 4, Unit::Ratio),
        (0, 300, 1, Unit::Milliseconds),
        (0, 1000, 100, Unit::Milliseconds),
        (-24, 24, 0, Unit::Decibels),
    ];
    for (i, (min, max, default, unit)) in expected.iter().enumerate() {
        assert_eq!(
            ranges[i],
            ParameterRange { min: *min, max: *max, default: *default, unit: *unit }
        );
    }
}

#[test]
fn every_control_rests_within_its_range() {
    let ranges = declared_ranges();
    for i in 0..ranges.len() {
        assert!(ranges[i].min <= ranges[i].default);
        assert!(ranges[i].default <= ranges[i].max);
    }
}
