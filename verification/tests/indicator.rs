use serverhud::indicator::{indicator_lights, Light, NUM_LIGHTS};

#[test]
fn there_are_four_lights() {
    assert_eq!(NUM_LIGHTS, 4);
}

#[test]
fn nothing_to_report_shows_one_green_light() {
    assert_eq!(indicator_lights(0, 0, 0), [Light::Idle, Light::Off, Light::Off, Light::Off]);
    assert_eq!(indicator_lights(0, 0, 5), [Light::Idle, Light::Off, Light::Off, Light::Off]);
}

#[test]
fn one_error_and_one_warning() {
    assert_eq!(indicator_lights(1, 1, 0), [Light::Error, Light::Warning, Light::Off, Light::Off]);
}

#[test]
fn one_error_and_one_warning_scrolled_by_one() {
    assert_eq!(indicator_lights(1, 1, 1), [Light::Warning, Light::Off, Light::Off, Light::Off]);
}

#[test]
fn errors_come_before_warnings() {
    assert_eq!(
        indicator_lights(2, 3, 0),
        [Light::Error, Light::Error, Light::Warning, Light::Warning]
    );
    assert_eq!(
        indicator_lights(2, 3, 1),
        [Light::Error, Light::Warning, Light::Warning, Light::Warning]
    );
    assert_eq!(
        indicator_lights(2, 3, 3),
        [Light::Warning, Light::Warning, Light::Off, Light::Off]
    );
}

#[test]
fn more_messages_than_lights() {
    assert_eq!(indicator_lights(6, 0, 0), [Light::Error; 4]);
    assert_eq!(indicator_lights(0, 9, 2), [Light::Warning; 4]);
    assert_eq!(
        indicator_lights(6, 1, 4),
        [Light::Error, Light::Error, Light::Warning, Light::Off]
    );
}

#[test]
fn scrolled_past_all_messages_is_dark() {
    assert_eq!(indicator_lights(1, 1, 2), [Light::Off; 4]);
    assert_eq!(indicator_lights(1, 0, usize::MAX), [Light::Off; 4]);
    assert_eq!(indicator_lights(usize::MAX, usize::MAX, usize::MAX), [Light::Warning; 4]);
}

#[test]
fn only_warnings() {
    assert_eq!(indicator_lights(0, 1, 0), [Light::Warning, Light::Off, Light::Off, Light::Off]);
}

#[test]
fn light_levels_are_red_and_green() {
    assert_eq!(Light::Off.levels(), (0, 0));
    assert_eq!(Light::Idle.levels(), (0, 100));
    assert_eq!(Light::Warning.levels(), (100, 100));
    assert_eq!(Light::Error.levels(), (100, 0));
}
