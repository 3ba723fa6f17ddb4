use pimostat::actor::{file_digit, relay_level};

#[test]
fn relay_is_active_low() {
    assert_eq!(relay_level(true), 0);
    assert_eq!(relay_level(false), 1);
}

#[test]
fn file_digit_is_one_for_on() {
    assert_eq!(file_digit(true), 1);
    assert_eq!(file_digit(false), 0);
}

#[test]
fn file_digits_of_a_run_of_states() {
    let states = [true, false, true, false, false, true];
    let written: String = states.iter().map(|&s| file_digit(s).to_string()).collect();
    assert_eq!(written, "101001");
    let written: String = [true, false].iter().map(|&s| file_digit(s).to_string()).collect();
    assert_eq!(written, "10");
}
