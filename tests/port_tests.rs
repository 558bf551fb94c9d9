use boopsynth::port::{parse_port, parse_usize};

#[test]
fn port_without_channel_is_channel_zero() {
    assert_eq!(parse_port("osc"), Some(("osc".to_string(), 0)));
}

#[test]
fn port_with_channel() {
    assert_eq!(parse_port("mix:1"), Some(("mix".to_string(), 1)));
    assert_eq!(parse_port("mix:+12"), Some(("mix".to_string(), 12)));
}

#[test]
fn port_with_bad_channel_is_rejected() {
    assert_eq!(parse_port("mix:x"), None);
    assert_eq!(parse_port("mix:"), None);
    assert_eq!(parse_port("mix:1:2"), None);
    assert_eq!(parse_port("mix:-1"), None);
}

#[test]
fn usize_text_limits() {
    assert_eq!(parse_usize("18446744073709551615"), Some(usize::MAX));
    assert_eq!(parse_usize("18446744073709551616"), None);
    assert_eq!(parse_usize("+"), None);
    assert_eq!(parse_usize(""), None);
    assert_eq!(parse_usize("007"), Some(7));
}
