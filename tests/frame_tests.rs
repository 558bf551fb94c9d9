use boopsynth::frame::write_frame;

#[test]
fn frame_alternates_left_and_right() {
    let mut buf = [0i16; 5];
    write_frame(&mut buf, 3, -4);
    assert_eq!(buf, [3, -4, 3, -4, 3]);
}

#[test]
fn mono_frame_gets_left() {
    let mut buf = [0.0f32; 1];
    write_frame(&mut buf, 0.5, 0.25);
    assert_eq!(buf, [0.5]);
}
