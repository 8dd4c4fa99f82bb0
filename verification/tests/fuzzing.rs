use loretta::fuzzing::{fuzz_buffer, hex, next_state};

#[test]
fn generator_steps_by_xorshift() {
    assert_eq!(next_state(1), 1082269761);
    assert_eq!(next_state(1082269761), 1152992998833853505);
    assert_eq!(next_state(0), 0);
}

#[test]
fn inputs_are_drawn_from_the_state() {
    let buf = fuzz_buffer(1082269761);
    assert_eq!(buf.len(), 66);
    assert_eq!(&buf[..6], &[200, 242, 99, 37, 134, 254]);
    assert_eq!(fuzz_buffer(0).len(), 1);
    assert_eq!(fuzz_buffer(511).len(), 512);
    assert_eq!(fuzz_buffer(512).len(), 1);
    assert_eq!(fuzz_buffer(1082269761), buf);
}

#[test]
fn hex_writes_two_lowercase_digits_per_byte() {
    assert_eq!(hex(&[]), "");
    assert_eq!(hex(&[0x00, 0xab, 0x10, 0xff]), "00ab10ff");
    assert_eq!(hex(&[7]), "07");
}
