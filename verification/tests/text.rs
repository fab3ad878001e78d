use binbreak::text::{grouped_binary, push_decimal, push_repeated};

#[test]
fn binary_groups() {
    assert_eq!(grouped_binary(0, 4), "0000");
    assert_eq!(grouped_binary(0, 0), "0");
    assert_eq!(grouped_binary(5, 1), "101");
    assert_eq!(grouped_binary(1, 12), "0000 0000 0001");
    assert_eq!(grouped_binary(u32::MAX, 16), "1111 1111 1111 1111 1111 1111 1111 1111");
    assert_eq!(grouped_binary(3, 8), "0000 0011");
}

#[test]
fn decimal_and_repeats() {
    let mut s = String::from("x");
    push_decimal(&mut s, 0);
    push_decimal(&mut s, 4096);
    push_decimal(&mut s, u32::MAX);
    assert_eq!(s, "x040964294967295");
    let mut h = String::new();
    push_repeated(&mut h, '♥', 2);
    push_repeated(&mut h, '·', 0);
    assert_eq!(h, "♥♥");
}
