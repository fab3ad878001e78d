use binbreak::bits::{two_pow, Bits};
use binbreak::puzzle::BinaryNumbersPuzzle;

#[test]
fn offsets_pick_from_the_shuffled_pool() {
    // step 0 swaps places 0 and 5, step 1 keeps place 1, step 2 swaps places 2 and 5
    let offsets = vec![5, 0, 3];
    assert_eq!(BinaryNumbersPuzzle::values_from_offsets(Bits::Four, &offsets), vec![5, 1, 0]);
    assert_eq!(BinaryNumbersPuzzle::values_from_offsets(Bits::FourShift4, &offsets), vec![80, 16, 0]);
    let wide = vec![65535, 0, 65533, 7];
    assert_eq!(
        BinaryNumbersPuzzle::values_from_offsets(Bits::Sixteen, &wide),
        vec![65535, 1, 0, 10]
    );
}

#[test]
fn deal_from_puts_the_first_draw_as_answer_in_the_given_order() {
    let offsets = vec![5, 0, 3];
    let order = vec![0, 80, 16];
    let p = BinaryNumbersPuzzle::deal_from(Bits::FourShift4, 2, &offsets, &order);
    assert_eq!(p.current_number, 80);
    assert_eq!(p.raw_current_number, 5);
    assert_eq!(p.suggestions, vec![0, 80, 16]);
    assert_eq!(p.selected_suggestion, Some(0));
    assert_eq!(p.time_total, 7000);
    assert_eq!(p.time_left, 7000);
    assert!(p.skip_first_dt);
    assert_eq!(p.guess_result, None);
    assert_eq!(p.current_to_binary_string(), "0101");
}

#[test]
fn powers_of_two_up_to_the_top_bit() {
    assert_eq!(two_pow(0), 1);
    assert_eq!(two_pow(12), 4096);
    assert_eq!(two_pow(31), 0x8000_0000);
}
