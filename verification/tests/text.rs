use hyprsession::text::{join, push_decimal, push_decimal_unsigned};

#[test]
fn signed_numbers_are_written_in_base_ten() {
    for n in [0i128, 7, -7, 10, -10, 1234567890, i128::MAX, i128::MIN] {
        let mut text = "n=".to_string();
        push_decimal(&mut text, n);
        assert_eq!(text, format!("n={}", n));
    }
}

#[test]
fn unsigned_numbers_are_written_in_base_ten() {
    for n in [0u128, 9, 10, 99, 100, u128::MAX] {
        let mut text = String::new();
        push_decimal_unsigned(&mut text, n);
        assert_eq!(text, n.to_string());
        assert_eq!(text.parse::<u128>().unwrap(), n);
    }
}

#[test]
fn parts_are_joined_with_the_separator_between() {
    let parts: Vec<String> = ["a", "", "c"].iter().map(|p| p.to_string()).collect();
    assert_eq!(join(&parts, ";"), "a;;c");
    assert_eq!(join(&Vec::new(), ";"), "");
    assert_eq!(join(&vec!["only".to_string()], ";"), "only");
}
