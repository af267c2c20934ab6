use mihomo::text::{digit_text, ends_with, push_decimal, push_decimal_nat, same_text};

fn written(n: i64) -> String {
    let mut out = String::new();
    push_decimal(&mut out, n);
    out
}

#[test]
fn same_text_compares_characters() {
    assert!(same_text("", ""));
    assert!(same_text("crit_rate", "crit_rate"));
    assert!(!same_text("crit_rate", "crit_dmg"));
    assert!(!same_text("crit", "crit_rate"));
    assert!(!same_text("crit_rate", "crit"));
    assert!(same_text("攻撃力", "攻撃力"));
    assert!(!same_text("攻撃力", "防御力"));
    assert!(!same_text("é", "e"));
}

#[test]
fn ends_with_finds_a_suffix() {
    assert!(ends_with("fire_dmg", "_dmg"));
    assert!(ends_with("all_dmg", "_dmg"));
    assert!(ends_with("_dmg", "_dmg"));
    assert!(!ends_with("dmg", "_dmg"));
    assert!(!ends_with("fire_dmg_", "_dmg"));
    assert!(!ends_with("crit_rate", "_dmg"));
    assert!(!ends_with("", "_dmg"));
    assert!(ends_with("", ""));
    assert!(ends_with("abc", ""));
    assert!(ends_with("火_dmg", "_dmg"));
    assert!(ends_with("攻撃力", "力"));
    assert!(!ends_with("攻撃力", "攻"));
}

#[test]
fn ends_with_does_not_cut_a_character() {
    // The last byte of the two-byte letter is the one byte of no character.
    let letter = "é";
    assert_eq!(letter.as_bytes().len(), 2);
    assert!(!ends_with("né", "e"));
    assert!(ends_with("né", "é"));
}

#[test]
fn digit_text_writes_each_digit() {
    let all = ["0", "1", "2", "3", "4", "5", "6", "7", "8", "9"];
    for d in 0..10u64 {
        assert_eq!(digit_text(d), all[d as usize]);
    }
}

#[test]
fn push_decimal_nat_appends() {
    let mut out = String::from("n=");
    push_decimal_nat(&mut out, 0);
    assert_eq!(out, "n=0");
    push_decimal_nat(&mut out, 1203);
    assert_eq!(out, "n=01203");
    let mut big = String::new();
    push_decimal_nat(&mut big, u64::MAX);
    assert_eq!(big, "18446744073709551615");
}

#[test]
fn push_decimal_writes_the_sign() {
    assert_eq!(written(0), "0");
    assert_eq!(written(7), "7");
    assert_eq!(written(-7), "-7");
    assert_eq!(written(150), "150");
    assert_eq!(written(-1000), "-1000");
    assert_eq!(written(i64::MAX), "9223372036854775807");
    assert_eq!(written(i64::MIN), "-9223372036854775808");
}

#[test]
fn push_decimal_agrees_with_the_standard_library() {
    let mut n: i64 = -5000;
    while n <= 5000 {
        assert_eq!(written(n), n.to_string());
        n += 1;
    }
}
