use mihomo::binary64::Binary64;
use mihomo::character::{
    AttributeData, AttributeLike, MainAffixData, PropertyData, SubAffixData,
};
use mihomo::util::attr::{
    comb_attr_list_stats, comb_attr_stats, combine_attr_fields, search_attr_field,
};
use mihomo::util::prop::{
    comb_prop_list_stats, comb_prop_stats, combine_prop_fields, search_prop_field,
};
use mihomo::util::{combine_fields, find_by_field, merge_field, merge_stats};

fn number(value: f64) -> Binary64 {
    Binary64::from_bits(value.to_bits())
}

fn attr(field: &str, value: f64, display: &str, is_percent: bool) -> AttributeData {
    AttributeData {
        field: field.to_string(),
        name: format!("name of {}", field),
        icon: format!("icon/{}.png", field),
        value: number(value),
        display: display.to_string(),
        is_percent,
    }
}

fn prop(tag: &str, field: &str, value: f64, display: &str, is_percent: bool) -> PropertyData {
    PropertyData {
        type_tag: tag.to_string(),
        field: field.to_string(),
        name: format!("name of {}", field),
        icon: format!("icon/{}.png", field),
        value: number(value),
        display: display.to_string(),
        is_percent,
    }
}

fn percent(value: f64) -> AttributeData {
    attr("x", value, "shown", true)
}

fn flat(value: f64) -> AttributeData {
    attr("x", value, "shown", false)
}

#[test]
fn percent_pair_adds_tenths() {
    let a = attr("crit_rate", 0.056, "5.6%", true);
    let b = attr("crit_rate", 0.021, "2.1%", true);
    assert_eq!(comb_attr_stats(&a, &b), "7.7%");
    assert_eq!(merge_stats(&a, &b), "7.7%");
}

#[test]
fn flat_pair_adds_whole_parts() {
    let a = attr("atk", 120.7, "120", false);
    let b = attr("atk", 30.9, "30", false);
    assert_eq!(comb_attr_stats(&a, &b), "150");
    assert_eq!(merge_stats(&a, &b), "150");
}

#[test]
fn percent_rounds_and_flat_truncates() {
    assert_eq!(merge_stats(&percent(0.0566), &percent(0.0)), "5.7%");
    assert_eq!(merge_stats(&flat(56.6), &flat(0.0)), "56");
    assert_eq!(merge_stats(&percent(0.0564), &percent(0.0216)), "7.8%");
    assert_eq!(merge_stats(&flat(0.9), &flat(0.9)), "0");
}

#[test]
fn mismatched_pair_shows_both_texts() {
    let a = attr("atk", 0.056, "5.6%", true);
    let b = attr("atk", 120.7, "120", false);
    assert_eq!(comb_attr_stats(&a, &b), "5.6% + 120");
    assert_eq!(comb_attr_stats(&b, &a), "120 + 5.6%");
    let odd = attr("atk", 1.0, "not a number", false);
    assert_eq!(merge_stats(&a, &odd), "5.6% + not a number");
}

#[test]
fn merging_commutes_for_pairs_of_a_kind() {
    let values = [0.0, 0.056, 0.021, -0.3, 120.7, 30.9, 2147483648.0, -0.0005, 1e-9];
    for x in values {
        for y in values {
            assert_eq!(
                merge_stats(&percent(x), &percent(y)),
                merge_stats(&percent(y), &percent(x))
            );
            assert_eq!(merge_stats(&flat(x), &flat(y)), merge_stats(&flat(y), &flat(x)));
        }
    }
}

#[test]
fn percent_sum_has_one_decimal_place() {
    assert_eq!(merge_stats(&percent(0.0), &percent(0.0)), "0.0%");
    assert_eq!(merge_stats(&percent(0.001), &percent(0.0)), "0.1%");
    assert_eq!(merge_stats(&percent(0.05), &percent(0.05)), "10.0%");
    assert_eq!(merge_stats(&percent(0.10), &percent(0.05)), "15.0%");
    assert_eq!(merge_stats(&percent(1.0), &percent(0.2345)), "123.5%");
    assert_eq!(merge_stats(&percent(0.082), &percent(0.0)), "8.2%");
}

#[test]
fn negative_sums_carry_a_sign() {
    assert_eq!(merge_stats(&percent(-0.056), &percent(0.021)), "-3.5%");
    assert_eq!(merge_stats(&percent(-0.0005), &percent(0.0)), "-0.1%");
    assert_eq!(merge_stats(&percent(-0.1), &percent(0.1)), "0.0%");
    assert_eq!(merge_stats(&flat(-120.7), &flat(30.9)), "-90");
    assert_eq!(merge_stats(&flat(-0.5), &flat(0.2)), "0");
}

#[test]
fn sums_beyond_an_i32_are_exact() {
    let big = 3000000000.0;
    assert_eq!(merge_stats(&flat(big), &flat(big)), "4294967294");
    assert_eq!(merge_stats(&flat(-big), &flat(-big)), "-4294967296");
    assert_eq!(merge_stats(&percent(big), &percent(big)), "429496729.4%");
    assert_eq!(merge_stats(&percent(-big), &percent(-big)), "-429496729.6%");
    assert_eq!(merge_stats(&flat(big), &flat(-big)), "-1");
}

#[test]
fn numbers_that_are_none_count_as_zero() {
    assert_eq!(merge_stats(&flat(f64::NAN), &flat(12.5)), "12");
    assert_eq!(merge_stats(&percent(f64::NAN), &percent(0.125)), "12.5%");
}

#[test]
fn percent_text_agrees_with_the_standard_library() {
    let mut k: i32 = -2500;
    while k <= 2500 {
        let a = percent(k as f64 / 1000.0);
        let b = percent(0.25);
        let sum = (k as f64 / 1000.0 * 1000.0).round() as i32 + 250;
        assert_eq!(merge_stats(&a, &b), format!("{:.1}%", sum as f64 / 10.0));
        k += 1;
    }
}

#[test]
fn flat_text_agrees_with_the_standard_library() {
    let mut k: i32 = -2500;
    while k <= 2500 {
        let x = k as f64 / 7.0;
        let sum = (x as i32 + 250) as f64;
        assert_eq!(merge_stats(&flat(x), &flat(250.9)), sum.to_string());
        k += 1;
    }
}

#[test]
fn any_two_statistics_merge() {
    let a = attr("hp", 10.0, "10", false);
    let b = prop("HPDelta", "hp", 5.5, "5", false);
    let main = MainAffixData { property: prop("HPDelta", "hp", 7.9, "7", false) };
    let sub = SubAffixData { property: prop("HPDelta", "hp", 2.0, "2", false), count: 1, step: 2 };
    assert_eq!(merge_stats(&a, &b), "15");
    assert_eq!(merge_stats(&main, &sub), "9");
    assert_eq!(comb_prop_stats(&b, &main.property), "12");
    assert_eq!(main.field(), "hp");
    assert_eq!(sub.display(), "2");
    assert_eq!(sub.name(), "name of hp");
    assert_eq!(main.icon(), "icon/hp.png");
    assert!(!sub.is_percent());
    assert_eq!(main.value().to_bits(), 7.9f64.to_bits());
}

#[test]
fn statistic_is_read_through_the_trait() {
    let a = attr("spd", 101.5, "101", false);
    assert_eq!(a.field(), "spd");
    assert_eq!(a.name(), "name of spd");
    assert_eq!(a.icon(), "icon/spd.png");
    assert_eq!(a.value().to_bits(), 101.5f64.to_bits());
    assert_eq!(a.display(), "101");
    assert!(!a.is_percent());
    let p = prop("SpeedDelta", "spd", 0.25, "25.0%", true);
    assert_eq!(p.field(), "spd");
    assert_eq!(p.name(), "name of spd");
    assert_eq!(p.icon(), "icon/spd.png");
    assert_eq!(p.value().to_bits(), 0.25f64.to_bits());
    assert_eq!(p.display(), "25.0%");
    assert!(p.is_percent());
}

#[test]
fn search_finds_the_first_match() {
    let list = vec![
        attr("hp", 1.0, "first", false),
        attr("atk", 2.0, "second", false),
        attr("hp", 3.0, "third", false),
    ];
    assert_eq!(search_attr_field(&list, "hp").unwrap().display, "first");
    assert_eq!(search_attr_field(&list, "atk").unwrap().display, "second");
    assert!(search_attr_field(&list, "def").is_none());
    assert!(search_attr_field(&list, "").is_none());
    assert!(search_attr_field(&[], "hp").is_none());
    assert!(std::ptr::eq(find_by_field(&list, "hp").unwrap(), &list[0]));
    let props = vec![prop("A", "hp", 1.0, "p1", false), prop("B", "hp", 2.0, "p2", false)];
    assert_eq!(search_prop_field(&props, "hp").unwrap().type_tag, "A");
    assert!(search_prop_field(&props, "atk").is_none());
}

#[test]
fn list_merge_adds_when_both_lists_have_the_field() {
    let base = vec![attr("hp", 1000.9, "1000", false), attr("crit_rate", 0.05, "5.0%", true)];
    let more = vec![attr("crit_rate", 0.123, "12.3%", true), attr("hp", 200.9, "200", false)];
    assert_eq!(comb_attr_list_stats(&base, &more, "hp"), "1200");
    assert_eq!(comb_attr_list_stats(&base, &more, "crit_rate"), "17.3%");
    assert_eq!(merge_field(&base, &more, "hp"), "1200");
}

#[test]
fn list_merge_keeps_the_text_of_the_only_one() {
    let base = vec![attr("hp", 1000.9, "1,000 (base)", false)];
    let more = vec![attr("spd", 4.6, "4.6 (bonus)", false)];
    assert_eq!(comb_attr_list_stats(&base, &more, "spd"), "4.6 (bonus)");
    assert_eq!(comb_attr_list_stats(&base, &more, "hp"), "1,000 (base)");
    assert_eq!(comb_attr_list_stats(&[], &more, "spd"), "4.6 (bonus)");
    let props = vec![prop("SpeedDelta", "spd", 4.6, "4.6 (prop)", false)];
    assert_eq!(comb_prop_list_stats(&[], &props, "spd"), "4.6 (prop)");
    assert_eq!(comb_prop_list_stats(&props, &[], "spd"), "4.6 (prop)");
}

#[test]
fn list_merge_without_the_field_is_not_available() {
    let base = vec![attr("hp", 1000.9, "1000", false)];
    let more = vec![attr("spd", 4.6, "4.6", false)];
    assert_eq!(comb_attr_list_stats(&base, &more, "def"), "N/A");
    assert_eq!(comb_attr_list_stats(&[], &[], "hp"), "N/A");
    assert_eq!(comb_prop_list_stats(&[], &[], "hp"), "N/A");
}

#[test]
fn list_merge_takes_the_first_of_a_repeated_field() {
    let base = vec![attr("hp", 1.0, "1", false), attr("hp", 100.0, "100", false)];
    let more = vec![attr("hp", 2.0, "2", false), attr("hp", 200.0, "200", false)];
    assert_eq!(comb_attr_list_stats(&base, &more, "hp"), "3");
}

#[test]
fn list_merge_of_mismatched_kinds_shows_both_texts() {
    let base = vec![attr("hp", 1000.0, "1000", false)];
    let more = vec![attr("hp", 0.1, "10.0%", true)];
    assert_eq!(comb_attr_list_stats(&base, &more, "hp"), "1000 + 10.0%");
}

#[test]
fn combined_fields_are_the_union() {
    let a = vec![
        attr("hp", 1.0, "1", false),
        attr("atk", 1.0, "1", false),
        attr("spd", 1.0, "1", false),
    ];
    let b = vec![
        attr("atk", 1.0, "1", false),
        attr("crit_rate", 1.0, "1", true),
        attr("hp", 1.0, "1", false),
        attr("def", 1.0, "1", false),
    ];
    let found = combine_attr_fields(&a, &b);
    assert_eq!(found, vec!["hp", "atk", "spd", "crit_rate", "def"]);
    assert_eq!(found.len(), 5);
    let as_set: std::collections::HashSet<&str> = found.iter().copied().collect();
    let expected: std::collections::HashSet<&str> = a
        .iter()
        .map(|x| x.field.as_str())
        .chain(b.iter().map(|x| x.field.as_str()))
        .collect();
    assert_eq!(as_set, expected);
}

#[test]
fn combined_fields_hold_nothing_twice() {
    let a = vec![attr("hp", 1.0, "1", false), attr("hp", 2.0, "2", false)];
    let b = vec![attr("hp", 3.0, "3", false)];
    assert_eq!(combine_attr_fields(&a, &b), vec!["hp"]);
    assert_eq!(combine_attr_fields(&a, &[]), vec!["hp"]);
    assert_eq!(combine_attr_fields(&[], &b), vec!["hp"]);
}

#[test]
fn combined_fields_of_nothing_are_none() {
    assert!(combine_attr_fields(&[], &[]).is_empty());
    assert!(combine_prop_fields(&[], &[]).is_empty());
}

#[test]
fn combined_fields_of_properties_and_mixed_lists() {
    let a = vec![prop("A", "hp", 1.0, "1", false), prop("B", "spd", 1.0, "1", false)];
    let b = vec![prop("C", "spd", 1.0, "1", false), prop("D", "atk", 1.0, "1", false)];
    assert_eq!(combine_prop_fields(&a, &b), vec!["hp", "spd", "atk"]);
    let c = vec![attr("def", 1.0, "1", false), attr("hp", 1.0, "1", false)];
    assert_eq!(combine_fields(&a, &c), vec!["hp", "spd", "def"]);
}
