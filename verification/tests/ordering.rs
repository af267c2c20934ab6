use mihomo::util::{field_rank, sort_fields};

fn strings(fields: &[&str]) -> Vec<String> {
    fields.iter().map(|field| field.to_string()).collect()
}

#[test]
fn fields_come_out_in_the_fixed_order() {
    let sorted = sort_fields(strings(&["effect_res", "crit_dmg", "unknown_x", "crit_rate"]));
    assert_eq!(sorted, strings(&["crit_rate", "crit_dmg", "effect_res", "unknown_x"]));
}

#[test]
fn every_ranked_field_has_its_place() {
    let sorted = sort_fields(strings(&[
        "effect_res",
        "effect_hit",
        "sp_rate",
        "heal_rate",
        "break_dmg",
        "crit_dmg",
        "crit_rate",
    ]));
    assert_eq!(
        sorted,
        strings(&[
            "crit_rate",
            "crit_dmg",
            "break_dmg",
            "heal_rate",
            "sp_rate",
            "effect_hit",
            "effect_res",
        ])
    );
}

#[test]
fn ranks_follow_the_fixed_order() {
    assert_eq!(field_rank("crit_rate"), 0);
    assert_eq!(field_rank("crit_dmg"), 1);
    assert_eq!(field_rank("break_dmg"), 2);
    assert_eq!(field_rank("heal_rate"), 3);
    assert_eq!(field_rank("sp_rate"), 4);
    assert_eq!(field_rank("effect_hit"), 5);
    assert_eq!(field_rank("effect_res"), 6);
    assert_eq!(field_rank("hp"), 7);
    assert_eq!(field_rank(""), 7);
    assert_eq!(field_rank("Crit_rate"), 7);
}

#[test]
fn unranked_fields_keep_their_order_at_the_end() {
    let sorted = sort_fields(strings(&["zeta", "spd", "crit_dmg", "alpha", "hp", "crit_rate"]));
    assert_eq!(sorted, strings(&["crit_rate", "crit_dmg", "zeta", "spd", "alpha", "hp"]));
}

#[test]
fn repeated_fields_all_stay() {
    let sorted = sort_fields(strings(&["hp", "crit_dmg", "hp", "crit_dmg", "crit_rate", "hp"]));
    assert_eq!(sorted, strings(&["crit_rate", "crit_dmg", "crit_dmg", "hp", "hp", "hp"]));
}

#[test]
fn nothing_sorts_to_nothing() {
    assert!(sort_fields(vec![]).is_empty());
    assert_eq!(sort_fields(strings(&["hp"])), strings(&["hp"]));
}

#[test]
fn sorting_agrees_with_a_stable_sort_by_rank() {
    let names = [
        "crit_rate", "crit_dmg", "break_dmg", "heal_rate", "sp_rate", "effect_hit", "effect_res",
        "hp", "atk", "def", "spd", "",
    ];
    let mut state: u64 = 7;
    for round in 0..200 {
        let mut list: Vec<String> = vec![];
        for _ in 0..(round % 17) {
            state = state.wrapping_mul(6364136223846793005).wrapping_add(1442695040888963407);
            list.push(names[((state >> 33) % names.len() as u64) as usize].to_string());
        }
        let mut expected = list.clone();
        expected.sort_by_key(|field| field_rank(field));
        assert_eq!(sort_fields(list), expected);
    }
}

#[test]
fn sorting_twice_changes_nothing() {
    let once = sort_fields(strings(&["hp", "effect_res", "atk", "crit_dmg", "hp", "sp_rate"]));
    let twice = sort_fields(once.clone());
    assert_eq!(once, twice);
    assert_eq!(once, strings(&["crit_dmg", "sp_rate", "effect_res", "hp", "atk", "hp"]));
}
