use declaration_engine::decl_id::DeclarationId;
use declaration_engine::decl_mapping::DeclMapping;
use declaration_engine::text::push_decimal;

fn entry(name: &str, index: usize) -> (String, DeclarationId) {
    (name.to_string(), DeclarationId::new(index))
}

fn pair(source: usize, destination: usize) -> (DeclarationId, DeclarationId) {
    (DeclarationId::new(source), DeclarationId::new(destination))
}

#[test]
fn disjoint_names_give_the_empty_mapping() {
    let original = vec![entry("f", 0), entry("g", 1)];
    let new = vec![entry("h", 2), entry("i", 3), entry("F", 4)];
    let mapping = DeclMapping::from_original_and_new_decl_ids(&original, &new);
    assert!(mapping.is_empty());
    assert_eq!(mapping.mapping, vec![]);
    assert_eq!(mapping.find_match(&DeclarationId::new(0)), None);
    assert_eq!(mapping.find_match(&DeclarationId::new(1)), None);
}

#[test]
fn empty_lists_give_the_empty_mapping() {
    let none: Vec<(String, DeclarationId)> = vec![];
    let some = vec![entry("f", 0)];
    assert!(DeclMapping::from_original_and_new_decl_ids(&none, &none).is_empty());
    assert!(DeclMapping::from_original_and_new_decl_ids(&none, &some).is_empty());
    assert!(DeclMapping::from_original_and_new_decl_ids(&some, &none).is_empty());
}

#[test]
fn same_names_are_paired() {
    let original = vec![entry("f", 0), entry("g", 1)];
    let new = vec![entry("g", 7), entry("f", 8)];
    let mapping = DeclMapping::from_original_and_new_decl_ids(&original, &new);
    assert!(!mapping.is_empty());
    assert_eq!(mapping.mapping, vec![pair(0, 8), pair(1, 7)]);
    assert_eq!(mapping.find_match(&DeclarationId::new(0)), Some(DeclarationId::new(8)));
    assert_eq!(mapping.find_match(&DeclarationId::new(1)), Some(DeclarationId::new(7)));
    assert_eq!(mapping.find_match(&DeclarationId::new(7)), None);
}

#[test]
fn a_name_that_is_missing_in_new_is_left_out() {
    let original = vec![entry("f", 0), entry("g", 1), entry("h", 2)];
    let new = vec![entry("h", 5), entry("f", 6)];
    let mapping = DeclMapping::from_original_and_new_decl_ids(&original, &new);
    assert_eq!(mapping.mapping, vec![pair(0, 6), pair(2, 5)]);
    assert_eq!(mapping.find_match(&DeclarationId::new(1)), None);
}

#[test]
fn names_are_compared_letter_for_letter() {
    let original = vec![entry("f", 0), entry("foo", 1), entry("Foo", 2), entry("", 3)];
    let new = vec![entry("fo", 4), entry("foo ", 5), entry("FOO", 6), entry("", 7)];
    let mapping = DeclMapping::from_original_and_new_decl_ids(&original, &new);
    assert_eq!(mapping.mapping, vec![pair(3, 7)]);
}

#[test]
fn find_match_returns_the_first_of_two_new_declarations_of_one_name() {
    let original = vec![entry("f", 10)];
    let new = vec![entry("f", 21), entry("f", 22)];
    let mapping = DeclMapping::from_original_and_new_decl_ids(&original, &new);
    assert_eq!(mapping.mapping, vec![pair(10, 21), pair(10, 22)]);
    assert_eq!(mapping.find_match(&DeclarationId::new(10)), Some(DeclarationId::new(21)));

    let new_reversed = vec![entry("f", 22), entry("f", 21)];
    let mapping = DeclMapping::from_original_and_new_decl_ids(&original, &new_reversed);
    assert_eq!(mapping.find_match(&DeclarationId::new(10)), Some(DeclarationId::new(22)));
}

#[test]
fn pairs_follow_the_order_of_original_then_of_new() {
    let original = vec![entry("b", 1), entry("a", 0), entry("b", 2)];
    let new = vec![entry("a", 10), entry("b", 11), entry("a", 12), entry("b", 13)];
    let mapping = DeclMapping::from_original_and_new_decl_ids(&original, &new);
    assert_eq!(
        mapping.mapping,
        vec![pair(1, 11), pair(1, 13), pair(0, 10), pair(0, 12), pair(2, 11), pair(2, 13)]
    );
}

#[test]
fn find_match_takes_the_first_pair_of_a_source() {
    let mapping = DeclMapping { mapping: vec![pair(1, 2), pair(3, 4), pair(1, 5), pair(3, 6)] };
    assert_eq!(mapping.find_match(&DeclarationId::new(1)), Some(DeclarationId::new(2)));
    assert_eq!(mapping.find_match(&DeclarationId::new(3)), Some(DeclarationId::new(4)));
    assert_eq!(mapping.find_match(&DeclarationId::new(2)), None);
    assert_eq!(mapping.find_match(&DeclarationId::new(0)), None);
}

#[test]
fn find_match_on_the_empty_mapping_finds_nothing() {
    let mapping = DeclMapping { mapping: vec![] };
    assert!(mapping.is_empty());
    assert_eq!(mapping.find_match(&DeclarationId::new(0)), None);
}

#[test]
fn is_empty_tells_one_pair_from_none() {
    assert!(DeclMapping { mapping: vec![] }.is_empty());
    assert!(!DeclMapping { mapping: vec![pair(0, 0)] }.is_empty());
}

#[test]
fn a_mapping_is_written_with_its_pairs_in_order() {
    let mapping = DeclMapping { mapping: vec![pair(0, 4), pair(1, 15), pair(120, 7)] };
    assert_eq!(mapping.to_string(), "DeclMapping { 0 -> 4, 1 -> 15, 120 -> 7 }");
    let single = DeclMapping { mapping: vec![pair(3, 9)] };
    assert_eq!(single.to_string(), "DeclMapping { 3 -> 9 }");
}

#[test]
fn the_empty_mapping_is_written_with_nothing_between_its_braces() {
    let mapping = DeclMapping { mapping: vec![] };
    assert_eq!(mapping.to_string(), "DeclMapping {  }");
}

#[test]
fn numbers_are_written_in_decimal() {
    let cases: Vec<(usize, &str)> = vec![
        (0, "0"),
        (7, "7"),
        (9, "9"),
        (10, "10"),
        (99, "99"),
        (100, "100"),
        (12345, "12345"),
        (1000000007, "1000000007"),
    ];
    for (number, expected) in cases {
        let mut text = String::new();
        push_decimal(&mut text, number);
        assert_eq!(text, expected);
    }
    let mut text = String::from("n = ");
    push_decimal(&mut text, usize::MAX);
    assert_eq!(text, format!("n = {}", usize::MAX));
}

#[test]
fn identities_are_equal_when_their_slots_are() {
    assert_eq!(DeclarationId::new(3), DeclarationId::new(3));
    assert_ne!(DeclarationId::new(3), DeclarationId::new(4));
    assert_eq!(DeclarationId::new(3).index(), 3);
    let copy = DeclarationId::new(5);
    let other = copy;
    assert_eq!(copy, other);
}

#[test]
fn a_mapping_is_written_out_for_debugging_with_its_identities_as_values() {
    let mapping = DeclMapping { mapping: vec![pair(0, 4), pair(12, 7)] };
    assert_eq!(
        mapping.to_debug_string(),
        "DeclMapping { DeclarationId { index: 0 } -> DeclarationId { index: 4 }, \
         DeclarationId { index: 12 } -> DeclarationId { index: 7 } }"
    );
    assert_eq!(
        mapping.to_debug_string(),
        format!(
            "DeclMapping {{ {:?} -> {:?}, {:?} -> {:?} }}",
            DeclarationId::new(0),
            DeclarationId::new(4),
            DeclarationId::new(12),
            DeclarationId::new(7)
        )
    );
    assert_eq!(DeclMapping { mapping: vec![] }.to_debug_string(), "DeclMapping {  }");
}
