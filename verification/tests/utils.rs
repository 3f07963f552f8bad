use grid_agents::utils::{create_vec, create_vec_capacity, is_string_in_array, Flatten};

#[test]
fn empty_slots() {
    let slots: Vec<Option<String>> = create_vec(3);
    assert_eq!(slots, vec![None, None, None]);
    let none: Vec<Option<u8>> = create_vec(0);
    assert!(none.is_empty());
    let roomy: Vec<Option<u8>> = create_vec_capacity(16);
    assert!(roomy.is_empty());
    assert!(roomy.capacity() >= 16);
}

#[test]
fn strings_in_arrays() {
    let walls = ["block", "wall", "conputer"];
    assert!(is_string_in_array("wall", &walls));
    assert!(is_string_in_array("conputer", &walls));
    assert!(!is_string_in_array("walls", &walls));
    assert!(!is_string_in_array("", &walls));
    assert!(!is_string_in_array("wall", &[]));
    let owned = String::from("blo") + "ck";
    assert!(is_string_in_array(&owned, &walls));
}

#[test]
fn folding_options() {
    assert_eq!(Flatten::flatten(Some(Some(3))), Some(3));
    assert_eq!(Flatten::flatten(Some(None::<i32>)), None);
    assert_eq!(Flatten::flatten(None::<Option<i32>>), None);
}
