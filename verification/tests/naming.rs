use structgen::naming::{composite_name, to_pascal_case};

#[test]
fn capitalises_each_word_and_drops_the_underscores() {
    assert_eq!(to_pascal_case("db_settings"), "DbSettings");
    assert_eq!(to_pascal_case("nested"), "Nested");
    assert_eq!(to_pascal_case("a"), "A");
}

#[test]
fn composite_name_appends_the_capitalised_key() {
    assert_eq!(composite_name("Config", "db_settings"), "ConfigDbSettings");
    assert_eq!(composite_name("Cfg", "nested"), "CfgNested");
    assert_eq!(composite_name("", "x_y"), "XY");
}

#[test]
fn composite_name_is_the_same_every_time() {
    let first = composite_name("Config", "db_settings");
    let second = composite_name("Config", "db_settings");
    assert_eq!(first, second);
}

#[test]
fn the_rest_of_a_word_is_left_as_it_is() {
    assert_eq!(to_pascal_case("fooBar_bazQux"), "FooBarBazQux");
    assert_eq!(to_pascal_case("ALREADY_upper"), "ALREADYUpper");
    assert_eq!(to_pascal_case("a_1b"), "A1b");
}

#[test]
fn empty_words_add_nothing() {
    assert_eq!(to_pascal_case(""), "");
    assert_eq!(to_pascal_case("_"), "");
    assert_eq!(to_pascal_case("__a__b_"), "AB");
    assert_eq!(composite_name("Config", ""), "Config");
    assert_eq!(composite_name("Config", "___"), "Config");
}

#[test]
fn initials_beyond_ascii_are_capitalised_too() {
    assert_eq!(to_pascal_case("élan_vital"), "ÉlanVital");
    // One letter may become two.
    assert_eq!(to_pascal_case("ßa"), "SSa");
    assert_eq!(to_pascal_case("数_据"), "数据");
}

#[test]
fn keys_with_equal_capitalised_forms_share_a_name() {
    assert_eq!(composite_name("Root", "a_b"), composite_name("Root", "aB"));
    assert_eq!(composite_name("Root", "a_b"), composite_name(&composite_name("Root", "a"), "b"));
}

#[test]
fn keys_with_different_capitalised_forms_get_different_names() {
    assert_ne!(composite_name("Root", "db"), composite_name("Root", "cache"));
    assert_ne!(composite_name("Root", "a_b"), composite_name("Root", "a_c"));
    // The same key at two depths.
    let outer = composite_name("Root", "settings");
    let inner = composite_name(&composite_name("Root", "db"), "settings");
    assert_eq!(outer, "RootSettings");
    assert_eq!(inner, "RootDbSettings");
    assert_ne!(outer, inner);
}
