use surrealdb_migrations::order_safety::is_natural_order_safe;
use surrealdb_migrations::common::get_migration_display_name;

#[test]
fn migration_named_20230603_123456_create_table_post() {
    let migration_file_name = "20230603_123456_create_table_post";
    let result = get_migration_display_name(migration_file_name);

    assert_eq!(result, "create_table_post");
}

#[test]
fn display_name_keeps_underscores_after_the_time() {
    let result = get_migration_display_name("20230603_123456_add_post_table.surql");
    assert_eq!(result, "add_post_table.surql");
}

#[test]
fn display_name_is_empty_without_two_underscores() {
    assert_eq!(get_migration_display_name("20230603_123456"), "");
    assert_eq!(get_migration_display_name("no-underscore"), "");
}

#[test]
fn display_name_of_empty_fields() {
    assert_eq!(get_migration_display_name("__Initial"), "Initial");
}

#[test]
fn names_that_natural_ordering_accepts() {
    assert!(is_natural_order_safe("日本"));
    assert!(is_natural_order_safe("Привет_мир"));
    assert!(is_natural_order_safe("20230603_123456_create_table_post"));
    assert!(is_natural_order_safe("1234567890123456789"));
    assert!(!is_natural_order_safe("12345678901234567890"));
    assert!(!is_natural_order_safe("123456789012345678¹9"));
    assert!(is_natural_order_safe("1234567890123456789a1234567890123456789"));
}
