use markdown_extract::cli::get_weekday_mappings;

#[test]
fn test_get_weekday_mappings_ru() {
    let mappings = get_weekday_mappings("ru");
    assert!(mappings.contains(&("Понедельник", "Monday")));
    assert!(mappings.contains(&("Пн", "Mon")));
}

#[test]
fn test_get_weekday_mappings_multiple() {
    let mappings = get_weekday_mappings("ru,en");
    assert!(mappings.contains(&("Понедельник", "Monday")));
}

#[test]
fn test_get_weekday_mappings_empty() {
    let mappings = get_weekday_mappings("en");
    assert!(mappings.is_empty());
}

#[test]
fn weekday_mappings_keep_the_order_of_the_table() {
    let mappings = get_weekday_mappings("ru");
    assert_eq!(mappings.len(), 14);
    assert_eq!(mappings[0], ("Понедельник", "Monday"));
    assert_eq!(mappings[6], ("Воскресенье", "Sunday"));
    assert_eq!(mappings[7], ("Пн", "Mon"));
    assert_eq!(mappings[13], ("Вс", "Sun"));
}

#[test]
fn weekday_mappings_trim_each_locale_and_repeat() {
    assert_eq!(get_weekday_mappings(" ru , ru").len(), 28);
    assert_eq!(get_weekday_mappings("").len(), 0);
    assert_eq!(get_weekday_mappings("en,,ru,").len(), 14);
    assert_eq!(get_weekday_mappings("RU").len(), 0);
    assert_eq!(get_weekday_mappings("r u").len(), 0);
}
