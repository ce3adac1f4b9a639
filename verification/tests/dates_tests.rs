use product_crawler::dates::resolve_date;

#[test]
fn date_normalization() {
    assert_eq!(
        resolve_date("Availability: In Stock\n15 March 2024"),
        Some(String::from("2024-03-15"))
    );
    assert_eq!(resolve_date("2024-03-15"), Some(String::from("2024-03-15")));
    assert_eq!(resolve_date("no date to be seen"), None);
}

#[test]
fn day_month_year_is_reformatted() {
    assert_eq!(resolve_date("5 April 2023"), Some(String::from("2023-04-05")));
    assert_eq!(resolve_date("Ships on 31 December 1999!"), Some(String::from("1999-12-31")));
}

#[test]
fn month_abbreviations_are_accepted() {
    assert_eq!(resolve_date("1 Jan 2024"), Some(String::from("2024-01-01")));
    assert_eq!(resolve_date("30 Sep 2022"), Some(String::from("2022-09-30")));
}

#[test]
fn month_names_ignore_case() {
    assert_eq!(resolve_date("15 MARCH 2024"), Some(String::from("2024-03-15")));
    assert_eq!(resolve_date("15 march 2024"), Some(String::from("2024-03-15")));
}

#[test]
fn unknown_month_word_yields_nothing() {
    assert_eq!(resolve_date("15 Smarch 2024"), None);
}

#[test]
fn invalid_calendar_dates_yield_nothing() {
    assert_eq!(resolve_date("31 February 2024"), None);
    assert_eq!(resolve_date("0 March 2024"), None);
    assert_eq!(resolve_date("2024-13-01"), None);
    assert_eq!(resolve_date("2024-01-32"), None);
}

#[test]
fn leap_years_are_respected() {
    assert_eq!(resolve_date("29 February 2024"), Some(String::from("2024-02-29")));
    assert_eq!(resolve_date("29 February 2023"), None);
    assert_eq!(resolve_date("29 February 2000"), Some(String::from("2000-02-29")));
    assert_eq!(resolve_date("29 February 1900"), None);
}

#[test]
fn first_match_in_text_wins() {
    assert_eq!(
        resolve_date("2024-01-02 then 15 March 2024"),
        Some(String::from("2024-01-02"))
    );
}

#[test]
fn tomorrow_matches_but_yields_no_date() {
    assert_eq!(resolve_date("arrives tomorrow"), None);
    assert_eq!(resolve_date("arrives tomorrow, or 15 March 2024"), None);
}

#[test]
fn loose_form_matches_but_yields_no_date() {
    assert_eq!(resolve_date("7th of mar 2024"), None);
    assert_eq!(resolve_date("7th of mar 2024, else 15 March 2024"), None);
}

#[test]
fn invalid_dashed_match_suppresses_later_date() {
    assert_eq!(resolve_date("2024-99-99 or 15 March 2024"), None);
}
