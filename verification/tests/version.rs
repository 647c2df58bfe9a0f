use noviq::utils::version::{format_version, get_build_number, get_version};

#[test]
fn release_version_is_the_base() {
    assert_eq!(format_version("0.1.0", false, false, "250101", None), "nebula-0.1.0");
    assert_eq!(get_version("0.1.0", false, false, Some("abc1234")), "nebula-0.1.0");
}

#[test]
fn debug_version_carries_the_date() {
    assert_eq!(
        format_version("0.1.0", false, true, "250101", Some("abc1234")),
        "nebula-0.1.0-pulsar.250101"
    );
}

#[test]
fn snapshot_version_carries_date_and_build() {
    assert_eq!(
        format_version("0.1.0", true, false, "250101", Some("abc1234")),
        "nebula-0.1.0-pulsar.250101.abc1234"
    );
    assert_eq!(
        format_version("0.1.0", true, true, "250101", None),
        "nebula-0.1.0-pulsar.250101.dev"
    );
}

#[test]
fn build_number_defaults_to_dev() {
    assert_eq!(get_build_number(None), "dev");
    assert_eq!(get_build_number(Some("abc1234")), "abc1234");
}

#[test]
fn debug_version_of_today_has_a_six_digit_date() {
    let version = get_version("1.2.3", false, true, None);
    let date = version.strip_prefix("nebula-1.2.3-pulsar.").unwrap();
    assert_eq!(date.len(), 6);
    assert!(date.chars().all(|c| c.is_ascii_digit()));
    let snapshot = get_version("1.2.3", true, false, Some("abc"));
    assert!(snapshot.starts_with("nebula-1.2.3-pulsar."));
    assert!(snapshot.ends_with(".abc"));
}
