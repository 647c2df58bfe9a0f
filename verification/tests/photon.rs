use noviq::photon::{binary_path, build_flag, install_name, valid_profile};

#[test]
fn three_profiles_are_known() {
    assert!(valid_profile("debug"));
    assert!(valid_profile("release"));
    assert!(valid_profile("snapshot"));
    assert!(!valid_profile("Release"));
    assert!(!valid_profile(""));
    assert!(!valid_profile("fast"));
}

#[test]
fn each_profile_has_its_flag_and_binary() {
    assert_eq!(build_flag("debug"), "");
    assert_eq!(build_flag("release"), "--release");
    assert_eq!(build_flag("snapshot"), "--profile=snapshot");
    assert_eq!(binary_path("debug"), "target/debug/noviq");
    assert_eq!(binary_path("release"), "target/release/noviq");
    assert_eq!(binary_path("snapshot"), "target/snapshot/noviq");
    assert_eq!(binary_path("other"), "target/debug/noviq");
}

#[test]
fn installed_binaries_are_named_by_version_and_platform() {
    assert_eq!(
        install_name(Some("Noviq nebula-0.1.0\n"), "linux", "x86_64", ""),
        "libs/noviq-nebula-0.1.0-linux-x86_64"
    );
    assert_eq!(
        install_name(Some("Noviq"), "windows", "aarch64", ".exe"),
        "libs/noviq-unknown-windows-aarch64.exe"
    );
    assert_eq!(
        install_name(None, "unknown", "unknown", ""),
        "libs/noviq-unknown-unknown-unknown"
    );
}
