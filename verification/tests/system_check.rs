use noviq::system_check::{
    all_critical_passed, check_cargo, check_git, check_llvm, check_rust, check_rust_version,
    missing_requirements, nth_word, run_all_checks, trim, CheckResult,
};

#[test]
fn test_rust_version_check() {
    assert!(check_rust_version("1.70.0"));
    assert!(check_rust_version("1.75.0"));
    assert!(check_rust_version("2.0.0"));
    assert!(!check_rust_version("1.69.0"));
    assert!(!check_rust_version("1.60.0"));
}

#[test]
fn version_without_a_point_is_refused() {
    assert!(!check_rust_version(""));
    assert!(!check_rust_version("2"));
    assert!(!check_rust_version("unknown"));
}

#[test]
fn minor_version_ends_at_a_hyphen() {
    assert!(check_rust_version("1.70-beta.1"));
    assert!(check_rust_version("1.82.0-nightly"));
    assert!(!check_rust_version("1.69-beta.70"));
    assert!(!check_rust_version("1.-70"));
}

#[test]
fn part_that_is_no_number_counts_as_zero() {
    assert!(!check_rust_version("x.99"));
    assert!(!check_rust_version("1.x"));
    assert!(!check_rust_version("1."));
    assert!(!check_rust_version(".70"));
    assert!(!check_rust_version("1 .70"));
    assert!(!check_rust_version("-1.70"));
    assert!(check_rust_version("2.x"));
    assert!(check_rust_version("+1.+70"));
    assert!(!check_rust_version("+.70"));
}

#[test]
fn part_that_does_not_fit_counts_as_zero() {
    assert!(check_rust_version("4294967295.0"));
    assert!(!check_rust_version("4294967296.0"));
    assert!(check_rust_version("1.4294967295"));
    assert!(!check_rust_version("1.4294967296"));
    assert!(!check_rust_version("99999999999999999999999999.0"));
    assert!(check_rust_version("0000000000000000000001.070"));
}

#[test]
fn check_result_text() {
    let found = CheckResult::new("Git", true, Some("2.43.0".to_string()), "Available");
    assert_eq!(found.to_text(), "[✓] Git (2.43.0) - Available");
    let missing = CheckResult::new("Cargo", false, None, "Not found");
    assert_eq!(missing.to_text(), "[✗] Cargo - Not found");
    assert_eq!(missing.name, "Cargo");
    assert!(!missing.passed);
    assert_eq!(missing.version, None);
    assert_eq!(missing.message, "Not found");
    assert_eq!(found.clone().to_text(), found.to_text());
}

#[test]
fn only_llvm_may_fail() {
    let ok = CheckResult::new("Rust Compiler", true, None, "");
    let llvm_missing = CheckResult::new("LLVM", false, None, "");
    let git_missing = CheckResult::new("Git", false, None, "");
    assert!(all_critical_passed(&vec![]));
    assert!(all_critical_passed(&vec![ok.clone(), llvm_missing.clone()]));
    assert!(!all_critical_passed(&vec![ok.clone(), git_missing.clone()]));
    assert!(!all_critical_passed(&vec![git_missing, llvm_missing, ok]));
}

#[test]
fn words_are_counted_from_zero() {
    assert_eq!(nth_word("rustc 1.75.0 (82e1608df 2023-12-21)", 0), "rustc");
    assert_eq!(nth_word("rustc 1.75.0 (82e1608df 2023-12-21)", 1), "1.75.0");
    assert_eq!(nth_word("  git \t version\n2.43.0\n", 2), "2.43.0");
    assert_eq!(nth_word("one", 1), "unknown");
    assert_eq!(nth_word("", 0), "unknown");
    assert_eq!(nth_word(" \n ", 0), "unknown");
}

#[test]
fn trim_cuts_white_space_at_both_ends() {
    assert_eq!(trim("  17.0.6\n"), "17.0.6");
    assert_eq!(trim("a b"), "a b");
    assert_eq!(trim(" \t\n"), "");
    assert_eq!(trim(""), "");
    assert_eq!(trim("\u{a0}x y\u{2003}"), "x y");
}

fn parts(r: &CheckResult) -> (&str, bool, Option<&str>, &str) {
    (r.name.as_str(), r.passed, r.version.as_deref(), r.message.as_str())
}

#[test]
fn compiler_check() {
    assert_eq!(
        parts(&check_rust(Some("rustc 1.75.0 (82e1608df 2023-12-21)\n"))),
        ("Rust Compiler", true, Some("1.75.0"), "Available")
    );
    assert_eq!(
        parts(&check_rust(Some("rustc 1.69.0"))),
        ("Rust Compiler", false, Some("1.69.0"), "Version 1.70.0 or higher required")
    );
    assert_eq!(
        parts(&check_rust(Some("rustc"))),
        ("Rust Compiler", false, Some("unknown"), "Version 1.70.0 or higher required")
    );
    assert_eq!(
        parts(&check_rust(None)),
        ("Rust Compiler", false, None, "Not found - Install from https://rustup.rs")
    );
}

#[test]
fn cargo_git_and_llvm_checks() {
    assert_eq!(
        parts(&check_cargo(Some("cargo 1.75.0 (1d8b05cdd 2023-11-20)\n"))),
        ("Cargo", true, Some("1.75.0"), "Available")
    );
    assert_eq!(
        parts(&check_cargo(None)),
        ("Cargo", false, None, "Not found - Install with Rust from https://rustup.rs")
    );
    assert_eq!(
        parts(&check_git(Some("git version 2.43.0\n"))),
        ("Git", true, Some("2.43.0"), "Available")
    );
    assert_eq!(parts(&check_git(Some("git version"))), ("Git", true, Some("unknown"), "Available"));
    assert_eq!(
        parts(&check_git(None)),
        ("Git", false, None, "Not found - Install from https://git-scm.com")
    );
    assert_eq!(
        parts(&check_llvm(Some(" 17.0.6 \n"))),
        ("LLVM", true, Some("17.0.6"), "Available (optional)")
    );
    assert_eq!(
        parts(&check_llvm(None)),
        ("LLVM", true, None, "Not found (optional for future JIT support)")
    );
}

#[test]
fn all_checks_come_in_order() {
    let results = run_all_checks(Some("rustc 1.80.1"), None, Some("git version 2.1"), None);
    let names: Vec<&str> = results.iter().map(|r| r.name.as_str()).collect();
    assert_eq!(names, vec!["Rust Compiler", "Cargo", "Git", "LLVM"]);
    let passed: Vec<bool> = results.iter().map(|r| r.passed).collect();
    assert_eq!(passed, vec![true, false, true, true]);
    assert!(!all_critical_passed(&results));
    let fine = run_all_checks(Some("rustc 1.80.1"), Some("cargo 1.80.1"), Some("git version 2.1"), None);
    assert!(all_critical_passed(&fine));
}

#[test]
fn missing_requirements_are_listed_in_order() {
    let results = vec![
        CheckResult::new("Rust Compiler", false, None, "Not found"),
        CheckResult::new("Cargo", true, None, "Available"),
        CheckResult::new("Git", false, None, "Install it"),
        CheckResult::new("LLVM", false, None, "Optional"),
    ];
    assert_eq!(
        missing_requirements(&results, false),
        vec!["  • Rust Compiler - Not found", "  • Git - Install it", "  • LLVM - Optional"]
    );
    assert_eq!(
        missing_requirements(&results, true),
        vec!["  • Rust Compiler - Not found", "  • Git - Install it"]
    );
    assert!(missing_requirements(&vec![], false).is_empty());
}
