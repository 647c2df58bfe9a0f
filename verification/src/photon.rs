//! What the build tool decides: the build profiles, where their binaries
//! lie, and the names under which binaries are installed.

use vstd::prelude::*;
use crate::chars::same_text;
use crate::system_check::{nth_word, word_or_unknown};

verus! {

/// Whether `profile` names a build profile: `debug`, `release` or
/// `snapshot`.
pub open spec fn is_profile(profile: Seq<char>) -> bool {
    profile == "debug"@ || profile == "release"@ || profile == "snapshot"@
}

/// The argument that selects a profile in a build; none for a debug build.
pub open spec fn profile_flag(profile: Seq<char>) -> Seq<char> {
    if profile == "release"@ {
        "--release"@
    } else if profile == "snapshot"@ {
        "--profile=snapshot"@
    } else {
        Seq::empty()
    }
}

/// The path of the binary that a build with a profile leaves. A name that
/// is no profile goes with the debug build.
pub open spec fn profile_binary(profile: Seq<char>) -> Seq<char> {
    if profile == "release"@ {
        "target/release/noviq"@
    } else if profile == "snapshot"@ {
        "target/snapshot/noviq"@
    } else {
        "target/debug/noviq"@
    }
}

/// The name under which a binary is installed: its version, the system
/// and the machine, and the ending that executables have there.
pub open spec fn installed_name(
    version: Seq<char>,
    os: Seq<char>,
    arch: Seq<char>,
    ext: Seq<char>,
) -> Seq<char> {
    "libs/noviq-"@ + version + "-"@ + os + "-"@ + arch + ext
}

/// The version in what a binary printed when asked for it: the second
/// word, or `unknown` where the binary could not be run or printed less.
pub open spec fn binary_version(output: Option<Seq<char>>) -> Seq<char> {
    match output {
        Some(text) => word_or_unknown(text, 1),
        None => "unknown"@,
    }
}

/// Tests whether `profile` names a build profile.
pub fn valid_profile(profile: &str) -> (valid: bool)
    ensures
        valid == is_profile(profile@),
{
    same_text(profile, "debug") || same_text(profile, "release") || same_text(profile, "snapshot")
}

/// The argument that selects `profile` in a build.
pub fn build_flag(profile: &str) -> (flag: &'static str)
    ensures
        flag@ == profile_flag(profile@),
{
    if same_text(profile, "release") {
        "--release"
    } else if same_text(profile, "snapshot") {
        "--profile=snapshot"
    } else {
        proof {
            reveal_strlit("");
        }
        assert(""@ =~= Seq::<char>::empty());
        ""
    }
}

/// The path of the binary that a build with `profile` leaves.
pub fn binary_path(profile: &str) -> (path: &'static str)
    ensures
        path@ == profile_binary(profile@),
{
    if same_text(profile, "release") {
        "target/release/noviq"
    } else if same_text(profile, "snapshot") {
        "target/snapshot/noviq"
    } else {
        "target/debug/noviq"
    }
}

/// The name under which the binary is installed that printed `output` when
/// asked for its version.
pub fn install_name(output: Option<&str>, os: &str, arch: &str, ext: &str) -> (name: String)
    ensures
        name@ == installed_name(
            binary_version(
                match output {
                    Some(text) => Some(text@),
                    None => None,
                },
            ),
            os@,
            arch@,
            ext@,
        ),
{
    let version = match output {
        Some(text) => nth_word(text, 1),
        None => String::from_str("unknown"),
    };
    let mut name = String::from_str("libs/noviq-");
    name.append(version.as_str());
    name.append("-");
    name.append(os);
    name.append("-");
    name.append(arch);
    name.append(ext);
    name
}

} // verus!
