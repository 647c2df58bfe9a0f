//! The version text of a build.
//!
//! A release build is `nebula-X.Y.Z`; a debug build adds `-pulsar.` and the
//! date of the day; a snapshot build adds the build number behind the date.

use vstd::prelude::*;

verus! {

/// The version text of a release build.
pub open spec fn release_text(package_version: Seq<char>) -> Seq<char> {
    "nebula-"@ + package_version
}

/// The version text of a debug build made on `date`.
pub open spec fn debug_text(package_version: Seq<char>, date: Seq<char>) -> Seq<char> {
    release_text(package_version) + "-pulsar."@ + date
}

/// The version text of a snapshot build made on `date` with the build
/// number `build`.
pub open spec fn snapshot_text(
    package_version: Seq<char>,
    date: Seq<char>,
    build: Seq<char>,
) -> Seq<char> {
    debug_text(package_version, date) + "."@ + build
}

/// The build number for a commit hash, where one is known.
pub open spec fn build_number_text(git_hash: Option<Seq<char>>) -> Seq<char> {
    match git_hash {
        Some(hash) => hash,
        None => "dev"@,
    }
}

/// The characters of a commit hash, where one is given.
pub open spec fn hash_text(git_hash: Option<&str>) -> Option<Seq<char>> {
    match git_hash {
        Some(hash) => Some(hash@),
        None => None,
    }
}

/// The version text for a build of the given kind. A snapshot build goes
/// before a debug build.
pub open spec fn version_text(
    package_version: Seq<char>,
    snapshot: bool,
    debug: bool,
    date: Seq<char>,
    git_hash: Option<Seq<char>>,
) -> Seq<char> {
    if snapshot {
        snapshot_text(package_version, date, build_number_text(git_hash))
    } else if debug {
        debug_text(package_version, date)
    } else {
        release_text(package_version)
    }
}

/// `chrono::Local::now`, written out by `DateTime::format` with the
/// pattern `%y%m%d`: the local date of the moment of the call. Nothing is
/// claimed of the text, which differs from call to call.
#[verifier::external_body]
fn local_date() -> (date: String) {
    chrono::Local::now().format("%y%m%d").to_string()
}

/// The build number: the short commit hash where it is known, else `dev`.
pub fn get_build_number(git_hash: Option<&str>) -> (build: String)
    ensures
        build@ == build_number_text(
            hash_text(git_hash),
        ),
{
    match git_hash {
        Some(hash) => String::from_str(hash),
        None => String::from_str("dev"),
    }
}

/// The version text for a build of the given kind, made on `date`.
pub fn format_version(
    package_version: &str,
    snapshot: bool,
    debug: bool,
    date: &str,
    git_hash: Option<&str>,
) -> (version: String)
    ensures
        version@ == version_text(
            package_version@,
            snapshot,
            debug,
            date@,
            hash_text(git_hash),
        ),
{
    let mut version = String::from_str("nebula-");
    version.append(package_version);
    if snapshot || debug {
        version.append("-pulsar.");
        version.append(date);
    }
    if snapshot {
        version.append(".");
        version.append(get_build_number(git_hash).as_str());
    }
    version
}

/// The version text of this build, for the package version and the kind
/// of build that the caller knows. A release build has no date in it; any
/// other carries the local date of today.
pub fn get_version(package_version: &str, snapshot: bool, debug: bool, git_hash: Option<&str>) -> (version:
    String)
    ensures
        exists|date: Seq<char>|
            version@ == #[trigger] version_text(
                package_version@,
                snapshot,
                debug,
                date,
                hash_text(git_hash),
            ),
        !snapshot && !debug ==> version@ == release_text(package_version@),
{
    if snapshot || debug {
        let date = local_date();
        format_version(package_version, snapshot, debug, date.as_str(), git_hash)
    } else {
        format_version(package_version, snapshot, debug, "", git_hash)
    }
}

} // verus!
