//! What the build tool asks of the system: the results of its checks, and
//! the test of the compiler's version.

use vstd::prelude::*;
use crate::chars::{
    chars_of, digit, digits, lemma_run_end, lemma_tail_start_is, run_end, same_text, string_of,
    tail_start, unicode_whitespace,
};

verus! {

/// The result of one check of the system.
#[derive(Debug)]
pub struct CheckResult {
    /// What was checked.
    pub name: String,
    /// Whether the check passed.
    pub passed: bool,
    /// The version that was found, if any.
    pub version: Option<String>,
    /// What the user is told.
    pub message: String,
}

/// The text of a check result: `[✓]` or `[✗]`, the name, the version in
/// brackets where there is one, a dash and the message.
pub open spec fn result_text(
    name: Seq<char>,
    passed: bool,
    version: Option<Seq<char>>,
    message: Seq<char>,
) -> Seq<char> {
    let status = if passed {
        "[✓] "@
    } else {
        "[✗] "@
    };
    let found = match version {
        Some(v) => " ("@ + v + ")"@,
        None => Seq::empty(),
    };
    status + name + found + " - "@ + message
}

impl Clone for CheckResult {
    fn clone(&self) -> (r: Self)
        ensures
            r == *self,
    {
        CheckResult {
            name: self.name.clone(),
            passed: self.passed,
            version: match &self.version {
                Some(v) => Some(v.clone()),
                None => None,
            },
            message: self.message.clone(),
        }
    }
}

impl CheckResult {
    /// A check result with the given parts.
    pub fn new(name: &str, passed: bool, version: Option<String>, message: &str) -> (r: CheckResult)
        ensures
            r.name@ == name@,
            r.passed == passed,
            r.version == version,
            r.message@ == message@,
    {
        CheckResult {
            name: String::from_str(name),
            passed,
            version,
            message: String::from_str(message),
        }
    }

    /// The result as one line of text.
    pub fn to_text(&self) -> (s: String)
        ensures
            s@ == result_text(
                self.name@,
                self.passed,
                match self.version {
                    Some(v) => Some(v@),
                    None => None,
                },
                self.message@,
            ),
    {
        let mut s = if self.passed {
            String::from_str("[✓] ")
        } else {
            String::from_str("[✗] ")
        };
        s.append(self.name.as_str());
        match &self.version {
            Some(v) => {
                s.append(" (");
                s.append(v.as_str());
                s.append(")");
            },
            None => {
                assert(s@ + Seq::<char>::empty() =~= s@);
            },
        }
        s.append(" - ");
        s.append(self.message.as_str());
        s
    }
}

/// The number that a run of decimal digits stands for.
pub open spec fn digits_value(s: Seq<char>) -> nat
    decreases s.len(),
{
    if s.len() == 0 {
        0
    } else {
        digits_value(s.drop_last()) * 10 + (s.last() as nat - '0' as nat) as nat
    }
}

/// The number that a run of digits stands for, where it is a run of
/// digits, is not empty and fits 32 bits.
pub open spec fn digits_u32(body: Seq<char>) -> Option<nat> {
    if body.len() > 0 && run_end(body, 0, digits()) == body.len() && digits_value(body)
        <= u32::MAX {
        Some(digits_value(body))
    } else {
        None
    }
}

/// The number that `s` stands for as an unsigned 32-bit decimal: digits
/// alone, or `+` and digits, with a value that fits. Any other text stands
/// for no number.
pub open spec fn parsed_u32(s: Seq<char>) -> Option<nat> {
    digits_u32(
        if s.len() > 0 && s[0] == '+' {
            s.subrange(1, s.len() as int)
        } else {
            s
        },
    )
}

/// The class of every character but the point.
pub open spec fn no_point() -> spec_fn(char) -> bool {
    |c: char| c != '.'
}

/// The class of every character but the point and the hyphen.
pub open spec fn no_point_or_hyphen() -> spec_fn(char) -> bool {
    |c: char| c != '.' && c != '-'
}

/// The number that a part of a version stands for; zero where it stands
/// for none.
pub open spec fn part_value(s: Seq<char>) -> nat {
    match parsed_u32(s) {
        Some(n) => n,
        None => 0,
    }
}

/// Whether `s` names a compiler of version 1.70 or later.
///
/// The text is cut at its points. The first part is the major version. The
/// second, up to a hyphen if it has one, is the minor version. A part that
/// is no number counts as zero, and a text without a point names no
/// version.
pub open spec fn is_sufficient_version(s: Seq<char>) -> bool {
    let point = run_end(s, 0, no_point());
    if point >= s.len() {
        false
    } else {
        let major = part_value(s.subrange(0, point));
        let minor = part_value(
            s.subrange(point + 1, run_end(s, point + 1, no_point_or_hyphen())),
        );
        major > 1 || (major == 1 && minor >= 70)
    }
}

/// The value of a run of digits grows with the run.
proof fn lemma_digits_value_prefix(s: Seq<char>, n: int)
    requires
        0 <= n <= s.len(),
    ensures
        digits_value(s.subrange(0, n)) <= digits_value(s),
    decreases s.len() - n,
{
    if n < s.len() {
        lemma_digits_value_prefix(s, n + 1);
        let t = s.subrange(0, n + 1);
        assert(t.drop_last() =~= s.subrange(0, n));
    } else {
        assert(s.subrange(0, n) =~= s);
    }
}

/// Reads the characters `v[from..to]` as an unsigned 32-bit decimal.
fn parse_u32(v: &Vec<char>, from: usize, to: usize) -> (r: Option<u32>)
    requires
        from <= to <= v.len(),
    ensures
        match parsed_u32(v@.subrange(from as int, to as int)) {
            Some(n) => r == Some(n as u32),
            None => r is None,
        },
{
    let ghost text = v@.subrange(from as int, to as int);
    let start = if from < to && v[from] == '+' {
        from + 1
    } else {
        from
    };
    let ghost body = v@.subrange(start as int, to as int);
    assert(body =~= if text.len() > 0 && text[0] == '+' {
        text.subrange(1, text.len() as int)
    } else {
        text
    });
    let ghost goal = parsed_u32(text);
    assert(goal == digits_u32(body));
    if start == to {
        return None;
    }
    let mut value: u64 = 0;
    let mut i: usize = start;
    assert(body.subrange(0, 0) =~= Seq::<char>::empty());
    while i < to
        invariant
            start <= i <= to <= v.len(),
            body == v@.subrange(start as int, to as int),
            goal == digits_u32(body),
            goal == parsed_u32(v@.subrange(from as int, to as int)),
            run_end(body, i - start, digits()) == run_end(body, 0, digits()),
            value == digits_value(body.subrange(0, i - start)),
            value <= u32::MAX,
        decreases to - i,
    {
        let c = v[i];
        assert(body[i - start] == c);
        if !digit(c) {
            proof {
                lemma_run_end(body, 0, digits());
            }
            return None;
        }
        let ghost prefix = body.subrange(0, i - start + 1);
        assert(prefix.drop_last() =~= body.subrange(0, i - start));
        assert(prefix.last() == c);
        let d: u64 = (c as u32 - '0' as u32) as u64;
        value = value * 10 + d;
        if value > u32::MAX as u64 {
            proof {
                lemma_digits_value_prefix(body, i - start + 1);
            }
            return None;
        }
        i += 1;
    }
    proof {
        assert(body.subrange(0, to - start) =~= body);
        lemma_run_end(body, 0, digits());
    }
    Some(value as u32)
}

/// The end of the version part that starts at `from`: the first point at
/// or after it, or the first hyphen where `stop_at_hyphen` is set, or the
/// end of the text.
fn part_end(v: &Vec<char>, from: usize, stop_at_hyphen: bool) -> (end: usize)
    requires
        from <= v.len(),
    ensures
        from <= end <= v.len(),
        end == run_end(
            v@,
            from as int,
            if stop_at_hyphen {
                no_point_or_hyphen()
            } else {
                no_point()
            },
        ),
{
    let mut i: usize = from;
    let ghost class = if stop_at_hyphen {
        no_point_or_hyphen()
    } else {
        no_point()
    };
    while i < v.len() && v[i] != '.' && !(stop_at_hyphen && v[i] == '-')
        invariant
            from <= i <= v.len(),
            class == if stop_at_hyphen {
                no_point_or_hyphen()
            } else {
                no_point()
            },
            run_end(v@, i as int, class) == run_end(v@, from as int, class),
        decreases v.len() - i,
    {
        i += 1;
    }
    i
}

/// Tests whether `version_str` names a compiler of version 1.70 or later.
pub fn check_rust_version(version_str: &str) -> (sufficient: bool)
    ensures
        sufficient == is_sufficient_version(version_str@),
{
    let v = chars_of(version_str);
    let point = part_end(&v, 0, false);
    if point >= v.len() {
        return false;
    }
    let major = match parse_u32(&v, 0, point) {
        Some(n) => n,
        None => 0,
    };
    let minor_end = part_end(&v, point + 1, true);
    let minor = match parse_u32(&v, point + 1, minor_end) {
        Some(n) => n,
        None => 0,
    };
    major > 1 || (major == 1 && minor >= 70)
}

/// Whether every check that the build cannot do without has passed. The
/// check named `LLVM` is the one that may fail.
pub open spec fn critical_passed(results: Seq<CheckResult>) -> bool {
    forall|i: int|
        0 <= i < results.len() ==> (#[trigger] results[i]).passed || results[i].name@ == "LLVM"@
}

/// Tests whether every check that the build cannot do without has passed.
pub fn all_critical_passed(results: &Vec<CheckResult>) -> (passed: bool)
    ensures
        passed == critical_passed(results@),
{
    let mut i: usize = 0;
    while i < results.len()
        invariant
            i <= results.len(),
            forall|k: int|
                0 <= k < i ==> (#[trigger] results[k]).passed || results[k].name@ == "LLVM"@,
        decreases results.len() - i,
    {
        if !results[i].passed && !same_text(results[i].name.as_str(), "LLVM") {
            return false;
        }
        i += 1;
    }
    true
}

/// The class of white space.
pub open spec fn spaces() -> spec_fn(char) -> bool {
    |c: char| unicode_whitespace(c)
}

/// The class of every character but white space.
pub open spec fn word_chars() -> spec_fn(char) -> bool {
    |c: char| !unicode_whitespace(c)
}

/// The word of index `n`, counted from zero, among the words of `s` that
/// start at or after index `pos`; words are what white space separates.
pub open spec fn word_from(s: Seq<char>, pos: int, n: nat) -> Option<Seq<char>>
    decreases n,
{
    let start = run_end(s, pos, spaces());
    let end = run_end(s, start, word_chars());
    if start < 0 || start >= s.len() {
        None
    } else if n == 0 {
        Some(s.subrange(start, end))
    } else {
        word_from(s, end, (n - 1) as nat)
    }
}

/// The word of index `n` of `s`, or `unknown` where `s` has no such word.
pub open spec fn word_or_unknown(s: Seq<char>, n: nat) -> Seq<char> {
    match word_from(s, 0, n) {
        Some(word) => word,
        None => "unknown"@,
    }
}

/// `s` without the white space at its start and at its end.
pub open spec fn trimmed(s: Seq<char>) -> Seq<char> {
    let start = run_end(s, 0, spaces());
    let rest = s.subrange(start, s.len() as int);
    rest.subrange(0, tail_start(rest, spaces()))
}

/// The end of the run of white space, or of what is none, from `from` on.
fn run_of(v: &Vec<char>, from: usize, space: bool) -> (end: usize)
    requires
        from <= v.len(),
    ensures
        from <= end <= v.len(),
        end == run_end(
            v@,
            from as int,
            if space {
                spaces()
            } else {
                word_chars()
            },
        ),
{
    let mut i: usize = from;
    let ghost class = if space {
        spaces()
    } else {
        word_chars()
    };
    while i < v.len() && v[i].is_whitespace() == space
        invariant
            from <= i <= v.len(),
            class == if space {
                spaces()
            } else {
                word_chars()
            },
            run_end(v@, i as int, class) == run_end(v@, from as int, class),
        decreases v.len() - i,
    {
        i += 1;
    }
    i
}

/// The word of index `n`, counted from zero, among the words of `text`; or
/// `unknown` where the text has fewer words.
pub fn nth_word(text: &str, n: usize) -> (word: String)
    ensures
        word@ == word_or_unknown(text@, n as nat),
{
    let v = chars_of(text);
    let mut pos: usize = 0;
    let mut left: usize = n;
    loop
        invariant
            pos <= v.len(),
            v@ == text@,
            word_from(v@, pos as int, left as nat) == word_from(v@, 0, n as nat),
        decreases left,
    {
        let start = run_of(&v, pos, true);
        if start >= v.len() {
            return String::from_str("unknown");
        }
        let end = run_of(&v, start, false);
        if left == 0 {
            return string_of(&v, start, end);
        }
        pos = end;
        left -= 1;
    }
}

/// `text` without the white space at its start and at its end.
pub fn trim(text: &str) -> (t: String)
    ensures
        t@ == trimmed(text@),
{
    let v = chars_of(text);
    let start = run_of(&v, 0, true);
    let ghost rest = v@.subrange(start as int, v.len() as int);
    let mut end: usize = v.len();
    while end > start && v[end - 1].is_whitespace()
        invariant
            start <= end <= v.len(),
            forall|k: int| end <= k < v.len() ==> unicode_whitespace(v[k]),
        decreases end,
    {
        end -= 1;
    }
    proof {
        let n = end - start;
        assert forall|k: int| n <= k < rest.len() implies spaces()(#[trigger] rest[k]) by {
            assert(rest[k] == v[k + start]);
        }
        if n > 0 {
            assert(rest[n - 1] == v[end - 1]);
        }
        lemma_tail_start_is(rest, n, spaces());
        assert(rest.subrange(0, n) =~= v@.subrange(start as int, end as int));
    }
    string_of(&v, start, end)
}

/// What the check of a tool that prints its version gives.
///
/// `output` is what the tool printed when asked for its version, or `None`
/// where it could not be run or failed. `word` is the index of the word of
/// the output that is the version.
pub open spec fn tool_result(
    name: Seq<char>,
    output: Option<Seq<char>>,
    word: nat,
    missing: Seq<char>,
) -> (Seq<char>, bool, Option<Seq<char>>, Seq<char>) {
    match output {
        Some(text) => (name, true, Some(word_or_unknown(text, word)), "Available"@),
        None => (name, false, None, missing),
    }
}

/// What the check of the compiler gives: as for any tool, but a version
/// before 1.70 fails the check.
pub open spec fn rust_result(output: Option<Seq<char>>) -> (
    Seq<char>,
    bool,
    Option<Seq<char>>,
    Seq<char>,
) {
    match output {
        Some(text) => {
            let version = word_or_unknown(text, 1);
            if is_sufficient_version(version) {
                ("Rust Compiler"@, true, Some(version), "Available"@)
            } else {
                ("Rust Compiler"@, false, Some(version), "Version 1.70.0 or higher required"@)
            }
        },
        None => ("Rust Compiler"@, false, None, "Not found - Install from https://rustup.rs"@),
    }
}

/// What the check of LLVM gives. It passes in any case: LLVM is not needed.
pub open spec fn llvm_result(output: Option<Seq<char>>) -> (
    Seq<char>,
    bool,
    Option<Seq<char>>,
    Seq<char>,
) {
    match output {
        Some(text) => ("LLVM"@, true, Some(trimmed(text)), "Available (optional)"@),
        None => ("LLVM"@, true, None, "Not found (optional for future JIT support)"@),
    }
}

/// The characters of what a tool printed, where it printed anything.
pub open spec fn output_text(output: Option<&str>) -> Option<Seq<char>> {
    match output {
        Some(text) => Some(text@),
        None => None,
    }
}

impl CheckResult {
    /// The parts of the result, as mathematical values.
    pub open spec fn parts(&self) -> (Seq<char>, bool, Option<Seq<char>>, Seq<char>) {
        (
            self.name@,
            self.passed,
            match self.version {
                Some(v) => Some(v@),
                None => None,
            },
            self.message@,
        )
    }
}

/// The result of the check of the compiler, from what `rustc --version`
/// printed.
pub fn check_rust(output: Option<&str>) -> (r: CheckResult)
    ensures
        r.parts() == rust_result(output_text(output)),
{
    match output {
        Some(text) => {
            let version = nth_word(text, 1);
            if check_rust_version(version.as_str()) {
                CheckResult::new("Rust Compiler", true, Some(version), "Available")
            } else {
                CheckResult::new(
                    "Rust Compiler",
                    false,
                    Some(version),
                    "Version 1.70.0 or higher required",
                )
            }
        },
        None => CheckResult::new(
            "Rust Compiler",
            false,
            None,
            "Not found - Install from https://rustup.rs",
        ),
    }
}

/// The result of the check of Cargo, from what `cargo --version` printed.
pub fn check_cargo(output: Option<&str>) -> (r: CheckResult)
    ensures
        r.parts() == tool_result(
            "Cargo"@,
            output_text(output),
            1,
            "Not found - Install with Rust from https://rustup.rs"@,
        ),
{
    match output {
        Some(text) => CheckResult::new("Cargo", true, Some(nth_word(text, 1)), "Available"),
        None => CheckResult::new(
            "Cargo",
            false,
            None,
            "Not found - Install with Rust from https://rustup.rs",
        ),
    }
}

/// The result of the check of Git, from what `git --version` printed.
pub fn check_git(output: Option<&str>) -> (r: CheckResult)
    ensures
        r.parts() == tool_result(
            "Git"@,
            output_text(output),
            2,
            "Not found - Install from https://git-scm.com"@,
        ),
{
    match output {
        Some(text) => CheckResult::new("Git", true, Some(nth_word(text, 2)), "Available"),
        None => CheckResult::new("Git", false, None, "Not found - Install from https://git-scm.com"),
    }
}

/// The result of the check of LLVM, from what `llvm-config --version`
/// printed.
pub fn check_llvm(output: Option<&str>) -> (r: CheckResult)
    ensures
        r.parts() == llvm_result(output_text(output)),
{
    match output {
        Some(text) => CheckResult::new("LLVM", true, Some(trim(text)), "Available (optional)"),
        None => CheckResult::new(
            "LLVM",
            true,
            None,
            "Not found (optional for future JIT support)",
        ),
    }
}

/// The results of the four checks, in the order compiler, Cargo, Git and
/// LLVM, from what each tool printed when asked for its version.
pub fn run_all_checks(
    rustc: Option<&str>,
    cargo: Option<&str>,
    git: Option<&str>,
    llvm: Option<&str>,
) -> (results: Vec<CheckResult>)
    ensures
        results.len() == 4,
        results[0].parts() == rust_result(output_text(rustc)),
        results[1].parts() == tool_result(
            "Cargo"@,
            output_text(cargo),
            1,
            "Not found - Install with Rust from https://rustup.rs"@,
        ),
        results[2].parts() == tool_result(
            "Git"@,
            output_text(git),
            2,
            "Not found - Install from https://git-scm.com"@,
        ),
        results[3].parts() == llvm_result(output_text(llvm)),
{
    let mut results: Vec<CheckResult> = Vec::new();
    results.push(check_rust(rustc));
    results.push(check_cargo(cargo));
    results.push(check_git(git));
    results.push(check_llvm(llvm));
    results
}

/// Whether a result is reported as missing: it failed, and where only
/// what the build cannot do without is asked for, it is not LLVM's.
pub open spec fn is_missing(r: CheckResult, critical_only: bool) -> bool {
    !r.passed && (!critical_only || r.name@ != "LLVM"@)
}

/// The line that reports a missing requirement.
pub open spec fn missing_line(r: CheckResult) -> Seq<char> {
    "  \u{2022} "@ + r.name@ + " - "@ + r.message@
}

/// The lines that report the missing requirements among `results`, in the
/// order of the results.
pub open spec fn missing_lines(results: Seq<CheckResult>, critical_only: bool) -> Seq<Seq<char>>
    decreases results.len(),
{
    if results.len() == 0 {
        Seq::empty()
    } else {
        let before = missing_lines(results.drop_last(), critical_only);
        if is_missing(results.last(), critical_only) {
            before.push(missing_line(results.last()))
        } else {
            before
        }
    }
}

/// The texts of a list of lines, in order.
pub open spec fn line_views(lines: Seq<String>) -> Seq<Seq<char>> {
    Seq::new(lines.len(), |i: int| lines[i]@)
}

/// The lines that report the missing requirements among `results`: one for
/// each failed check, or, with `critical_only`, for each failed check but
/// LLVM's.
pub fn missing_requirements(results: &Vec<CheckResult>, critical_only: bool) -> (lines: Vec<String>)
    ensures
        line_views(lines@) == missing_lines(results@, critical_only),
{
    let mut lines: Vec<String> = Vec::new();
    let mut i: usize = 0;
    assert(results@.subrange(0, 0) =~= Seq::<CheckResult>::empty());
    assert(line_views(lines@) =~= Seq::<Seq<char>>::empty());
    while i < results.len()
        invariant
            i <= results.len(),
            line_views(lines@) == missing_lines(results@.subrange(0, i as int), critical_only),
        decreases results.len() - i,
    {
        let ghost before = line_views(lines@);
        let ghost upto = results@.subrange(0, i + 1);
        assert(upto.drop_last() =~= results@.subrange(0, i as int));
        assert(upto.last() == results[i as int]);
        let r = &results[i];
        if !r.passed && (!critical_only || !same_text(r.name.as_str(), "LLVM")) {
            let mut line = String::from_str("  \u{2022} ");
            line.append(r.name.as_str());
            line.append(" - ");
            line.append(r.message.as_str());
            lines.push(line);
            assert(line_views(lines@) =~= before.push(missing_line(*r)));
        }
        i += 1;
    }
    assert(results@.subrange(0, i as int) =~= results@);
    lines
}

} // verus!
