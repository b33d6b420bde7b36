//! Recipe sources and the validation of the packages a recipe lists.
use vstd::prelude::*;
use crate::models::BrewPackage;
use crate::text::{
    chars_of, decimal, format_decimal, has_prefix, is_ascii_alphanumeric, is_ascii_digit, is_blank,
    is_web_url, starts_with_web_scheme, trim,
};

verus! {

broadcast use vstd::seq_lib::group_seq_properties;

/// `reqwest::Error`, carried opaquely inside `FetchError`.
#[verifier::external_type_specification]
#[verifier::external_body]
pub struct ExReqwestError(reqwest::Error);

/// `std::io::Error`, carried opaquely inside `FetchError` and `LockError`.
#[verifier::external_type_specification]
#[verifier::external_body]
pub struct ExIoError(std::io::Error);

/// `serde_json::Error`, carried opaquely inside `FetchError`.
#[verifier::external_type_specification]
#[verifier::external_body]
pub struct ExJsonError(serde_json::Error);

/// Why a recipe could not be fetched or was refused.
#[derive(Debug)]
pub enum FetchError {
    NetworkError(reqwest::Error),
    FileError(std::io::Error),
    ParseError(serde_json::Error),
    InvalidUrl(String),
    FetchFailed { url: String, source: Box<FetchError> },
}

impl From<reqwest::Error> for FetchError {
    fn from(err: reqwest::Error) -> (r: FetchError) {
        FetchError::NetworkError(err)
    }
}

impl vstd::std_specs::convert::FromSpecImpl<reqwest::Error> for FetchError {
    open spec fn obeys_from_spec() -> bool {
        true
    }

    open spec fn from_spec(v: reqwest::Error) -> FetchError {
        FetchError::NetworkError(v)
    }
}

impl From<std::io::Error> for FetchError {
    fn from(err: std::io::Error) -> (r: FetchError) {
        FetchError::FileError(err)
    }
}

impl vstd::std_specs::convert::FromSpecImpl<std::io::Error> for FetchError {
    open spec fn obeys_from_spec() -> bool {
        true
    }

    open spec fn from_spec(v: std::io::Error) -> FetchError {
        FetchError::FileError(v)
    }
}

impl From<serde_json::Error> for FetchError {
    fn from(err: serde_json::Error) -> (r: FetchError) {
        FetchError::ParseError(err)
    }
}

impl vstd::std_specs::convert::FromSpecImpl<serde_json::Error> for FetchError {
    open spec fn obeys_from_spec() -> bool {
        true
    }

    open spec fn from_spec(v: serde_json::Error) -> FetchError {
        FetchError::ParseError(v)
    }
}

/// Trusted: the `Display` text of a `reqwest::Error`. Nothing is stated of it: it carries
/// the text of the underlying connection or HTTP failure.
#[verifier::external_body]
fn network_error_text(e: &reqwest::Error) -> (r: String) {
    e.to_string()
}

/// Trusted: the `Display` text of a `std::io::Error`. Nothing is stated of it: for errors of
/// the operating system it holds the system's own description.
#[verifier::external_body]
pub(crate) fn io_error_text(e: &std::io::Error) -> (r: String) {
    e.to_string()
}

/// Trusted: the `Display` text of a `serde_json::Error`. Nothing is stated of it: it
/// describes the syntax or data error and where it occurred.
#[verifier::external_body]
fn json_error_text(e: &serde_json::Error) -> (r: String) {
    e.to_string()
}

impl FetchError {
    /// The error as shown to the user: `Network error: `, `File error: ` or
    /// `JSON parse error: ` followed by the underlying error's text, `Invalid URL or file path: `
    /// followed by the complaint, or `Failed to fetch <url>: ` followed by the message of
    /// what went wrong with that source.
    pub fn message(&self) -> (r: String)
        ensures
            match self {
                FetchError::NetworkError(_) => has_prefix(r@, "Network error: "@),
                FetchError::FileError(_) => has_prefix(r@, "File error: "@),
                FetchError::ParseError(_) => has_prefix(r@, "JSON parse error: "@),
                FetchError::InvalidUrl(s) => r@ == "Invalid URL or file path: "@ + s@,
                FetchError::FetchFailed { url, source: _ } => has_prefix(
                    r@,
                    "Failed to fetch "@ + url@ + ": "@,
                ),
            },
        decreases self,
    {
        match self {
            FetchError::NetworkError(e) => {
                let r = String::from_str("Network error: ").concat(network_error_text(e).as_str());
                assert(r@.subrange(0, "Network error: "@.len() as int) == "Network error: "@);
                r
            },
            FetchError::FileError(e) => {
                let r = String::from_str("File error: ").concat(io_error_text(e).as_str());
                assert(r@.subrange(0, "File error: "@.len() as int) == "File error: "@);
                r
            },
            FetchError::ParseError(e) => {
                let r = String::from_str("JSON parse error: ").concat(json_error_text(e).as_str());
                assert(r@.subrange(0, "JSON parse error: "@.len() as int) == "JSON parse error: "@);
                r
            },
            FetchError::InvalidUrl(s) => String::from_str("Invalid URL or file path: ").concat(s.as_str()),
            FetchError::FetchFailed { url, source } => {
                let head = String::from_str("Failed to fetch ").concat(url.as_str()).concat(": ");
                let inner = source.message();
                let r = head.concat(inner.as_str());
                assert(r@.subrange(0, head@.len() as int) == head@);
                r
            },
        }
    }
}

/// What `char::is_alphanumeric` answers for `c` (Unicode `Alphabetic` or `Numeric`).
pub uninterp spec fn char_is_alphanumeric(c: char) -> bool;

/// Whether `char::is_alphanumeric` accepts `c`: for ASCII characters exactly the letters and
/// digits, otherwise what std answers (see `char_is_alphanumeric`).
pub open spec fn alphanumeric(c: char) -> bool {
    if (c as u32) < 0x80 {
        is_ascii_alphanumeric(c)
    } else {
        char_is_alphanumeric(c)
    }
}

/// Trusted: `char::is_alphanumeric` from std. The result is the name above; for ASCII
/// characters std's own fast path answers exactly the ASCII letters and digits.
#[verifier::external_body]
fn is_alphanumeric(c: char) -> (r: bool)
    ensures
        r == char_is_alphanumeric(c),
        (c as u32) < 0x80 ==> (r <==> is_ascii_alphanumeric(c)),
{
    c.is_alphanumeric()
}

// ---------------------------------------------------------------- versions

/// Index of the first `c` in `s`, or -1 when `c` does not occur.
pub open spec fn first_index_of(s: Seq<char>, c: char) -> int {
    if exists|k: int| 0 <= k < s.len() && s[k] == c && (forall|j: int| 0 <= j < k ==> s[j] != c) {
        choose|k: int| 0 <= k < s.len() && s[k] == c && (forall|j: int| 0 <= j < k ==> s[j] != c)
    } else {
        -1
    }
}

/// The part of a version before its first `-` (all of it when there is none).
pub open spec fn version_core(v: Seq<char>) -> Seq<char> {
    let k = first_index_of(v, '-');
    if k < 0 {
        v
    } else {
        v.subrange(0, k)
    }
}

/// The pre-release part of a version: what follows its first `-`, if any.
pub open spec fn version_pre_release(v: Seq<char>) -> Option<Seq<char>> {
    let k = first_index_of(v, '-');
    if k < 0 {
        None
    } else {
        Some(v.subrange(k + 1, v.len() as int))
    }
}

/// The pieces of `s` between occurrences of `sep`, as `str::split` yields them.
pub open spec fn split_on(s: Seq<char>, sep: char) -> Seq<Seq<char>>
    decreases s.len(),
{
    if s.len() == 0 {
        seq![Seq::<char>::empty()]
    } else {
        let rest = split_on(s.drop_last(), sep);
        if s.last() == sep {
            rest.push(Seq::<char>::empty())
        } else {
            rest.update(rest.len() - 1, rest.last().push(s.last()))
        }
    }
}

/// Value of an ASCII decimal digit.
pub open spec fn digit_value(c: char) -> int {
    c as int - '0' as int
}

/// Value of a string of decimal digits.
pub open spec fn digits_value(d: Seq<char>) -> int
    decreases d.len(),
{
    if d.len() == 0 {
        0
    } else {
        digits_value(d.drop_last()) * 10 + digit_value(d.last())
    }
}

/// The digits `u32::from_str` reads: `s` without one leading `+`.
pub open spec fn unsigned_digits(s: Seq<char>) -> Seq<char> {
    if s.len() > 0 && s[0] == '+' {
        s.drop_first()
    } else {
        s
    }
}

/// `s.parse::<u32>()` succeeds: an optional `+`, then at least one ASCII digit, with a
/// value that fits in 32 bits.
pub open spec fn parses_as_u32(s: Seq<char>) -> bool {
    let d = unsigned_digits(s);
    &&& d.len() > 0
    &&& forall|i: int| 0 <= i < d.len() ==> is_ascii_digit(#[trigger] d[i])
    &&& digits_value(d) <= u32::MAX
}

/// Characters allowed in a pre-release tag.
pub open spec fn pre_release_char_ok(c: char) -> bool {
    alphanumeric(c) || c == '.' || c == '-'
}

/// A version as recipes may pin it: two or three dot-separated numbers, each one a valid
/// `u32`, optionally followed by `-` and a non-empty tag of alphanumerics, dots and dashes.
pub open spec fn valid_version(v: Seq<char>) -> bool {
    let parts = split_on(version_core(v), '.');
    &&& 2 <= parts.len() <= 3
    &&& forall|i: int| 0 <= i < parts.len() ==> parses_as_u32(#[trigger] parts[i])
    &&& match version_pre_release(v) {
        Some(pr) => pr.len() > 0 && forall|i: int|
            0 <= i < pr.len() ==> pre_release_char_ok(#[trigger] pr[i]),
        None => true,
    }
}

/// A string of decimal digits has a value of at least zero.
pub proof fn lemma_digits_value_nonneg(d: Seq<char>)
    requires
        forall|i: int| 0 <= i < d.len() ==> is_ascii_digit(#[trigger] d[i]),
    ensures
        digits_value(d) >= 0,
    decreases d.len(),
{
    if d.len() > 0 {
        lemma_digits_value_nonneg(d.drop_last());
    }
}

/// Whether `s[from..]` parses as a `u32` once a leading `+` is dropped by the caller.
fn digits_fit_u32(s: &Vec<char>, from: usize) -> (r: bool)
    requires
        from <= s.len(),
    ensures
        r == ({
            let d = s@.subrange(from as int, s.len() as int);
            &&& d.len() > 0
            &&& forall|i: int| 0 <= i < d.len() ==> is_ascii_digit(#[trigger] d[i])
            &&& digits_value(d) <= u32::MAX
        }),
{
    let ghost d = s@.subrange(from as int, s.len() as int);
    if from == s.len() {
        return false;
    }
    let cap: u64 = 0x1_0000_0000;
    let mut val: u64 = 0;
    let mut i: usize = from;
    while i < s.len()
        invariant
            from <= i <= s.len(),
            cap == 0x1_0000_0000u64,
            d == s@.subrange(from as int, s.len() as int),
            forall|k: int| 0 <= k < i - from ==> is_ascii_digit(#[trigger] d[k]),
            val <= cap,
            val == if digits_value(d.take(i - from)) < cap {
                digits_value(d.take(i - from))
            } else {
                cap as int
            },
        decreases s.len() - i,
    {
        let c = s[i];
        if !('0' <= c && c <= '9') {
            assert(!is_ascii_digit(d[i - from]));
            return false;
        }
        let dv = (c as u32 - '0' as u32) as u64;
        proof {
            let t = d.take(i - from);
            let t1 = d.take(i - from + 1);
            assert(t1.drop_last() == t);
            assert(t1.last() == c);
            assert(forall|k: int| 0 <= k < t.len() ==> is_ascii_digit(#[trigger] t[k]));
            lemma_digits_value_nonneg(t);
        }
        val = val * 10 + dv;
        if val > cap {
            val = cap;
        }
        i = i + 1;
    }
    proof {
        assert(d.take(d.len() as int) == d);
    }
    val <= 0xFFFF_FFFF
}

/// `s.parse::<u32>().is_ok()`.
fn parses_u32(s: &Vec<char>) -> (r: bool)
    ensures
        r == parses_as_u32(s@),
{
    if s.len() > 0 && s[0] == '+' {
        assert(s@.drop_first() == s@.subrange(1, s.len() as int));
        digits_fit_u32(s, 1)
    } else {
        assert(s@ == s@.subrange(0, s.len() as int));
        digits_fit_u32(s, 0)
    }
}

/// Position of the first `c` in `s`, as `first_index_of` describes it.
pub fn find_first(s: &Vec<char>, c: char) -> (r: Option<usize>)
    ensures
        match r {
            Some(k) => k < s.len() && first_index_of(s@, c) == k,
            None => first_index_of(s@, c) == -1,
        },
{
    let mut i: usize = 0;
    while i < s.len()
        invariant
            i <= s.len(),
            forall|j: int| 0 <= j < i ==> s@[j] != c,
        decreases s.len() - i,
    {
        if s[i] == c {
            proof {
                let k = i as int;
                assert(0 <= k < s@.len() && s@[k] == c && (forall|j: int| 0 <= j < k ==> s@[j] != c));
                let w = first_index_of(s@, c);
                if w != k {
                    assert(w < k || k < w);
                }
            }
            return Some(i);
        }
        i = i + 1;
    }
    None
}

/// Splits `s` at every `sep`, as `str::split` does.
pub fn split_chars(s: &Vec<char>, sep: char) -> (parts: Vec<Vec<char>>)
    ensures
        parts.len() == split_on(s@, sep).len(),
        forall|i: int| 0 <= i < parts.len() ==> (#[trigger] parts@[i])@ == split_on(s@, sep)[i],
{
    let mut parts: Vec<Vec<char>> = Vec::new();
    let mut cur: Vec<char> = Vec::new();
    let mut i: usize = 0;
    while i < s.len()
        invariant
            i <= s.len(),
            split_on(s@.take(i as int), sep).len() == parts.len() + 1,
            forall|k: int|
                0 <= k < parts.len() ==> (#[trigger] parts@[k])@ == split_on(s@.take(i as int), sep)[k],
            cur@ == split_on(s@.take(i as int), sep).last(),
        decreases s.len() - i,
    {
        let c = s[i];
        proof {
            assert(s@.take(i + 1).drop_last() == s@.take(i as int));
            assert(s@.take(i + 1).last() == c);
        }
        if c == sep {
            parts.push(cur);
            cur = Vec::new();
        } else {
            cur.push(c);
        }
        i = i + 1;
    }
    parts.push(cur);
    proof {
        assert(s@.take(s.len() as int) == s@);
    }
    parts
}

/// Whether every character of `s` is allowed in a pre-release tag.
fn pre_release_chars_ok(s: &Vec<char>) -> (r: bool)
    ensures
        r == forall|i: int| 0 <= i < s.len() ==> pre_release_char_ok(#[trigger] s@[i]),
{
    let mut i: usize = 0;
    while i < s.len()
        invariant
            i <= s.len(),
            forall|k: int| 0 <= k < i ==> pre_release_char_ok(#[trigger] s@[k]),
        decreases s.len() - i,
    {
        let c = s[i];
        if !(is_alphanumeric(c) || c == '.' || c == '-') {
            return false;
        }
        i = i + 1;
    }
    true
}

/// Whether `version` is a valid version (see `valid_version`).
pub fn is_valid_version(version: &str) -> (r: bool)
    ensures
        r == valid_version(version@),
{
    let v = chars_of(version);
    let dash = find_first(&v, '-');
    let core = match dash {
        Some(k) => crate::text::sub_chars(&v, 0, k),
        None => crate::text::sub_chars(&v, 0, v.len()),
    };
    proof {
        assert(v@.subrange(0, v.len() as int) == v@);
    }
    assert(core@ == version_core(version@));
    let parts = split_chars(&core, '.');
    if parts.len() < 2 || parts.len() > 3 {
        return false;
    }
    let mut i: usize = 0;
    while i < parts.len()
        invariant
            i <= parts.len(),
            core@ == version_core(version@),
            parts.len() == split_on(core@, '.').len(),
            forall|k: int| 0 <= k < parts.len() ==> (#[trigger] parts@[k])@ == split_on(core@, '.')[k],
            forall|k: int| 0 <= k < i ==> parses_as_u32(#[trigger] split_on(core@, '.')[k]),
        decreases parts.len() - i,
    {
        if !parses_u32(&parts[i]) {
            return false;
        }
        i = i + 1;
    }
    match dash {
        Some(k) => {
            let pr = crate::text::sub_chars(&v, k + 1, v.len());
            assert(version_pre_release(version@) == Some(pr@));
            if pr.len() == 0 {
                return false;
            }
            pre_release_chars_ok(&pr)
        },
        None => true,
    }
}

// ---------------------------------------------------------------- packages

/// A character allowed in a package name.
pub open spec fn name_char_ok(c: char) -> bool {
    alphanumeric(c) || c == '-' || c == '_' || c == '.'
}

/// Every character of `name` is allowed in a package name.
pub open spec fn name_format_ok(name: Seq<char>) -> bool {
    forall|i: int| 0 <= i < name.len() ==> name_char_ok(#[trigger] name[i])
}

/// A package URL is acceptable: absent, blank, or starting with `http://` or `https://`.
pub open spec fn url_ok(url: Option<String>) -> bool {
    match url {
        Some(u) => trim(u@).len() == 0 || is_web_url(u@),
        None => true,
    }
}

/// A package version is acceptable: absent, blank, or a valid version.
pub open spec fn version_ok(version: Option<String>) -> bool {
    match version {
        Some(v) => trim(v@).len() == 0 || valid_version(v@),
        None => true,
    }
}

/// The complaint about a recipe without packages.
pub open spec fn no_packages_message() -> Seq<char> {
    "Recipe file contains no packages"@
}

/// The complaint about a package whose name is blank.
pub open spec fn empty_name_message(index: int) -> Seq<char> {
    "Package at index "@ + decimal(index as nat) + " has empty name"@
}

/// The complaint about a package name with a character outside the allowed ones.
pub open spec fn bad_name_message(name: Seq<char>) -> Seq<char> {
    "Package '"@ + name
        + "' has invalid name format. Use only alphanumeric characters, dots, hyphens, and underscores."@
}

/// The complaint about a package URL that is not a web URL.
pub open spec fn bad_url_message(name: Seq<char>) -> Seq<char> {
    "Package '"@ + name + "' has invalid URL: must start with http:// or https://"@
}

/// The complaint about a version that is not valid.
pub open spec fn bad_version_message(name: Seq<char>, version: Seq<char>) -> Seq<char> {
    "Package '"@ + name + "' has invalid version format: '"@ + version
        + "'. Use semantic versioning (e.g., 1.0.0 or 20.0.0-alpha.1)"@
}

/// The complaint about the package at `index`, from the first check it fails, if any:
/// blank name, name format, URL, version.
pub open spec fn package_problem(p: BrewPackage, index: int) -> Option<Seq<char>> {
    if trim(p.name@).len() == 0 {
        Some(empty_name_message(index))
    } else if !name_format_ok(p.name@) {
        Some(bad_name_message(p.name@))
    } else if !url_ok(p.url) {
        Some(bad_url_message(p.name@))
    } else if !version_ok(p.version) {
        Some(bad_version_message(p.name@, p.version->0@))
    } else {
        None
    }
}

/// The first complaint about the packages from position `i` on.
pub open spec fn problem_from(packages: Seq<BrewPackage>, i: int) -> Option<Seq<char>>
    decreases packages.len() - i,
{
    if i < 0 || i >= packages.len() {
        None
    } else if package_problem(packages[i], i) is Some {
        package_problem(packages[i], i)
    } else {
        problem_from(packages, i + 1)
    }
}

/// Why a recipe is refused, if it is: it is empty, or the first package that fails a
/// check says which check.
pub open spec fn recipe_problem(packages: Seq<BrewPackage>) -> Option<Seq<char>> {
    if packages.len() == 0 {
        Some(no_packages_message())
    } else {
        problem_from(packages, 0)
    }
}

/// Whether every character of `name` is allowed in a package name.
fn name_chars_ok(name: &str) -> (r: bool)
    ensures
        r == name_format_ok(name@),
{
    let v = chars_of(name);
    let mut i: usize = 0;
    while i < v.len()
        invariant
            i <= v.len(),
            v@ == name@,
            forall|k: int| 0 <= k < i ==> name_char_ok(#[trigger] v@[k]),
        decreases v.len() - i,
    {
        let c = v[i];
        if !(is_alphanumeric(c) || c == '-' || c == '_' || c == '.') {
            return false;
        }
        i = i + 1;
    }
    true
}

/// The complaint about one package, as `package_problem` states it.
fn check_package(p: &BrewPackage, index: usize) -> (r: Option<String>)
    ensures
        match r {
            Some(m) => package_problem(*p, index as int) == Some(m@),
            None => package_problem(*p, index as int) is None,
        },
{
    if is_blank(p.name.as_str()) {
        let m = String::from_str("Package at index ").concat(format_decimal(index).as_str()).concat(
            " has empty name",
        );
        return Some(m);
    }
    if !name_chars_ok(p.name.as_str()) {
        let m = String::from_str("Package '").concat(p.name.as_str()).concat(
            "' has invalid name format. Use only alphanumeric characters, dots, hyphens, and underscores.",
        );
        return Some(m);
    }
    match &p.url {
        Some(u) => {
            if !is_blank(u.as_str()) && !starts_with_web_scheme(u.as_str()) {
                let m = String::from_str("Package '").concat(p.name.as_str()).concat(
                    "' has invalid URL: must start with http:// or https://",
                );
                return Some(m);
            }
        },
        None => {},
    }
    match &p.version {
        Some(v) => {
            if !is_blank(v.as_str()) && !is_valid_version(v.as_str()) {
                let m = String::from_str("Package '").concat(p.name.as_str()).concat(
                    "' has invalid version format: '",
                ).concat(v.as_str()).concat(
                    "'. Use semantic versioning (e.g., 1.0.0 or 20.0.0-alpha.1)",
                );
                return Some(m);
            }
        },
        None => {},
    }
    None
}

/// Checks a recipe: it must list at least one package, and every package needs a non-blank
/// name of alphanumerics, dots, hyphens and underscores, a URL (when present and not blank)
/// starting with `http://` or `https://`, and a version (when present and not blank) that is
/// valid. The error names the first offending package and check.
pub fn validate_packages(packages: &Vec<BrewPackage>) -> (r: Result<(), FetchError>)
    ensures
        match r {
            Ok(()) => recipe_problem(packages@) is None,
            Err(FetchError::InvalidUrl(m)) => recipe_problem(packages@) == Some(m@),
            Err(_) => false,
        },
{
    if packages.len() == 0 {
        return Err(FetchError::InvalidUrl(String::from_str("Recipe file contains no packages")));
    }
    let mut i: usize = 0;
    while i < packages.len()
        invariant
            0 < packages.len(),
            i <= packages.len(),
            problem_from(packages@, 0) == problem_from(packages@, i as int),
        decreases packages.len() - i,
    {
        match check_package(&packages[i], i) {
            Some(m) => {
                return Err(FetchError::InvalidUrl(m));
            },
            None => {},
        }
        i = i + 1;
    }
    Ok(())
}

/// Law: a recipe is accepted exactly when it is not empty and each of its packages passes
/// every check on its own.
pub proof fn lemma_recipe_accepted_iff_all_packages_pass(packages: Seq<BrewPackage>)
    ensures
        recipe_problem(packages) is None <==> (packages.len() > 0 && forall|i: int|
            0 <= i < packages.len() ==> (#[trigger] package_problem(packages[i], i)) is None),
{
    if packages.len() > 0 {
        lemma_problem_from_none(packages, 0);
    }
}

proof fn lemma_problem_from_none(packages: Seq<BrewPackage>, i: int)
    requires
        0 <= i <= packages.len(),
    ensures
        problem_from(packages, i) is None <==> forall|k: int|
            i <= k < packages.len() ==> (#[trigger] package_problem(packages[k], k)) is None,
    decreases packages.len() - i,
{
    if i < packages.len() {
        lemma_problem_from_none(packages, i + 1);
    }
}

/// A package passes every check on its own; where it stands in the recipe does not matter.
pub open spec fn package_ok(p: BrewPackage) -> bool {
    package_problem(p, 0) is None
}

proof fn lemma_package_ok_anywhere(p: BrewPackage, i: int)
    ensures
        (package_problem(p, i) is None) == package_ok(p),
{
}

/// A non-empty list is accepted exactly when every package in it passes on its own.
proof fn lemma_accepted_iff_each_ok(packages: Seq<BrewPackage>)
    requires
        packages.len() > 0,
    ensures
        recipe_problem(packages) is None <==> forall|i: int|
            0 <= i < packages.len() ==> package_ok(#[trigger] packages[i]),
{
    lemma_recipe_accepted_iff_all_packages_pass(packages);
    assert forall|i: int| 0 <= i < packages.len() implies (package_problem(packages[i], i) is None)
        == package_ok(#[trigger] packages[i]) by {
        lemma_package_ok_anywhere(packages[i], i);
    }
}

/// Law: whether a recipe is accepted does not depend on how its packages are grouped or
/// ordered: two non-empty recipes put one after the other are accepted exactly when each is,
/// and any reordering of a recipe is accepted exactly when the recipe is.
pub proof fn lemma_acceptance_ignores_grouping_and_order(
    a: Seq<BrewPackage>,
    b: Seq<BrewPackage>,
    q: Seq<BrewPackage>,
)
    requires
        a.len() > 0,
        b.len() > 0,
        q.to_multiset() == a.to_multiset(),
    ensures
        (recipe_problem(a + b) is None) == (recipe_problem(a) is None && recipe_problem(b) is None),
        (recipe_problem(q) is None) == (recipe_problem(a) is None),
{
    broadcast use vstd::seq_lib::group_to_multiset_ensures;

    let ab = a + b;
    lemma_accepted_iff_each_ok(a);
    lemma_accepted_iff_each_ok(b);
    lemma_accepted_iff_each_ok(ab);
    if recipe_problem(a) is None && recipe_problem(b) is None {
        assert forall|i: int| 0 <= i < ab.len() implies package_ok(#[trigger] ab[i]) by {
            if i < a.len() {
                assert(ab[i] == a[i]);
            } else {
                assert(ab[i] == b[i - a.len()]);
            }
        }
    }
    if recipe_problem(ab) is None {
        assert forall|i: int| 0 <= i < a.len() implies package_ok(#[trigger] a[i]) by {
            assert(ab[i] == a[i]);
        }
        assert forall|i: int| 0 <= i < b.len() implies package_ok(#[trigger] b[i]) by {
            assert(ab[i + a.len()] == b[i]);
        }
    }
    assert(q.len() == a.len()) by {
        q.to_multiset_ensures();
        a.to_multiset_ensures();
    }
    lemma_accepted_iff_each_ok(q);
    if recipe_problem(a) is None {
        assert forall|i: int| 0 <= i < q.len() implies package_ok(#[trigger] q[i]) by {
            assert(q.contains(q[i]));
            assert(q.to_multiset().count(q[i]) > 0);
            assert(a.contains(q[i]));
            let j = choose|j: int| 0 <= j < a.len() && a[j] == q[i];
            assert(package_ok(a[j]));
        }
    }
    if recipe_problem(q) is None {
        assert forall|i: int| 0 <= i < a.len() implies package_ok(#[trigger] a[i]) by {
            assert(a.contains(a[i]));
            assert(a.to_multiset().count(a[i]) > 0);
            assert(q.contains(a[i]));
            let j = choose|j: int| 0 <= j < q.len() && q[j] == a[i];
            assert(package_ok(q[j]));
        }
    }
}

/// Law of package URLs: for a package with a good name and no version, a URL starting with
/// `http://` or `https://` is accepted, while a non-blank URL starting with neither is refused
/// with the URL complaint.
pub proof fn lemma_package_url_rule(p: BrewPackage, i: int)
    requires
        trim(p.name@).len() > 0,
        name_format_ok(p.name@),
        p.version is None,
        p.url is Some,
    ensures
        (has_prefix(p.url->0@, "http://"@) || has_prefix(p.url->0@, "https://"@)) ==> package_problem(
            p,
            i,
        ) is None,
        (trim(p.url->0@).len() > 0 && !has_prefix(p.url->0@, "http://"@) && !has_prefix(
            p.url->0@,
            "https://"@,
        )) ==> package_problem(p, i) == Some(bad_url_message(p.name@)),
{
    reveal_strlit("http://");
    reveal_strlit("https://");
    assert("http://"@ == crate::text::http_scheme());
    assert("https://"@ == crate::text::https_scheme());
}

/// An ASCII character allowed in a package name: a letter, a digit, `-`, `_` or `.`.
pub open spec fn ascii_name_char(c: char) -> bool {
    ('a' <= c <= 'z') || ('A' <= c <= 'Z') || ('0' <= c <= '9') || c == '-' || c == '_' || c == '.'
}

/// Law of package names: for a package with a non-blank name and no URL or version, a name
/// made of ASCII letters, digits, `-`, `_` and `.` is accepted, while a name holding any
/// other ASCII character (a space, `@`, `/`, ...) is refused with the name complaint.
pub proof fn lemma_package_name_rule(p: BrewPackage, i: int)
    requires
        trim(p.name@).len() > 0,
        p.url is None,
        p.version is None,
    ensures
        (forall|k: int| 0 <= k < p.name@.len() ==> ascii_name_char(#[trigger] p.name@[k]))
            ==> package_problem(p, i) is None,
        (exists|k: int|
            0 <= k < p.name@.len() && (#[trigger] p.name@[k] as u32) < 0x80 && !ascii_name_char(
                p.name@[k],
            )) ==> package_problem(p, i) == Some(bad_name_message(p.name@)),
{
    if forall|k: int| 0 <= k < p.name@.len() ==> ascii_name_char(#[trigger] p.name@[k]) {
        assert forall|k: int| 0 <= k < p.name@.len() implies name_char_ok(#[trigger] p.name@[k]) by {
            assert(ascii_name_char(p.name@[k]));
        }
    }
    if exists|k: int|
        0 <= k < p.name@.len() && (#[trigger] p.name@[k] as u32) < 0x80 && !ascii_name_char(p.name@[k]) {
        let k = choose|k: int|
            0 <= k < p.name@.len() && (#[trigger] p.name@[k] as u32) < 0x80 && !ascii_name_char(p.name@[k]);
        assert(!name_char_ok(p.name@[k]));
    }
}

// ---------------------------------------------------------------- recipe sources

/// A source is read from disk when the path exists, or when it is not an `http://` or
/// `https://` URL (`path_exists` is whether the path exists on disk).
pub fn is_local_path(path: &str, path_exists: bool) -> (r: bool)
    ensures
        r == (path_exists || !is_web_url(path@)),
{
    path_exists || !starts_with_web_scheme(path)
}

/// The complaint about a source that is neither a file nor a web URL.
pub fn invalid_source_error(url: &str) -> (r: FetchError)
    ensures
        r matches FetchError::InvalidUrl(m) && m@ == "'"@ + url@
            + "' is not a valid URL or file path. Use http://, https://, or a local file path."@,
{
    FetchError::InvalidUrl(
        String::from_str("'").concat(url).concat(
            "' is not a valid URL or file path. Use http://, https://, or a local file path.",
        ),
    )
}

/// The complaint about an unsuccessful HTTP answer: its code and its status line.
pub fn http_status_error(code: u16, status: &str) -> (r: FetchError)
    ensures
        r matches FetchError::InvalidUrl(m) && m@ == "HTTP error "@ + decimal(code as nat) + ": "@
            + status@,
{
    FetchError::InvalidUrl(
        String::from_str("HTTP error ").concat(format_decimal(code as usize).as_str()).concat(": ").concat(
            status,
        ),
    )
}

/// A recipe read from a local file is accepted only when it passes validation.
pub fn accept_local_recipe(packages: Vec<BrewPackage>) -> (r: Result<Vec<BrewPackage>, FetchError>)
    ensures
        match r {
            Ok(v) => v == packages && recipe_problem(packages@) is None,
            Err(FetchError::InvalidUrl(m)) => recipe_problem(packages@) == Some(m@),
            Err(_) => false,
        },
{
    match validate_packages(&packages) {
        Ok(()) => Ok(packages),
        Err(e) => Err(e),
    }
}

} // verus!
