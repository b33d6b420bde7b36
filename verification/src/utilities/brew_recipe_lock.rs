//! The recipe lockfile: a SHA-256 over where a recipe comes from and what it holds.
use vstd::prelude::*;
use crate::models::BrewPackage;
use crate::text::{chars_of, has_prefix, is_web_url, starts_with_web_scheme, string_from_chars, trim};
use crate::utilities::brew_fetch_packages::{split_chars, split_on};
use crate::utilities::name_order::{
    lemma_sort_by_name_order_independent, names_distinct, sort_by_name, sort_packages_by_name,
};

verus! {

broadcast use vstd::seq_lib::group_seq_properties;

// ---------------------------------------------------------------- hashing and hex

/// The SHA-256 digest of `data`, as the `sha2` crate computes it.
pub uninterp spec fn sha256(data: Seq<u8>) -> Seq<u8>;

/// Trusted: `sha2::Sha256::digest` (the `Digest` trait of sha2). The result is the name
/// above; a SHA-256 output is 32 bytes (`U32` in the hasher's type).
#[verifier::external_body]
fn sha256_digest(data: &[u8]) -> (r: Vec<u8>)
    ensures
        r@ == sha256(data@),
        r@.len() == 32,
{
    <sha2::Sha256 as sha2::Digest>::digest(data).to_vec()
}

/// Lower-case hexadecimal digit for `d < 16`.
pub open spec fn hex_digit(d: int) -> char {
    if d < 10 {
        (('0' as int) + d) as char
    } else {
        (('a' as int) + d - 10) as char
    }
}

/// `data` as lower-case hex, two digits per byte (what `{:x}` prints for a digest).
pub open spec fn hex_lower(data: Seq<u8>) -> Seq<char>
    decreases data.len(),
{
    if data.len() == 0 {
        Seq::<char>::empty()
    } else {
        hex_lower(data.drop_last()) + seq![
            hex_digit(data.last() as int / 16),
            hex_digit(data.last() as int % 16),
        ]
    }
}

fn hex_digit_char(d: u8) -> (c: char)
    requires
        d < 16,
    ensures
        c == hex_digit(d as int),
{
    if d < 10 {
        crate::text::char_from_digit(d as u32)
    } else if d == 10 {
        'a'
    } else if d == 11 {
        'b'
    } else if d == 12 {
        'c'
    } else if d == 13 {
        'd'
    } else if d == 14 {
        'e'
    } else {
        'f'
    }
}

/// Formats bytes as lower-case hex.
pub fn to_hex_lower(data: &Vec<u8>) -> (r: String)
    ensures
        r@ == hex_lower(data@),
{
    let mut out: Vec<char> = Vec::new();
    let mut i: usize = 0;
    while i < data.len()
        invariant
            i <= data.len(),
            out@ == hex_lower(data@.take(i as int)),
        decreases data.len() - i,
    {
        let b = data[i];
        let hi = hex_digit_char(b / 16);
        let lo = hex_digit_char(b % 16);
        proof {
            assert(data@.take(i + 1).drop_last() == data@.take(i as int));
            assert(data@.take(i + 1).last() == b);
        }
        out.push(hi);
        out.push(lo);
        i = i + 1;
    }
    proof {
        assert(data@.take(data.len() as int) == data@);
    }
    string_from_chars(out.as_slice())
}

/// SHA-256 of the UTF-8 encoding of `text`, in lower-case hex.
pub open spec fn text_digest(text: Seq<char>) -> Seq<char> {
    hex_lower(sha256(vstd::utf8::encode_utf8(text)))
}

/// A SHA-256 digest in hex: 64 lower-case hex digits.
pub open spec fn is_hex_digest(s: Seq<char>) -> bool {
    s.len() == 64 && forall|i: int| 0 <= i < s.len() ==> is_hex_char(#[trigger] s[i])
}

/// Hashes the UTF-8 bytes of `text` and returns the digest in lower-case hex (64 digits).
pub fn digest_hex(text: &str) -> (r: String)
    ensures
        r@ == text_digest(text@),
        is_hex_digest(r@),
{
    let bytes = text.as_bytes();
    let d = sha256_digest(bytes);
    proof {
        lemma_hex_lower_chars(d@);
    }
    to_hex_lower(&d)
}

// ---------------------------------------------------------------- canonical JSON

/// How `serde_json` writes one character inside a string: `"` and `\` behind a backslash;
/// backspace, tab, line feed, form feed and carriage return as `\b`, `\t`, `\n`, `\f`, `\r`;
/// the other characters below 0x20 as `\u00` and two lower-case hex digits; every other
/// character as it is.
pub open spec fn json_escape(c: char) -> Seq<char> {
    let u = c as u32;
    if c == '"' {
        seq!['\\', '"']
    } else if c == '\\' {
        seq!['\\', '\\']
    } else if u == 0x08 {
        seq!['\\', 'b']
    } else if u == 0x09 {
        seq!['\\', 't']
    } else if u == 0x0A {
        seq!['\\', 'n']
    } else if u == 0x0C {
        seq!['\\', 'f']
    } else if u == 0x0D {
        seq!['\\', 'r']
    } else if u < 0x20 {
        seq!['\\', 'u', '0', '0', hex_digit(u as int / 16), hex_digit(u as int % 16)]
    } else {
        seq![c]
    }
}

/// The characters of `s`, each written as `json_escape` says.
pub open spec fn json_escaped(s: Seq<char>) -> Seq<char>
    decreases s.len(),
{
    if s.len() == 0 {
        Seq::<char>::empty()
    } else {
        json_escaped(s.drop_last()) + json_escape(s.last())
    }
}

/// The JSON string literal that `serde_json` writes for `s`: the escaped characters between
/// double quotes.
pub open spec fn json_string(s: Seq<char>) -> Seq<char> {
    seq!['"'] + json_escaped(s) + seq!['"']
}

/// Trusted: `serde_json::to_string` on a `&str`. The result is `json_string`, as serde_json's
/// escape table and its `write_char_escape` write it. Serialising a string cannot fail; the
/// empty fallback is never taken.
#[verifier::external_body]
fn json_quote(s: &str) -> (r: String)
    ensures
        r@ == json_string(s@),
{
    match serde_json::to_string(s) {
        Ok(t) => t,
        Err(_) => String::new(),
    }
}

/// JSON for an optional string field: the quoted string, or `null`.
pub open spec fn json_opt_string(o: Option<String>) -> Seq<char> {
    match o {
        Some(s) => json_string(s@),
        None => "null"@,
    }
}

/// JSON for an optional flag: `true`, `false` or `null`.
pub open spec fn json_opt_bool(o: Option<bool>) -> Seq<char> {
    match o {
        Some(b) => if b {
            "true"@
        } else {
            "false"@
        },
        None => "null"@,
    }
}

/// A package as a JSON object with its keys in sorted order.
pub open spec fn canonical_package(p: BrewPackage) -> Seq<char> {
    "{\"cask\":"@ + json_opt_bool(p.cask) + ",\"category\":"@ + json_opt_string(p.category)
        + ",\"name\":"@ + json_string(p.name@) + ",\"url\":"@ + json_opt_string(p.url)
        + ",\"version\":"@ + json_opt_string(p.version) + "}"@
}

/// The pieces joined with `sep` between neighbours.
pub open spec fn join_with(parts: Seq<Seq<char>>, sep: Seq<char>) -> Seq<char>
    decreases parts.len(),
{
    if parts.len() == 0 {
        Seq::<char>::empty()
    } else if parts.len() == 1 {
        parts[0]
    } else {
        join_with(parts.drop_last(), sep) + sep + parts.last()
    }
}

/// A list of packages as a JSON array of canonical objects, in the given order.
pub open spec fn canonical_recipe(packages: Seq<BrewPackage>) -> Seq<char> {
    "["@ + join_with(packages.map_values(|p: BrewPackage| canonical_package(p)), ","@) + "]"@
}

fn json_opt_string_text(o: &Option<String>) -> (r: String)
    ensures
        r@ == json_opt_string(*o),
{
    match o {
        Some(s) => json_quote(s.as_str()),
        None => String::from_str("null"),
    }
}

fn json_opt_bool_text(o: &Option<bool>) -> (r: String)
    ensures
        r@ == json_opt_bool(*o),
{
    match o {
        Some(b) => if *b {
            String::from_str("true")
        } else {
            String::from_str("false")
        },
        None => String::from_str("null"),
    }
}

/// A package as canonical JSON (keys sorted, every field present).
pub fn canonical_package_json(p: &BrewPackage) -> (r: String)
    ensures
        r@ == canonical_package(*p),
{
    String::from_str("{\"cask\":").concat(json_opt_bool_text(&p.cask).as_str()).concat(
        ",\"category\":",
    ).concat(json_opt_string_text(&p.category).as_str()).concat(",\"name\":").concat(
        json_quote(p.name.as_str()).as_str(),
    ).concat(",\"url\":").concat(json_opt_string_text(&p.url).as_str()).concat(
        ",\"version\":",
    ).concat(json_opt_string_text(&p.version).as_str()).concat("}")
}

/// The packages, in the given order, as a canonical JSON array.
pub fn canonical_recipe_json(packages: &Vec<BrewPackage>) -> (r: String)
    ensures
        r@ == canonical_recipe(packages@),
{
    let ghost parts = packages@.map_values(|p: BrewPackage| canonical_package(p));
    let mut body = String::new();
    let mut i: usize = 0;
    while i < packages.len()
        invariant
            i <= packages.len(),
            parts == packages@.map_values(|p: BrewPackage| canonical_package(p)),
            body@ == join_with(parts.take(i as int), ","@),
        decreases packages.len() - i,
    {
        let item = canonical_package_json(&packages[i]);
        proof {
            assert(parts.take(i + 1).drop_last() == parts.take(i as int));
            assert(parts.take(i + 1).last() == item@);
        }
        if i == 0 {
            body = item;
            proof {
                assert(parts.take(1).len() == 1);
            }
        } else {
            body = body.concat(",").concat(item.as_str());
        }
        i = i + 1;
    }
    proof {
        assert(parts.take(packages.len() as int) == parts);
    }
    String::from_str("[").concat(body.as_str()).concat("]")
}

// ---------------------------------------------------------------- identity and hash

/// Why the lockfile could not be used, or why the recipe does not match it.
#[derive(Debug)]
pub enum LockError {
    Io(std::io::Error),
    Parse(String),
    IntegrityMismatch { expected: String, got: String },
}

impl From<std::io::Error> for LockError {
    fn from(err: std::io::Error) -> (r: LockError) {
        LockError::Io(err)
    }
}

impl vstd::std_specs::convert::FromSpecImpl<std::io::Error> for LockError {
    open spec fn obeys_from_spec() -> bool {
        true
    }

    open spec fn from_spec(v: std::io::Error) -> LockError {
        LockError::Io(v)
    }
}

impl LockError {
    /// The error as shown to the user: the I/O error's own text, the parse complaint as it
    /// is, or the integrity failure naming the stored and the current hash.
    pub fn message(&self) -> (r: String)
        ensures
            match self {
                LockError::Io(_) => true,
                LockError::Parse(s) => r@ == s@,
                LockError::IntegrityMismatch { expected, got } => r@
                    == "Recipe integrity check failed: recipe content has changed since the last run (expected "@
                    + expected@ + ", got "@ + got@
                    + "). If you intended to change the recipe, remove the lockfile and run again."@,
            },
    {
        match self {
            LockError::Io(e) => crate::utilities::brew_fetch_packages::io_error_text(e),
            LockError::Parse(s) => s.clone(),
            LockError::IntegrityMismatch { expected, got } => String::from_str(
                "Recipe integrity check failed: recipe content has changed since the last run (expected ",
            ).concat(expected.as_str()).concat(", got ").concat(got.as_str()).concat(
                "). If you intended to change the recipe, remove the lockfile and run again.",
            ),
        }
    }
}

/// One line of a recipe's identity: `url:` and the URL for a web source, else `file:` and the
/// source's absolute path (`resolved`, as the caller found it on disk).
pub open spec fn source_identity(src: Seq<char>, resolved: Seq<char>) -> Seq<char> {
    if is_web_url(src) {
        "url:"@ + src
    } else {
        "file:"@ + resolved
    }
}

/// Identity lines of all sources, in order.
pub open spec fn identity_lines(sources: Seq<String>, resolved: Seq<String>) -> Seq<Seq<char>> {
    Seq::new(sources.len(), |i: int| source_identity(sources[i]@, resolved[i]@))
}

/// A recipe's identity: where each of its sources lives, one per line, in order.
pub open spec fn identity_text(sources: Seq<String>, resolved: Seq<String>) -> Seq<char> {
    join_with(identity_lines(sources, resolved), "\n"@)
}

/// What the integrity hash covers: the identity, a newline, and the packages sorted by name
/// as canonical JSON.
pub open spec fn content_text(
    packages: Seq<BrewPackage>,
    sources: Seq<String>,
    resolved: Seq<String>,
) -> Seq<char> {
    identity_text(sources, resolved) + "\n"@ + canonical_recipe(sort_by_name(packages))
}

/// The integrity hash of a recipe, as stored in its lockfile.
pub open spec fn content_hash(
    packages: Seq<BrewPackage>,
    sources: Seq<String>,
    resolved: Seq<String>,
) -> Seq<char> {
    text_digest(content_text(packages, sources, resolved))
}

/// Name of a recipe's lockfile: `recipe-`, the hash of its identity, `.lock`.
pub open spec fn lock_file_name(sources: Seq<String>, resolved: Seq<String>) -> Seq<char> {
    "recipe-"@ + text_digest(identity_text(sources, resolved)) + ".lock"@
}

/// `name` under the directory `dir`, as `Path::join` forms it for a relative `name`.
pub open spec fn path_join(dir: Seq<char>, name: Seq<char>) -> Seq<char> {
    if dir.len() == 0 {
        name
    } else if dir.last() == '/' {
        dir + name
    } else {
        dir + seq!['/'] + name
    }
}

/// The identity line of one source.
pub fn source_identity_line(src: &str, resolved: &str) -> (r: String)
    ensures
        r@ == source_identity(src@, resolved@),
{
    if starts_with_web_scheme(src) {
        String::from_str("url:").concat(src)
    } else {
        String::from_str("file:").concat(resolved)
    }
}

/// A recipe's identity: one line per source, `url:<url>` for web sources and
/// `file:<absolute path>` for files, in the given order. `resolved_paths[i]` is where the
/// file source `recipe_sources[i]` was found (unused for web sources).
pub fn recipe_identity(recipe_sources: &Vec<String>, resolved_paths: &Vec<String>) -> (r: String)
    requires
        recipe_sources.len() == resolved_paths.len(),
    ensures
        r@ == identity_text(recipe_sources@, resolved_paths@),
{
    let ghost lines = identity_lines(recipe_sources@, resolved_paths@);
    let mut out = String::new();
    let mut i: usize = 0;
    while i < recipe_sources.len()
        invariant
            i <= recipe_sources.len() == resolved_paths.len(),
            lines == identity_lines(recipe_sources@, resolved_paths@),
            out@ == join_with(lines.take(i as int), "\n"@),
        decreases recipe_sources.len() - i,
    {
        let line = source_identity_line(recipe_sources[i].as_str(), resolved_paths[i].as_str());
        proof {
            assert(lines.take(i + 1).drop_last() == lines.take(i as int));
            assert(lines.take(i + 1).last() == line@);
        }
        if i == 0 {
            out = line;
            proof {
                assert(lines.take(1).len() == 1);
            }
        } else {
            out = out.concat("\n").concat(line.as_str());
        }
        i = i + 1;
    }
    proof {
        assert(lines.take(recipe_sources.len() as int) == lines);
    }
    out
}

/// SHA-256 (lower-case hex) of the recipe's identity, a newline, and its packages sorted by
/// name as canonical JSON. The same content from another source gives another identity; the
/// order in which the packages arrive does not matter when their names differ.
pub fn recipe_content_hash(
    packages: &Vec<BrewPackage>,
    recipe_sources: &Vec<String>,
    resolved_paths: &Vec<String>,
) -> (r: Result<String, LockError>)
    requires
        recipe_sources.len() == resolved_paths.len(),
    ensures
        r matches Ok(h) && h@ == content_hash(packages@, recipe_sources@, resolved_paths@),
        r matches Ok(h) && is_hex_digest(h@),
{
    let identity = recipe_identity(recipe_sources, resolved_paths);
    let sorted = sort_packages_by_name(packages);
    let canonical = canonical_recipe_json(&sorted);
    let text = identity.concat("\n").concat(canonical.as_str());
    Ok(digest_hex(text.as_str()))
}

/// The lockfile name of a recipe: `recipe-<hash of its identity>.lock`.
pub fn lock_filename(recipe_sources: &Vec<String>, resolved_paths: &Vec<String>) -> (r: Result<String, LockError>)
    requires
        recipe_sources.len() == resolved_paths.len(),
    ensures
        r matches Ok(n) && n@ == lock_file_name(recipe_sources@, resolved_paths@),
        is_hex_digest(text_digest(identity_text(recipe_sources@, resolved_paths@))),
{
    let identity = recipe_identity(recipe_sources, resolved_paths);
    let h = digest_hex(identity.as_str());
    Ok(String::from_str("recipe-").concat(h.as_str()).concat(".lock"))
}

/// `name` under `dir`, joined as `Path::join` does for a relative name.
pub fn join_path(dir: &str, name: &str) -> (r: String)
    ensures
        r@ == path_join(dir@, name@),
{
    let d = chars_of(dir);
    if d.len() == 0 {
        String::from_str(name)
    } else if d[d.len() - 1] == '/' {
        String::from_str(dir).concat(name)
    } else {
        proof {
            reveal_strlit("/");
        }
        String::from_str(dir).concat("/").concat(name)
    }
}

/// Where a recipe's lockfile lives: in `binary_dir` (the directory of the running brim
/// binary), one file per recipe identity.
pub fn lockfile_path(
    binary_dir: &str,
    recipe_sources: &Vec<String>,
    resolved_paths: &Vec<String>,
) -> (r: Result<String, LockError>)
    requires
        recipe_sources.len() == resolved_paths.len(),
    ensures
        r matches Ok(p) && p@ == path_join(binary_dir@, lock_file_name(recipe_sources@, resolved_paths@)),
        is_hex_digest(text_digest(identity_text(recipe_sources@, resolved_paths@))),
{
    let name = match lock_filename(recipe_sources, resolved_paths) {
        Ok(n) => n,
        Err(e) => return Err(e),
    };
    Ok(join_path(binary_dir, name.as_str()))
}

// ---------------------------------------------------------------- lockfile content

/// The marker in front of the stored hash.
pub open spec fn lock_prefix() -> Seq<char> {
    seq!['s', 'h', 'a', '2', '5', '6', ':']
}

/// What a lockfile holds for `hash`: `sha256:<hash>` and a newline.
pub open spec fn lock_text(hash: Seq<char>) -> Seq<char> {
    lock_prefix() + hash + seq!['\n']
}

/// `s` with `p` removed from its front as often as it occurs there.
pub open spec fn strip_prefix_all(s: Seq<char>, p: Seq<char>) -> Seq<char>
    decreases s.len(),
{
    if p.len() > 0 && has_prefix(s, p) {
        strip_prefix_all(s.skip(p.len() as int), p)
    } else {
        s
    }
}

/// The first of `lines` that starts with `p`.
pub open spec fn first_with_prefix(lines: Seq<Seq<char>>, p: Seq<char>) -> Option<Seq<char>>
    decreases lines.len(),
{
    if lines.len() == 0 {
        None
    } else if has_prefix(lines[0], p) {
        Some(lines[0])
    } else {
        first_with_prefix(lines.drop_first(), p)
    }
}

/// The hash a lockfile's content records: the first line starting with `sha256:`, with that
/// marker (repeated or not) removed from its front and surrounding white space trimmed.
pub open spec fn stored_hash(content: Seq<char>) -> Option<Seq<char>> {
    match first_with_prefix(split_on(content, '\n'), lock_prefix()) {
        Some(line) => Some(trim(strip_prefix_all(line, lock_prefix()))),
        None => None,
    }
}

/// The text of a lockfile recording `hash`.
pub fn lock_file_content(hash: &str) -> (r: String)
    ensures
        r@ == lock_text(hash@),
{
    let prefix: Vec<char> = vec!['s', 'h', 'a', '2', '5', '6', ':'];
    let nl: Vec<char> = vec!['\n'];
    string_from_chars(prefix.as_slice()).concat(hash).concat(string_from_chars(nl.as_slice()).as_str())
}

/// Reads the stored hash out of a lockfile's content (`lock_path` names the file in the
/// error). Fails when no line starts with `sha256:`.
pub fn parse_lock(content: &str, lock_path: &str) -> (r: Result<String, LockError>)
    ensures
        match stored_hash(content@) {
            Some(h) => r matches Ok(x) && x@ == h,
            None => r matches Err(LockError::Parse(m)) && m@ == "Invalid lockfile format: "@ + lock_path@,
        },
{
    let prefix: Vec<char> = vec!['s', 'h', 'a', '2', '5', '6', ':'];
    assert(prefix@ == lock_prefix());
    let c = chars_of(content);
    let lines = split_chars(&c, '\n');
    let ghost sl = split_on(c@, '\n');
    let mut i: usize = 0;
    while i < lines.len()
        invariant
            i <= lines.len(),
            prefix@ == lock_prefix(),
            c@ == content@,
            sl == split_on(c@, '\n'),
            lines.len() == sl.len(),
            forall|k: int| 0 <= k < lines.len() ==> (#[trigger] lines@[k])@ == sl[k],
            first_with_prefix(sl, lock_prefix()) == first_with_prefix(sl.skip(i as int), lock_prefix()),
        decreases lines.len() - i,
    {
        proof {
            assert(sl.skip(i as int)[0] == sl[i as int]);
            assert(sl.skip(i as int).drop_first() == sl.skip(i + 1));
        }
        if crate::text::starts_with_chars(&lines[i], &prefix) {
            let mut cur = crate::text::sub_chars(&lines[i], 0, lines[i].len());
            proof {
                assert(lines@[i as int]@.subrange(0, lines@[i as int].len() as int) == lines@[i as int]@);
                assert(first_with_prefix(sl, lock_prefix()) == Some(sl[i as int]));
            }
            let ghost found = sl[i as int];
            while crate::text::starts_with_chars(&cur, &prefix)
                invariant
                    prefix@ == lock_prefix(),
                    first_with_prefix(split_on(content@, '\n'), lock_prefix()) == Some(found),
                    strip_prefix_all(found, lock_prefix()) == strip_prefix_all(cur@, lock_prefix()),
                decreases cur.len(),
            {
                let ghost old_cur = cur@;
                cur = crate::text::sub_chars(&cur, 7, cur.len());
                assert(cur@ == old_cur.skip(7));
            }
            let value = string_from_chars(cur.as_slice());
            return Ok(crate::text::trim_str(value.as_str()));
        }
        i = i + 1;
    }
    proof {
        assert(sl.skip(lines.len() as int).len() == 0);
    }
    Err(LockError::Parse(String::from_str("Invalid lockfile format: ").concat(lock_path)))
}

// ---------------------------------------------------------------- verify and update

/// Checks the recipe against the hash its lockfile holds (`stored`, `None` when there is no
/// lockfile yet). Fails with `IntegrityMismatch` when a stored hash differs from the recipe's
/// current hash; otherwise returns that hash, which the caller writes to the lockfile.
pub fn verify_or_update_lock(
    packages: &Vec<BrewPackage>,
    recipe_sources: &Vec<String>,
    resolved_paths: &Vec<String>,
    stored: Option<String>,
) -> (r: Result<String, LockError>)
    requires
        recipe_sources.len() == resolved_paths.len(),
    ensures
        ({
            let h = content_hash(packages@, recipe_sources@, resolved_paths@);
            match stored {
                Some(s) => if s@ == h {
                    r matches Ok(x) && x@ == h
                } else {
                    r matches Err(LockError::IntegrityMismatch { expected, got }) && expected@ == s@
                        && got@ == h
                },
                None => r matches Ok(x) && x@ == h,
            }
        }),
        r matches Ok(x) ==> is_hex_digest(x@),
{
    let hash = match recipe_content_hash(packages, recipe_sources, resolved_paths) {
        Ok(h) => h,
        Err(e) => return Err(e),
    };
    match stored {
        Some(s) => {
            if s != hash {
                return Err(LockError::IntegrityMismatch { expected: s, got: hash });
            }
        },
        None => {},
    }
    Ok(hash)
}

/// Accepts the recipe as it is now: returns its current hash, which the caller writes to
/// the lockfile without comparing.
pub fn update_lock(
    packages: &Vec<BrewPackage>,
    recipe_sources: &Vec<String>,
    resolved_paths: &Vec<String>,
) -> (r: Result<String, LockError>)
    requires
        recipe_sources.len() == resolved_paths.len(),
    ensures
        r matches Ok(h) && h@ == content_hash(packages@, recipe_sources@, resolved_paths@),
        r matches Ok(h) && is_hex_digest(h@),
{
    recipe_content_hash(packages, recipe_sources, resolved_paths)
}

// ---------------------------------------------------------------- laws

/// A lower-case hexadecimal digit.
pub open spec fn is_hex_char(c: char) -> bool {
    ('0' <= c <= '9') || ('a' <= c <= 'f')
}

proof fn lemma_hex_lower_chars(data: Seq<u8>)
    ensures
        forall|i: int| 0 <= i < hex_lower(data).len() ==> is_hex_char(#[trigger] hex_lower(data)[i]),
        hex_lower(data).len() == 2 * data.len(),
    decreases data.len(),
{
    if data.len() > 0 {
        lemma_hex_lower_chars(data.drop_last());
        let b = data.last() as int;
        assert(0 <= b / 16 < 16);
        assert(0 <= b % 16 < 16);
    }
}

proof fn lemma_split_without_sep(s: Seq<char>, sep: char)
    requires
        forall|i: int| 0 <= i < s.len() ==> s[i] != sep,
    ensures
        split_on(s, sep) == seq![s],
    decreases s.len(),
{
    if s.len() > 0 {
        lemma_split_without_sep(s.drop_last(), sep);
        assert(s.drop_last().push(s.last()) == s);
        assert(seq![s.drop_last()].update(0, s) == seq![s]);
    }
}

proof fn lemma_trim_untouched(s: Seq<char>)
    requires
        forall|i: int| 0 <= i < s.len() ==> !crate::text::is_white_space(#[trigger] s[i]),
    ensures
        trim(s) == s,
{
    if s.len() > 0 {
        assert(crate::text::trim_start(s) == s);
        assert(crate::text::trim_end(s) == s);
    } else {
        assert(crate::text::trim_start(s) == s);
        assert(crate::text::trim_end(s) == s);
    }
}

/// Law: a lockfile written for `hash` reads back as `hash`, for every hash without
/// surrounding white space, without a line break, and not itself beginning with the
/// `sha256:` marker.
pub proof fn lemma_lock_text_reads_back(hash: Seq<char>)
    requires
        trim(hash) == hash,
        forall|i: int| 0 <= i < hash.len() ==> #[trigger] hash[i] != '\n',
        !has_prefix(hash, lock_prefix()),
    ensures
        stored_hash(lock_text(hash)) == Some(hash),
{
    let line = lock_prefix() + hash;
    assert(forall|i: int| 0 <= i < line.len() ==> line[i] != '\n') by {
        assert forall|i: int| 0 <= i < line.len() implies line[i] != '\n' by {
            if i >= 7 {
                assert(line[i] == hash[i - 7]);
            }
        }
    }
    lemma_split_without_sep(line, '\n');
    assert(lock_text(hash) == line.push('\n'));
    assert(lock_text(hash).drop_last() == line);
    assert(split_on(lock_text(hash), '\n') == seq![line, Seq::<char>::empty()]);
    assert(line.subrange(0, 7) == lock_prefix());
    assert(has_prefix(line, lock_prefix()));
    assert(line.skip(7) == hash);
    assert(strip_prefix_all(hash, lock_prefix()) == hash);
    assert(strip_prefix_all(line, lock_prefix()) == hash);
}

/// Law: every recipe hash consists of lower-case hex digits, so it can be stored
/// in a lockfile and read back unchanged.
pub proof fn lemma_content_hash_is_hex(
    packages: Seq<BrewPackage>,
    sources: Seq<String>,
    resolved: Seq<String>,
)
    ensures
        forall|i: int|
            0 <= i < content_hash(packages, sources, resolved).len() ==> is_hex_char(
                #[trigger] content_hash(packages, sources, resolved)[i],
            ),
{
    let d = sha256(vstd::utf8::encode_utf8(content_text(packages, sources, resolved)));
    lemma_hex_lower_chars(d);
}

/// A hash of hex digits survives being written to a lockfile and read back.
proof fn lemma_hex_reads_back(h: Seq<char>)
    requires
        forall|i: int| 0 <= i < h.len() ==> is_hex_char(#[trigger] h[i]),
    ensures
        stored_hash(lock_text(h)) == Some(h),
{
    assert forall|i: int| 0 <= i < h.len() implies !crate::text::is_white_space(#[trigger] h[i]) by {
        assert(is_hex_char(h[i]));
    }
    lemma_trim_untouched(h);
    assert forall|i: int| 0 <= i < h.len() implies #[trigger] h[i] != '\n' by {
        assert(is_hex_char(h[i]));
    }
    if has_prefix(h, lock_prefix()) {
        assert(h.subrange(0, 7)[0] == 's');
        assert(is_hex_char(h[0]));
    }
    lemma_lock_text_reads_back(h);
}

/// Law (what the lock is for): after a recipe's hash is accepted and written, reading the
/// lockfile back gives exactly that hash, so checking the same recipe from the same sources
/// again passes; so does checking the same packages in another order, when no name repeats.
pub proof fn lemma_update_then_verify_passes(
    packages: Seq<BrewPackage>,
    reordered: Seq<BrewPackage>,
    sources: Seq<String>,
    resolved: Seq<String>,
)
    requires
        reordered == packages || (names_distinct(packages) && names_distinct(reordered)
            && reordered.to_multiset() == packages.to_multiset()),
    ensures
        stored_hash(lock_text(content_hash(packages, sources, resolved))) == Some(
            content_hash(packages, sources, resolved),
        ),
        stored_hash(lock_text(content_hash(packages, sources, resolved))) == Some(
            content_hash(reordered, sources, resolved),
        ),
{
    let h = content_hash(packages, sources, resolved);
    lemma_content_hash_is_hex(packages, sources, resolved);
    lemma_hex_reads_back(h);
    if reordered != packages {
        lemma_content_hash_order_independent(packages, reordered, sources, resolved);
    }
}

/// Law: one source's identity line tells which source it is: equal lines come from two web
/// sources with the same URL or from two file sources with the same absolute path. In
/// particular the same content read from a file and from a URL is never hashed alike.
pub proof fn lemma_source_identity_distinguishes(a: Seq<char>, ra: Seq<char>, b: Seq<char>, rb: Seq<char>)
    ensures
        source_identity(a, ra) == source_identity(b, rb) ==> (if is_web_url(a) {
            is_web_url(b) && a == b
        } else {
            !is_web_url(b) && ra == rb
        }),
{
    reveal_strlit("url:");
    reveal_strlit("file:");
    let x = source_identity(a, ra);
    let y = source_identity(b, rb);
    if x == y {
        if is_web_url(a) != is_web_url(b) {
            assert(x[0] != y[0]);
        } else if is_web_url(a) {
            assert(a == x.skip(4));
            assert(b == y.skip(4));
        } else {
            assert(ra == x.skip(5));
            assert(rb == y.skip(5));
        }
    }
}

/// Law: the recipe hash does not depend on the order in which packages were fetched. Two
/// package lists holding the same packages, each without a repeated name, hash alike for
/// the same sources.
pub proof fn lemma_content_hash_order_independent(
    a: Seq<BrewPackage>,
    b: Seq<BrewPackage>,
    sources: Seq<String>,
    resolved: Seq<String>,
)
    requires
        names_distinct(a),
        names_distinct(b),
        a.to_multiset() == b.to_multiset(),
    ensures
        content_hash(a, sources, resolved) == content_hash(b, sources, resolved),
{
    lemma_sort_by_name_order_independent(a, b);
}

// ---------------------------------------------------------------- canonical JSON is unambiguous

/// `json_escaped` read from the front: the first character's escape, then the rest.
proof fn lemma_json_escaped_front(s: Seq<char>)
    requires
        s.len() > 0,
    ensures
        json_escaped(s) == json_escape(s[0]) + json_escaped(s.drop_first()),
    decreases s.len(),
{
    if s.len() == 1 {
        assert(s.drop_last().len() == 0);
        assert(s.drop_first().len() == 0);
        assert(json_escaped(s.drop_first()) == Seq::<char>::empty());
        assert(json_escaped(s) == json_escaped(s.drop_last()) + json_escape(s.last()));
        assert(s.last() == s[0]);
    } else {
        let d = s.drop_last();
        lemma_json_escaped_front(d);
        assert(d[0] == s[0]);
        assert(s.drop_first().drop_last() == d.drop_first());
        assert(s.drop_first().last() == s.last());
        assert(json_escaped(s.drop_first()) == json_escaped(d.drop_first()) + json_escape(s.last()));
        assert(json_escaped(s) == json_escaped(d) + json_escape(s.last()));
        assert(json_escape(s[0]) + json_escaped(s.drop_first()) =~= json_escape(s[0]) + json_escaped(
            d.drop_first(),
        ) + json_escape(s.last()));
    }
}

/// A lower-case hex digit tells its value.
proof fn lemma_hex_digit_injective(a: int, b: int)
    requires
        0 <= a < 16,
        0 <= b < 16,
        hex_digit(a) == hex_digit(b),
    ensures
        a == b,
{
}

/// The escapes of single characters form a prefix code: an escaped character followed by
/// anything determines the character and the rest.
proof fn lemma_json_escape_prefix_code(c: char, d: char, x: Seq<char>, y: Seq<char>)
    requires
        json_escape(c) + x == json_escape(d) + y,
    ensures
        c == d,
        x == y,
{
    let ec = json_escape(c);
    let ed = json_escape(d);
    let l = ec + x;
    let r = ed + y;
    assert(l[0] == ec[0]);
    assert(r[0] == ed[0]);
    if ec[0] != '\\' {
        assert(ec == seq![c]);
        if ed[0] == '\\' {
            assert(c == '\\');
            assert(false);
        }
        assert(ed == seq![d]);
        assert(c == d);
        assert(x == l.skip(1));
        assert(y == r.skip(1));
    } else {
        assert(ed[0] == '\\');
        assert(l[1] == ec[1]);
        assert(r[1] == ed[1]);
        assert(ec.len() == ed.len());
        assert(ec == l.take(ec.len() as int));
        assert(ed == r.take(ed.len() as int));
        assert(ec == ed);
        let u = c as u32;
        let v = d as u32;
        if ec[1] == 'u' {
            assert(u < 0x20 && v < 0x20);
            lemma_hex_digit_injective(u as int / 16, v as int / 16);
            lemma_hex_digit_injective(u as int % 16, v as int % 16);
            assert(u == v);
        }
        assert(u == v);
        assert(x == l.skip(ec.len() as int));
        assert(y == r.skip(ed.len() as int));
    }
}

/// No escape begins with a bare double quote.
proof fn lemma_json_escape_not_quote(c: char)
    ensures
        json_escape(c).len() > 0,
        json_escape(c)[0] != '"',
{
}

/// An escaped text followed by a closing quote determines the text and what follows.
proof fn lemma_json_escaped_closing_quote(a: Seq<char>, b: Seq<char>, x: Seq<char>, y: Seq<char>)
    requires
        json_escaped(a) + seq!['"'] + x == json_escaped(b) + seq!['"'] + y,
    ensures
        a == b,
        x == y,
    decreases a.len(),
{
    let l = json_escaped(a) + seq!['"'] + x;
    let r = json_escaped(b) + seq!['"'] + y;
    if a.len() == 0 {
        assert(json_escaped(a) == Seq::<char>::empty());
        assert(l[0] == '"');
        if b.len() > 0 {
            lemma_json_escaped_front(b);
            lemma_json_escape_not_quote(b[0]);
            assert(r[0] == json_escape(b[0])[0]);
            assert(false);
        }
        assert(json_escaped(b) == Seq::<char>::empty());
        assert(x == l.skip(1));
        assert(y == r.skip(1));
    } else if b.len() == 0 {
        assert(json_escaped(b) == Seq::<char>::empty());
        lemma_json_escaped_front(a);
        lemma_json_escape_not_quote(a[0]);
        assert(l[0] == json_escape(a[0])[0]);
        assert(r[0] == '"');
        assert(false);
    } else {
        lemma_json_escaped_front(a);
        lemma_json_escaped_front(b);
        let ta = json_escaped(a.drop_first()) + seq!['"'] + x;
        let tb = json_escaped(b.drop_first()) + seq!['"'] + y;
        assert(l =~= json_escape(a[0]) + ta);
        assert(r =~= json_escape(b[0]) + tb);
        lemma_json_escape_prefix_code(a[0], b[0], ta, tb);
        lemma_json_escaped_closing_quote(a.drop_first(), b.drop_first(), x, y);
        assert(a =~= seq![a[0]] + a.drop_first());
        assert(b =~= seq![b[0]] + b.drop_first());
    }
}

/// A JSON string literal followed by anything determines the string and what follows.
proof fn lemma_json_string_prefix_free(a: Seq<char>, b: Seq<char>, x: Seq<char>, y: Seq<char>)
    requires
        json_string(a) + x == json_string(b) + y,
    ensures
        a == b,
        x == y,
{
    let l = json_string(a) + x;
    let r = json_string(b) + y;
    assert(l.skip(1) =~= json_escaped(a) + seq!['"'] + x);
    assert(r.skip(1) =~= json_escaped(b) + seq!['"'] + y);
    lemma_json_escaped_closing_quote(a, b, x, y);
}

/// What an optional string holds, taken by its view.
pub open spec fn opt_view(o: Option<String>) -> Option<Seq<char>> {
    match o {
        Some(s) => Some(s@),
        None => None,
    }
}

/// An optional string field followed by anything determines the field and what follows.
proof fn lemma_json_opt_string_prefix_free(o1: Option<String>, o2: Option<String>, x: Seq<char>, y: Seq<char>)
    requires
        json_opt_string(o1) + x == json_opt_string(o2) + y,
    ensures
        opt_view(o1) == opt_view(o2),
        x == y,
{
    reveal_strlit("null");
    let l = json_opt_string(o1) + x;
    let r = json_opt_string(o2) + y;
    match (o1, o2) {
        (Some(a), Some(b)) => {
            lemma_json_string_prefix_free(a@, b@, x, y);
        },
        (None, None) => {
            assert(x == l.skip(4));
            assert(y == r.skip(4));
        },
        (Some(a), None) => {
            assert(l[0] == '"');
            assert(r[0] == 'n');
        },
        (None, Some(b)) => {
            assert(l[0] == 'n');
            assert(r[0] == '"');
        },
    }
}

/// An optional flag followed by anything determines the flag and what follows.
proof fn lemma_json_opt_bool_prefix_free(o1: Option<bool>, o2: Option<bool>, x: Seq<char>, y: Seq<char>)
    requires
        json_opt_bool(o1) + x == json_opt_bool(o2) + y,
    ensures
        o1 == o2,
        x == y,
{
    reveal_strlit("null");
    reveal_strlit("true");
    reveal_strlit("false");
    let l = json_opt_bool(o1) + x;
    let r = json_opt_bool(o2) + y;
    assert(l[0] == json_opt_bool(o1)[0]);
    assert(r[0] == json_opt_bool(o2)[0]);
    assert(o1 == o2);
    assert(x == l.skip(json_opt_bool(o1).len() as int));
    assert(y == r.skip(json_opt_bool(o2).len() as int));
}

/// Two packages hold the same values in every field (strings taken by their views).
pub open spec fn same_fields(p: BrewPackage, q: BrewPackage) -> bool {
    &&& p.name@ == q.name@
    &&& p.cask == q.cask
    &&& opt_view(p.category) == opt_view(q.category)
    &&& opt_view(p.url) == opt_view(q.url)
    &&& opt_view(p.version) == opt_view(q.version)
}

/// Dropping the same prefix from two equal sequences leaves equal rests.
proof fn lemma_drop_common_prefix(k: Seq<char>, x: Seq<char>, y: Seq<char>)
    requires
        k + x == k + y,
    ensures
        x == y,
{
    assert(x =~= (k + x).skip(k.len() as int));
    assert(y =~= (k + y).skip(k.len() as int));
}

/// Regrouping three pieces.
proof fn lemma_assoc(a: Seq<char>, b: Seq<char>, c: Seq<char>)
    ensures
        a + b + c == a + (b + c),
{
    assert(a + b + c =~= a + (b + c));
}

/// A canonical package object and a tail, split into the object's first key and the rest,
/// each later piece nested to the right.
proof fn lemma_canonical_package_split(p: BrewPackage, x: Seq<char>)
    ensures
        canonical_package(p) + x == "{\"cask\":"@ + (json_opt_bool(p.cask) + (",\"category\":"@ + (
            json_opt_string(p.category) + (",\"name\":"@ + (json_string(p.name@) + (",\"url\":"@
            + (json_opt_string(p.url) + (",\"version\":"@ + (json_opt_string(p.version) + ("}"@
            + x)))))))))),
{
    let t0 = "{\"cask\":"@;
    let t1 = json_opt_bool(p.cask);
    let t2 = ",\"category\":"@;
    let t3 = json_opt_string(p.category);
    let t4 = ",\"name\":"@;
    let t5 = json_string(p.name@);
    let t6 = ",\"url\":"@;
    let t7 = json_opt_string(p.url);
    let t8 = ",\"version\":"@;
    let t9 = json_opt_string(p.version);
    let t10 = "}"@;
    let c1 = t0 + t1;
    let c2 = c1 + t2;
    let c3 = c2 + t3;
    let c4 = c3 + t4;
    let c5 = c4 + t5;
    let c6 = c5 + t6;
    let c7 = c6 + t7;
    let c8 = c7 + t8;
    let c9 = c8 + t9;
    let c10 = c9 + t10;
    assert(canonical_package(p) == c10);
    let r10 = t10 + x;
    let r9 = t9 + r10;
    let r8 = t8 + r9;
    let r7 = t7 + r8;
    let r6 = t6 + r7;
    let r5 = t5 + r6;
    let r4 = t4 + r5;
    let r3 = t3 + r4;
    let r2 = t2 + r3;
    let r1 = t1 + r2;
    lemma_assoc(c9, t10, x);
    lemma_assoc(c8, t9, r10);
    lemma_assoc(c7, t8, r9);
    lemma_assoc(c6, t7, r8);
    lemma_assoc(c5, t6, r7);
    lemma_assoc(c4, t5, r6);
    lemma_assoc(c3, t4, r5);
    lemma_assoc(c2, t3, r4);
    lemma_assoc(c1, t2, r3);
    lemma_assoc(t0, t1, r2);
}

/// A canonical package object followed by anything determines every field of the package
/// and what follows.
proof fn lemma_canonical_package_prefix_free(p: BrewPackage, q: BrewPackage, x: Seq<char>, y: Seq<char>)
    requires
        canonical_package(p) + x == canonical_package(q) + y,
    ensures
        same_fields(p, q),
        x == y,
{
    let k1 = "{\"cask\":"@;
    let k2 = ",\"category\":"@;
    let k3 = ",\"name\":"@;
    let k4 = ",\"url\":"@;
    let k5 = ",\"version\":"@;
    let k6 = "}"@;
    let r5p = json_opt_string(p.version) + (k6 + x);
    let r5q = json_opt_string(q.version) + (k6 + y);
    let r4p = json_opt_string(p.url) + (k5 + r5p);
    let r4q = json_opt_string(q.url) + (k5 + r5q);
    let r3p = json_string(p.name@) + (k4 + r4p);
    let r3q = json_string(q.name@) + (k4 + r4q);
    let r2p = json_opt_string(p.category) + (k3 + r3p);
    let r2q = json_opt_string(q.category) + (k3 + r3q);
    let r1p = json_opt_bool(p.cask) + (k2 + r2p);
    let r1q = json_opt_bool(q.cask) + (k2 + r2q);
    lemma_canonical_package_split(p, x);
    lemma_canonical_package_split(q, y);
    lemma_drop_common_prefix(k1, r1p, r1q);
    lemma_json_opt_bool_prefix_free(p.cask, q.cask, k2 + r2p, k2 + r2q);
    lemma_drop_common_prefix(k2, r2p, r2q);
    lemma_json_opt_string_prefix_free(p.category, q.category, k3 + r3p, k3 + r3q);
    lemma_drop_common_prefix(k3, r3p, r3q);
    lemma_json_string_prefix_free(p.name@, q.name@, k4 + r4p, k4 + r4q);
    lemma_drop_common_prefix(k4, r4p, r4q);
    lemma_json_opt_string_prefix_free(p.url, q.url, k5 + r5p, k5 + r5q);
    lemma_drop_common_prefix(k5, r5p, r5q);
    lemma_json_opt_string_prefix_free(p.version, q.version, k6 + x, k6 + y);
    lemma_drop_common_prefix(k6, x, y);
}

/// Law: the canonical JSON of a package tells the package: two packages written the same
/// agree in name, cask flag, category, URL and version. So a recipe whose packages changed in
/// any field is hashed from a different text.
pub proof fn lemma_canonical_package_injective(p: BrewPackage, q: BrewPackage)
    requires
        canonical_package(p) == canonical_package(q),
    ensures
        same_fields(p, q),
{
    assert(canonical_package(p) + Seq::<char>::empty() == canonical_package(q) + Seq::<char>::empty());
    lemma_canonical_package_prefix_free(p, q, Seq::<char>::empty(), Seq::<char>::empty());
}

/// `join_with` read from the front: the first piece, then the separator and the rest.
proof fn lemma_join_with_front(parts: Seq<Seq<char>>, sep: Seq<char>)
    requires
        parts.len() >= 2,
    ensures
        join_with(parts, sep) == parts[0] + (sep + join_with(parts.drop_first(), sep)),
    decreases parts.len(),
{
    let d = parts.drop_last();
    if parts.len() == 2 {
        assert(d.len() == 1);
        assert(join_with(d, sep) == parts[0]);
        assert(parts.drop_first().len() == 1);
        assert(join_with(parts.drop_first(), sep) == parts[1]);
        assert(join_with(parts, sep) == join_with(d, sep) + sep + parts.last());
        assert(parts[0] + sep + parts[1] =~= parts[0] + (sep + parts[1]));
    } else {
        lemma_join_with_front(d, sep);
        assert(d[0] == parts[0]);
        assert(parts.drop_first().drop_last() == d.drop_first());
        assert(parts.drop_first().last() == parts.last());
        assert(join_with(parts.drop_first(), sep) == join_with(d.drop_first(), sep) + sep + parts.last());
        assert(join_with(parts, sep) == join_with(d, sep) + sep + parts.last());
        assert(parts[0] + (sep + join_with(d.drop_first(), sep)) + sep + parts.last() =~= parts[0] + (
            sep + (join_with(d.drop_first(), sep) + sep + parts.last())));
    }
}

/// The canonical objects of a list of packages, joined with commas.
pub open spec fn canonical_objects(ps: Seq<BrewPackage>) -> Seq<char> {
    join_with(ps.map_values(|p: BrewPackage| canonical_package(p)), ","@)
}

/// The objects of a non-empty list read from the front.
proof fn lemma_canonical_objects_front(ps: Seq<BrewPackage>)
    requires
        ps.len() > 0,
    ensures
        ps.len() == 1 ==> canonical_objects(ps) == canonical_package(ps[0]),
        ps.len() > 1 ==> canonical_objects(ps) == canonical_package(ps[0]) + (","@ + canonical_objects(
            ps.drop_first(),
        )),
{
    let parts = ps.map_values(|p: BrewPackage| canonical_package(p));
    assert(parts.drop_first() =~= ps.drop_first().map_values(|p: BrewPackage| canonical_package(p)));
    if ps.len() > 1 {
        lemma_join_with_front(parts, ","@);
    }
}

/// A canonical object begins with `{`.
proof fn lemma_canonical_package_opens(p: BrewPackage)
    ensures
        canonical_package(p).len() > 0,
        canonical_package(p)[0] == '{',
{
    reveal_strlit("{\"cask\":");
    let t = "{\"cask\":"@;
    assert(canonical_package(p) =~= t + (canonical_package(p).skip(t.len() as int)));
}

/// A list of canonical objects closed by `]` determines the packages, field by field, and
/// what follows.
proof fn lemma_canonical_objects_closing(a: Seq<BrewPackage>, b: Seq<BrewPackage>, x: Seq<char>, y: Seq<char>)
    requires
        canonical_objects(a) + ("]"@ + x) == canonical_objects(b) + ("]"@ + y),
    ensures
        a.len() == b.len(),
        forall|i: int| 0 <= i < a.len() ==> same_fields(#[trigger] a[i], b[i]),
        x == y,
    decreases a.len(),
{
    reveal_strlit("]");
    reveal_strlit(",");
    let l = canonical_objects(a) + ("]"@ + x);
    let r = canonical_objects(b) + ("]"@ + y);
    if a.len() == 0 {
        assert(canonical_objects(a) == Seq::<char>::empty());
        assert(l[0] == ']');
        if b.len() > 0 {
            lemma_canonical_objects_front(b);
            lemma_canonical_package_opens(b[0]);
            if b.len() > 1 {
                assert(r[0] == canonical_package(b[0])[0]);
            } else {
                assert(r[0] == canonical_package(b[0])[0]);
            }
            assert(false);
        }
        assert(canonical_objects(b) == Seq::<char>::empty());
        lemma_drop_common_prefix("]"@, x, y);
    } else if b.len() == 0 {
        assert(canonical_objects(b) == Seq::<char>::empty());
        assert(r[0] == ']');
        lemma_canonical_objects_front(a);
        lemma_canonical_package_opens(a[0]);
        assert(l[0] == canonical_package(a[0])[0]);
        assert(false);
    } else {
        lemma_canonical_objects_front(a);
        lemma_canonical_objects_front(b);
        let ta = if a.len() > 1 {
            ","@ + canonical_objects(a.drop_first()) + ("]"@ + x)
        } else {
            "]"@ + x
        };
        let tb = if b.len() > 1 {
            ","@ + canonical_objects(b.drop_first()) + ("]"@ + y)
        } else {
            "]"@ + y
        };
        assert(l =~= canonical_package(a[0]) + ta);
        assert(r =~= canonical_package(b[0]) + tb);
        lemma_canonical_package_prefix_free(a[0], b[0], ta, tb);
        assert(ta[0] == if a.len() > 1 { ',' } else { ']' });
        assert(tb[0] == if b.len() > 1 { ',' } else { ']' });
        if a.len() > 1 {
            assert(b.len() > 1);
            assert(ta =~= ","@ + (canonical_objects(a.drop_first()) + ("]"@ + x)));
            assert(tb =~= ","@ + (canonical_objects(b.drop_first()) + ("]"@ + y)));
            lemma_drop_common_prefix(","@, canonical_objects(a.drop_first()) + ("]"@ + x),
                canonical_objects(b.drop_first()) + ("]"@ + y));
            lemma_canonical_objects_closing(a.drop_first(), b.drop_first(), x, y);
            assert forall|i: int| 0 <= i < a.len() implies same_fields(#[trigger] a[i], b[i]) by {
                if i > 0 {
                    assert(a[i] == a.drop_first()[i - 1]);
                    assert(b[i] == b.drop_first()[i - 1]);
                }
            }
        } else {
            assert(b.len() == 1);
            lemma_drop_common_prefix("]"@, x, y);
        }
    }
}

/// Law: the text a recipe's lock hash is taken over tells the recipe: for the same sources,
/// two package lists hashed from the same text hold, once sorted by name, the same number of
/// packages agreeing in every field. So a recipe whose packages changed (a version bumped, a
/// URL moved, a cask flag set) is hashed from a different text.
pub proof fn lemma_content_text_tells_recipe(
    a: Seq<BrewPackage>,
    b: Seq<BrewPackage>,
    sources: Seq<String>,
    resolved: Seq<String>,
)
    requires
        content_text(a, sources, resolved) == content_text(b, sources, resolved),
    ensures
        sort_by_name(a).len() == sort_by_name(b).len(),
        forall|i: int|
            0 <= i < sort_by_name(a).len() ==> same_fields(#[trigger] sort_by_name(a)[i], sort_by_name(b)[i]),
{
    let head = identity_text(sources, resolved) + "\n"@ + "["@;
    let oa = canonical_objects(sort_by_name(a));
    let ob = canonical_objects(sort_by_name(b));
    let e = Seq::<char>::empty();
    assert(content_text(a, sources, resolved) =~= head + (oa + ("]"@ + e)));
    assert(content_text(b, sources, resolved) =~= head + (ob + ("]"@ + e)));
    lemma_drop_common_prefix(head, oa + ("]"@ + e), ob + ("]"@ + e));
    lemma_canonical_objects_closing(sort_by_name(a), sort_by_name(b), e, e);
}

} // verus!
