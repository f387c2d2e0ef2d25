//! Fingerprints of error messages, and variable substitution in snippet
//! commands.
use vstd::prelude::*;
use sha2::Digest;
use crate::strmap::StrMap;
use crate::text::{concat2, owned};
use crate::wtf::{lower_of, lowercase};
use crate::sample::{trim, trim_of};

verus! {

/// What `Regex::replace_all` gives for `text` and `rep` (every match of
/// `pattern` replaced, `$` group references in `rep` expanded), or none where
/// `pattern` is not a valid expression.
pub uninterp spec fn regex_replaced(pattern: Seq<char>, text: Seq<char>, rep: Seq<char>) -> Option<Seq<char>>;

/// Relies on regex::Regex::new and Regex::replace_all: the result depends on
/// the pattern, the text and the replacement alone.
#[verifier::external_body]
fn regex_replace_all(pattern: &str, text: &str, rep: &str) -> (r: Option<String>)
    ensures
        crate::strmap::opt_view(r) == regex_replaced(pattern@, text@, rep@),
{
    regex::Regex::new(pattern).ok().map(|re| re.replace_all(text, rep).into_owned())
}

/// For each match of `pattern` in `text`, in order, the text of its first
/// group; none where `pattern` is not a valid expression.
pub uninterp spec fn regex_first_groups(pattern: Seq<char>, text: Seq<char>) -> Option<Seq<Option<Seq<char>>>>;

/// Relies on regex::Regex::new, Regex::captures_iter and Captures::get: the
/// result depends on the pattern and the text alone.
#[verifier::external_body]
fn first_groups(pattern: &str, text: &str) -> (r: Option<Vec<Option<String>>>)
    ensures
        match r {
            Some(v) => regex_first_groups(pattern@, text@) == Some(v@.map_values(|o: Option<String>| crate::strmap::opt_view(o))),
            None => regex_first_groups(pattern@, text@) is None,
        },
{
    regex::Regex::new(pattern).ok().map(|re| re.captures_iter(text).map(|c| c.get(1).map(|m| m.as_str().to_string())).collect())
}

/// The SHA-256 digest of `b`.
pub uninterp spec fn sha256_of(b: Seq<u8>) -> Seq<u8>;

/// Relies on sha2::Sha256::digest: a 32-byte digest that depends on the
/// bytes alone.
#[verifier::external_body]
fn sha256(b: &[u8]) -> (r: Vec<u8>)
    ensures
        r@ == sha256_of(b@),
        r@.len() == 32,
{
    sha2::Sha256::digest(b).to_vec()
}

/// What `str::replace` returns: every non-overlapping occurrence of `from`,
/// left to right, replaced by `to`.
pub uninterp spec fn replaced(s: Seq<char>, from: Seq<char>, to: Seq<char>) -> Seq<char>;

/// Relies on str::replace: the result depends on its three arguments alone.
#[verifier::external_body]
fn replace(s: &str, from: &str, to: &str) -> (r: String)
    ensures
        r@ == replaced(s@, from@, to@),
{
    s.replace(from, to)
}

/// One step of normalisation: the replacement where the pattern is valid,
/// the text unchanged otherwise.
pub open spec fn norm_step(pattern: Seq<char>, rep: Seq<char>, s: Seq<char>) -> Seq<char> {
    match regex_replaced(pattern, s, rep) {
        Some(r) => r,
        None => s,
    }
}

/// The pattern of source file paths.
pub open spec fn file_pattern() -> Seq<char> {
    "/[^\\s]+\\.(rs|py|js|ts|go|java|cpp|c|h)"@
}

/// The pattern of line and column numbers.
pub open spec fn line_pattern() -> Seq<char> {
    ":\\d+:\\d+"@
}

/// The pattern of runs of whitespace.
pub open spec fn space_pattern() -> Seq<char> {
    "\\s+"@
}

/// An error message in lower case, with file paths, line numbers and runs of
/// whitespace replaced, trimmed.
pub open spec fn normalized(t: Seq<char>) -> Seq<char> {
    trim_of(norm_step(space_pattern(), " "@, norm_step(line_pattern(), ":<line>"@, norm_step(file_pattern(), "<file>"@, lower_of(t)))))
}

fn replace_or_keep(pattern: &str, s: String, rep: &str) -> (r: String)
    ensures
        r@ == norm_step(pattern@, rep@, s@),
{
    match regex_replace_all(pattern, s.as_str(), rep) {
        Some(x) => x,
        None => s,
    }
}

/// Normalises an error message so that reports of one error from different
/// places share a fingerprint.
pub fn normalize_error_text(text: &str) -> (r: String)
    ensures
        r@ == normalized(text@),
{
    let s = lowercase(text);
    let s = replace_or_keep("/[^\\s]+\\.(rs|py|js|ts|go|java|cpp|c|h)", s, "<file>");
    let s = replace_or_keep(":\\d+:\\d+", s, ":<line>");
    let s = replace_or_keep("\\s+", s, " ");
    trim(s.as_str())
}

/// The lowercase hexadecimal digit of `n`.
pub open spec fn hex_digit(n: int) -> char {
    "0123456789abcdef"@[n]
}

/// Two lowercase hexadecimal digits per byte.
pub open spec fn hex_of(b: Seq<u8>) -> Seq<char>
    decreases b.len(),
{
    if b.len() == 0 {
        Seq::empty()
    } else {
        hex_of(b.drop_last()) + seq![hex_digit(b.last() as int / 16), hex_digit(b.last() as int % 16)]
    }
}

/// Writes `b` in lowercase hexadecimal, two digits per byte.
pub fn to_hex(b: &[u8]) -> (r: String)
    ensures
        r@ == hex_of(b@),
{
    let digits = "0123456789abcdef";
    proof {
        reveal_strlit("0123456789abcdef");
    }
    let mut r = String::new();
    let mut i: usize = 0;
    while i < b.len()
        invariant
            i <= b@.len(),
            digits@ == "0123456789abcdef"@,
            digits@.len() == 16,
            r@ == hex_of(b@.subrange(0, i as int)),
        decreases b@.len() - i,
    {
        let x = b[i];
        let hi = (x / 16) as usize;
        let lo = (x % 16) as usize;
        let ghost before = r@;
        r.append(digits.substring_char(hi, hi + 1));
        r.append(digits.substring_char(lo, lo + 1));
        proof {
            let t = b@.subrange(0, i + 1);
            assert(t.drop_last() =~= b@.subrange(0, i as int));
            assert(r@ =~= before + seq![hex_digit(x as int / 16), hex_digit(x as int % 16)]);
        }
        i = i + 1;
    }
    assert(b@.subrange(0, b@.len() as int) =~= b@);
    r
}

/// The fingerprint of an error message: the SHA-256 digest of its
/// normalised text, in hexadecimal.
pub fn generate_fingerprint(error_text: &str) -> (r: String)
    ensures
        r@ == hex_of(sha256_of(vstd::utf8::encode_utf8(normalized(error_text@)))),
        r@.len() == 64,
{
    let normalized = normalize_error_text(error_text);
    let digest = sha256(normalized.as_str().as_bytes());
    proof {
        lemma_hex_len(digest@);
    }
    to_hex(digest.as_slice())
}

proof fn lemma_hex_len(b: Seq<u8>)
    ensures
        hex_of(b).len() == 2 * b.len(),
    decreases b.len(),
{
    if b.len() > 0 {
        lemma_hex_len(b.drop_last());
    }
}

/// The pattern of `{name}` placeholders.
pub open spec fn placeholder_pattern() -> Seq<char> {
    "\\{([^}]+)\\}"@
}

/// The command with each named placeholder, in the order found, replaced by
/// its variable; the first name without a variable is reported.
pub open spec fn substituted(names: Seq<Option<Seq<char>>>, vars: Map<Seq<char>, Seq<char>>, command: Seq<char>) -> Result<Seq<char>, Seq<char>>
    decreases names.len(),
{
    if names.len() == 0 {
        Ok(command)
    } else {
        match substituted(names.drop_last(), vars, command) {
            Err(e) => Err(e),
            Ok(r) => match names.last() {
                None => Ok(r),
                Some(n) => if vars.contains_key(n) {
                    Ok(replaced(r, "{"@ + n + "}"@, vars[n]))
                } else {
                    Err("Variable '"@ + n + "' not provided"@)
                },
            },
        }
    }
}

/// Replaces each `{name}` placeholder of `command` by the variable `name`.
pub fn substitute_variables(command: &str, vars: &StrMap) -> (r: Result<String, String>)
    requires
        vars.wf(),
    ensures
        match regex_first_groups(placeholder_pattern(), command@) {
            Some(names) => match (r, substituted(names, vars@, command@)) {
                (Ok(x), Ok(y)) => x@ == y,
                (Err(x), Err(y)) => x@ == y,
                _ => false,
            },
            None => r is Err,
        },
{
    let names = match first_groups("\\{([^}]+)\\}", command) {
        Some(v) => v,
        None => return Err(owned("invalid placeholder pattern")),
    };
    let ghost gs = names@.map_values(|o: Option<String>| crate::strmap::opt_view(o));
    let mut result = owned(command);
    let mut i: usize = 0;
    while i < names.len()
        invariant
            vars.wf(),
            i <= names@.len(),
            gs == names@.map_values(|o: Option<String>| crate::strmap::opt_view(o)),
            regex_first_groups(placeholder_pattern(), command@) == Some(gs),
            substituted(gs.subrange(0, i as int), vars@, command@) == Ok::<Seq<char>, Seq<char>>(result@),
        decreases names@.len() - i,
    {
        proof {
            let t = gs.subrange(0, i + 1);
            assert(t.drop_last() =~= gs.subrange(0, i as int));
        }
        match &names[i] {
            Some(n) => {
                match vars.get(n.as_str()) {
                    Some(v) => {
                        let mut key = concat2("{", n.as_str());
                        key.append("}");
                        result = replace(result.as_str(), key.as_str(), v.as_str());
                    },
                    None => {
                        let mut e = concat2("Variable '", n.as_str());
                        e.append("' not provided");
                        proof {
                            let t = gs.subrange(0, i + 1);
                            assert(t.drop_last() =~= gs.subrange(0, i as int));
                            assert(t.last() == Some(n@));
                            assert(substituted(t, vars@, command@) == Err::<Seq<char>, Seq<char>>(e@));
                            lemma_substituted_err(gs, i as int + 1, vars@, command@);
                        }
                        assert(substituted(gs, vars@, command@) == Err::<Seq<char>, Seq<char>>(e@));
                        return Err(e);
                    },
                }
            },
            None => {},
        }
        i = i + 1;
    }
    assert(gs.subrange(0, gs.len() as int) =~= gs);
    Ok(result)
}

/// Once substitution fails on a prefix of the names, it fails the same way
/// on all of them.
proof fn lemma_substituted_err(gs: Seq<Option<Seq<char>>>, k: int, vars: Map<Seq<char>, Seq<char>>, command: Seq<char>)
    requires
        0 <= k <= gs.len(),
        substituted(gs.subrange(0, k), vars, command) is Err,
    ensures
        substituted(gs, vars, command) == substituted(gs.subrange(0, k), vars, command),
    decreases gs.len() - k,
{
    if k < gs.len() {
        let t = gs.subrange(0, k + 1);
        assert(t.drop_last() =~= gs.subrange(0, k));
        lemma_substituted_err(gs, k + 1, vars, command);
    } else {
        assert(gs.subrange(0, k) =~= gs);
    }
}

} // verus!
