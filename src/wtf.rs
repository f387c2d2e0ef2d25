//! Explanations for error messages, chosen by the phrases they contain.
use vstd::prelude::*;
use crate::text::{contains, has_infix, owned};

verus! {

/// What `str::to_lowercase` returns for the characters `s`.
pub uninterp spec fn lower_of(s: Seq<char>) -> Seq<char>;

/// Relies on str::to_lowercase: the result depends on the characters alone,
/// and the empty string stays empty.
#[verifier::external_body]
pub(crate) fn lowercase(s: &str) -> (r: String)
    ensures
        r@ == lower_of(s@),
        s@.len() == 0 ==> r@.len() == 0,
{
    s.to_lowercase()
}

/// The cause and the suggested fix for an error message already in lower
/// case: the first known phrase it contains decides.
pub open spec fn advice(l: Seq<char>) -> (Seq<char>, Seq<char>) {
    if has_infix(l, "cannot find module"@) || has_infix(l, "module not found"@) {
        ("Module or file not found"@, "Check the file path and ensure the module exists. Verify imports and file structure."@)
    } else if has_infix(l, "undefined"@) || has_infix(l, "is not defined"@) {
        ("Variable or function is undefined"@, "Ensure the variable/function is declared before use. Check for typos and scope issues."@)
    } else if has_infix(l, "permission denied"@) || has_infix(l, "access denied"@) {
        ("Permission denied"@, "Check file permissions. Try running with appropriate permissions or fix file ownership."@)
    } else if has_infix(l, "syntax error"@) || has_infix(l, "parse error"@) {
        ("Syntax or parse error"@, "Check for missing brackets, quotes, or semicolons. Verify the syntax matches the language requirements."@)
    } else if has_infix(l, "type error"@) || has_infix(l, "type mismatch"@) {
        ("Type mismatch or type error"@, "Check that variable types match expected types. Verify function signatures and return types."@)
    } else if has_infix(l, "connection refused"@) || has_infix(l, "connection failed"@) {
        ("Connection failed"@, "Check if the service is running. Verify network connectivity and firewall settings."@)
    } else if has_infix(l, "out of memory"@) || has_infix(l, "memory"@) {
        ("Memory issue"@, "Check for memory leaks or excessive memory usage. Consider optimizing data structures or increasing available memory."@)
    } else {
        ("Unknown error pattern"@, "Review the error message carefully. Check documentation, logs, and related code for clues."@)
    }
}

/// The cause and suggested fix for an error message already in lower case.
pub fn advice_for_lowered(l: &str) -> (r: (String, String))
    ensures
        (r.0@, r.1@) == advice(l@),
{
    if contains(l, "cannot find module") || contains(l, "module not found") {
        (owned("Module or file not found"), owned("Check the file path and ensure the module exists. Verify imports and file structure."))
    } else if contains(l, "undefined") || contains(l, "is not defined") {
        (owned("Variable or function is undefined"), owned("Ensure the variable/function is declared before use. Check for typos and scope issues."))
    } else if contains(l, "permission denied") || contains(l, "access denied") {
        (owned("Permission denied"), owned("Check file permissions. Try running with appropriate permissions or fix file ownership."))
    } else if contains(l, "syntax error") || contains(l, "parse error") {
        (owned("Syntax or parse error"), owned("Check for missing brackets, quotes, or semicolons. Verify the syntax matches the language requirements."))
    } else if contains(l, "type error") || contains(l, "type mismatch") {
        (owned("Type mismatch or type error"), owned("Check that variable types match expected types. Verify function signatures and return types."))
    } else if contains(l, "connection refused") || contains(l, "connection failed") {
        (owned("Connection failed"), owned("Check if the service is running. Verify network connectivity and firewall settings."))
    } else if contains(l, "out of memory") || contains(l, "memory") {
        (owned("Memory issue"), owned("Check for memory leaks or excessive memory usage. Consider optimizing data structures or increasing available memory."))
    } else {
        (owned("Unknown error pattern"), owned("Review the error message carefully. Check documentation, logs, and related code for clues."))
    }
}

/// The cause and suggested fix for an error message, matched without regard
/// to case.
pub fn analyze_error_pattern(error_text: &str) -> (r: (String, String))
    ensures
        (r.0@, r.1@) == advice(lower_of(error_text@)),
{
    let lower = lowercase(error_text);
    advice_for_lowered(lower.as_str())
}

} // verus!
