use devctx::fingerprint::{generate_fingerprint, normalize_error_text, substitute_variables, to_hex};
use devctx::strmap::StrMap;

#[test]
fn normalization_lowers_and_collapses() {
    assert_eq!(normalize_error_text("  Error   in\t/src/main.rs:10:5  "), "error in <file>:<line>");
    assert_eq!(normalize_error_text("A\n\nB"), "a b");
}

#[test]
fn fingerprint_is_hex_sha256_of_normalized_text() {
    assert_eq!(generate_fingerprint("x"), "2d711642b726b04401627ca9fbac32f5c8530fb1903cc4db02258717921a4881");
    assert_eq!(generate_fingerprint("  X  "), generate_fingerprint("x"));
    assert_eq!(
        generate_fingerprint("panic at /a/b.rs:1:2"),
        generate_fingerprint("PANIC at /c/d.rs:30:4")
    );
    assert_eq!(generate_fingerprint("anything").len(), 64);
}

#[test]
fn hex_digits_per_byte() {
    assert_eq!(to_hex(&[0u8, 255, 16, 9]), "00ff1009");
    assert_eq!(to_hex(&[]), "");
}

#[test]
fn placeholders_are_substituted() {
    let mut vars = StrMap::new();
    vars.insert("name".to_string(), "world".to_string());
    vars.insert("n".to_string(), "3".to_string());
    assert_eq!(substitute_variables("echo {name} {name} x{n}", &vars).unwrap(), "echo world world x3");
    assert_eq!(substitute_variables("plain", &vars).unwrap(), "plain");
    assert_eq!(
        substitute_variables("echo {missing}", &vars).unwrap_err(),
        "Variable 'missing' not provided"
    );
}
