use rusty_replay::fingerprint::{calculate_group_hash, fingerprint_text};

const STACK: &str = "at foo.bar (file.rs:10)\nat baz.qux (file.rs:20)";

#[test]
fn fingerprint_has_fixed_length() {
    let h = calculate_group_hash("boom", "");
    assert_eq!(h.len(), 64);
    assert!(h.chars().all(|c| c.is_ascii_digit() || ('a'..='f').contains(&c)));
}

#[test]
fn fingerprint_is_the_digest_of_the_normalized_text() {
    assert_eq!(
        calculate_group_hash("user 42 not found", STACK),
        "462374f9a84fb07a7ddcccfad444dc066de38bd85358a939a4a0dc600e19db1a"
    );
    assert_eq!(
        calculate_group_hash("boom", ""),
        "1720b3cae33e5dbc9e54dbcdbc2931b27a921ec8b3d7191a9ed6f718d5a4fd47"
    );
    assert_eq!(
        calculate_group_hash("", ""),
        "e3b0c44298fc1c149afbf4c8996fb92427ae41e4649b934ca495991b7852b855"
    );
    assert_eq!(
        calculate_group_hash("NullPointerException at line 42", STACK),
        "48f1b7ff0fec0b65517ef509096dcff8f03c874f9d6357659746f83d08bff5b0"
    );
}

#[test]
fn fingerprint_is_deterministic() {
    let a = calculate_group_hash("user 42 not found", STACK);
    let b = calculate_group_hash("user 42 not found", STACK);
    assert_eq!(a, b);
}

#[test]
fn fingerprint_ignores_the_digits_of_numbers() {
    let a = calculate_group_hash("user 42 not found", STACK);
    let b = calculate_group_hash("user 99 not found", STACK);
    assert_eq!(a, b);
    assert_eq!(fingerprint_text("user 42 not found", ""), fingerprint_text("user 99 not found", ""));
}

#[test]
fn fingerprint_tells_numbers_of_different_length_apart() {
    let a = calculate_group_hash("user 42 not found", STACK);
    let b = calculate_group_hash("user 999 not found", STACK);
    assert_ne!(a, b);
}

#[test]
fn fingerprint_tells_messages_and_stacks_apart() {
    let a = calculate_group_hash("user 42 not found", STACK);
    assert_ne!(a, calculate_group_hash("user 42 not here", STACK));
    assert_ne!(a, calculate_group_hash("user 42 not found", "at other.fn (file.rs:10)"));
}

#[test]
fn message_is_normalized_character_by_character() {
    assert_eq!(fingerprint_text("user 42 not found", ""), "usXr 00 not XounX");
    assert_eq!(fingerprint_text("error \u{0663} at 0xDEADbeef", ""), "Xrror 0 Xt 0xXXXXXXXX");
    assert_eq!(fingerprint_text("ghost XYZ", ""), "ghost XYZ");
    assert_eq!(fingerprint_text("", ""), "");
}

#[test]
fn stack_lines_are_cut_to_their_call_sites() {
    assert_eq!(fingerprint_text("", STACK), "at foo.bar\nat baz.qux\n");
    assert_eq!(fingerprint_text("m", "    at foo.bar (file.rs:10)"), "mat foo.bar\n");
}

#[test]
fn only_the_first_three_stack_lines_count() {
    let stack = "at a (x:1)\nat b (x:2)\nat c (x:3)\nat d (x:4)";
    assert_eq!(fingerprint_text("", stack), "at a\nat b\nat c\n");
    let longer = "at a (x:1)\nat b (x:2)\nat c (x:3)\nat e (y:9)\nat f (y:10)";
    assert_eq!(calculate_group_hash("m", stack), calculate_group_hash("m", longer));
}

#[test]
fn stack_line_without_suffix_is_kept_whole() {
    assert_eq!(fingerprint_text("", "  at foo.bar"), "  at foo.bar\n");
}

#[test]
fn stack_line_without_call_site_is_kept_verbatim() {
    assert_eq!(fingerprint_text("", "main.rs:10\nlib.rs:20"), "main.rs:10\nlib.rs:20\n");
}

#[test]
fn suffix_before_the_call_site_does_not_count() {
    assert_eq!(fingerprint_text("", "x (y) at foo (z)"), "at foo\n");
}

#[test]
fn line_endings_are_taken_off() {
    assert_eq!(fingerprint_text("", "at a (x:1)\r\nat b (x:2)\r\n"), "at a\nat b\n");
    assert_eq!(fingerprint_text("", "one\r\ntwo\r"), "one\ntwo\r\n");
    assert_eq!(fingerprint_text("", "\n\nthird"), "\n\nthird\n");
    assert_eq!(fingerprint_text("", "\n"), "\n");
}

#[test]
fn empty_stack_leaves_the_message_alone() {
    assert_eq!(fingerprint_text("boom", ""), "Xoom");
    assert_eq!(
        calculate_group_hash("boom", ""),
        "1720b3cae33e5dbc9e54dbcdbc2931b27a921ec8b3d7191a9ed6f718d5a4fd47"
    );
}

#[test]
fn fingerprint_ignores_which_hex_letters_stand() {
    assert_eq!(
        calculate_group_hash("addr 0xdeadbeef", ""),
        calculate_group_hash("addr 0xcafebabe", "")
    );
    assert_eq!(fingerprint_text("addr 0xdeadbeef", ""), "XXXr 0xXXXXXXXX");
    assert_eq!(fingerprint_text("ABCDEF abcdef G g", ""), "XXXXXX XXXXXX G g");
    assert_ne!(
        calculate_group_hash("addr 0xdeadbeef", ""),
        calculate_group_hash("addr 0xdeadbee", "")
    );
}

#[test]
fn fingerprint_is_lower_case_hex() {
    for (message, stack) in [("", ""), ("boom", STACK), ("\u{c774}\u{bca4}\u{d2b8} 7", "at x (y:1)")] {
        let hash = calculate_group_hash(message, stack);
        assert_eq!(hash.len(), 64);
        assert!(hash.chars().all(|c| c.is_ascii_digit() || ('a'..='f').contains(&c)));
    }
}
