use bevy_beth::load_order::parse_load_order;

fn names(list: &[&str]) -> Vec<String> {
    list.iter().map(|s| s.to_string()).collect()
}

#[test]
fn parses_plugins_in_authored_order() {
    assert_eq!(
        parse_load_order("Morrowind.esm\nTribunal.esm\nBloodmoon.esm\n"),
        names(&["Morrowind.esm", "Tribunal.esm", "Bloodmoon.esm"])
    );
}

#[test]
fn skips_comments_and_blank_lines() {
    assert_eq!(
        parse_load_order("# masters\n\nMorrowind.esm\n  # indented comment\n\nMod.esp\n"),
        names(&["Morrowind.esm", "Mod.esp"])
    );
}

#[test]
fn trims_whitespace_and_crlf() {
    assert_eq!(
        parse_load_order("  Morrowind.esm \r\nTribunal.esm\r\n"),
        names(&["Morrowind.esm", "Tribunal.esm"])
    );
}

#[test]
fn empty_input_yields_no_plugins() {
    assert!(parse_load_order("").is_empty());
    assert!(parse_load_order("\n# only a comment\n").is_empty());
}

#[test]
fn last_line_without_newline_counts() {
    assert_eq!(parse_load_order("A.esm\n\tB.esp"), names(&["A.esm", "B.esp"]));
}

#[test]
fn inner_hash_and_unicode_whitespace() {
    assert_eq!(
        parse_load_order("\u{3000}Mod #1.esp\u{a0}\n#x\n"),
        names(&["Mod #1.esp"])
    );
}
