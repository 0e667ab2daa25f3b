use init::blocks::{resolve_blocks, RenderError};

fn names(list: &[&str]) -> Vec<String> {
    list.iter().map(|s| s.to_string()).collect()
}

const DOCKER: &str = "a\n#!startExtra \"docker\"\nFROM x\n#!endExtra\nb\n";

#[test]
fn unselected_block_is_removed() {
    assert_eq!(resolve_blocks(DOCKER, &names(&[])), Ok("a\nb\n".to_string()));
}

#[test]
fn selected_block_is_unwrapped() {
    assert_eq!(
        resolve_blocks(DOCKER, &names(&["docker"])),
        Ok("a\nFROM x\nb\n".to_string())
    );
}

#[test]
fn other_selection_does_not_keep_block() {
    assert_eq!(
        resolve_blocks(DOCKER, &names(&["ci", "dockerx"])),
        Ok("a\nb\n".to_string())
    );
}

#[test]
fn negated_block_kept_when_base_not_selected() {
    let text = "x\n//!startExtra \"!ci\"\nlocal only\n//!endExtra\ny\n";
    assert_eq!(
        resolve_blocks(text, &names(&[])),
        Ok("x\nlocal only\ny\n".to_string())
    );
}

#[test]
fn negated_block_removed_when_base_selected() {
    let text = "x\n//!startExtra \"!ci\"\nlocal only\n//!endExtra\ny\n";
    assert_eq!(resolve_blocks(text, &names(&["ci"])), Ok("x\ny\n".to_string()));
}

#[test]
fn negated_block_kept_when_literal_name_selected() {
    let text = "//!startExtra \"!ci\"\nbody\n//!endExtra\n";
    assert_eq!(
        resolve_blocks(text, &names(&["ci", "!ci"])),
        Ok("body\n".to_string())
    );
}

#[test]
fn start_without_end_is_malformed() {
    let text = "a\n#!startExtra \"docker\"\nFROM x\nb\n";
    assert_eq!(
        resolve_blocks(text, &names(&["docker"])),
        Err(RenderError::MalformedBlock)
    );
    assert_eq!(resolve_blocks(text, &names(&[])), Err(RenderError::MalformedBlock));
}

#[test]
fn start_text_on_a_last_line_without_line_feed_is_ordinary_text() {
    assert_eq!(
        resolve_blocks("a\n#!startExtra \"docker\"", &names(&[])),
        Ok("a\n#!startExtra \"docker\"".to_string())
    );
    assert_eq!(
        resolve_blocks("#!startExtra \"a\"\nx\n#!startExtra \"b\"", &names(&["a"])),
        Err(RenderError::MalformedBlock)
    );
}

#[test]
fn end_without_start_is_malformed() {
    assert_eq!(
        resolve_blocks("a\n#!endExtra\nb\n", &names(&[])),
        Err(RenderError::MalformedBlock)
    );
}

#[test]
fn nested_start_is_malformed() {
    let text = "#!startExtra \"a\"\n#!startExtra \"b\"\nx\n#!endExtra\n#!endExtra\n";
    assert_eq!(
        resolve_blocks(text, &names(&["a", "b"])),
        Err(RenderError::MalformedBlock)
    );
}

#[test]
fn text_without_markers_is_unchanged() {
    assert_eq!(resolve_blocks("", &names(&[])), Ok(String::new()));
    assert_eq!(resolve_blocks("one\ntwo", &names(&[])), Ok("one\ntwo".to_string()));
    assert_eq!(
        resolve_blocks("one\n\ntwo\n", &names(&["x"])),
        Ok("one\n\ntwo\n".to_string())
    );
}

#[test]
fn end_marker_at_end_of_text_needs_no_line_feed() {
    let text = "a\n#!startExtra \"docker\"\nFROM x\n#!endExtra";
    assert_eq!(resolve_blocks(text, &names(&[])), Ok("a\n".to_string()));
    assert_eq!(
        resolve_blocks(text, &names(&["docker"])),
        Ok("a\nFROM x\n".to_string())
    );
}

#[test]
fn removed_block_at_end_leaves_no_blank_line() {
    let text = "a\n#!startExtra \"docker\"\nFROM x\n#!endExtra\n";
    assert_eq!(resolve_blocks(text, &names(&[])), Ok("a\n".to_string()));
}

#[test]
fn indentation_of_markers_and_body() {
    let text = "fn main() {\n    \t//!startExtra \"log\"\n    log();\n    //!endExtra\n}\n";
    assert_eq!(
        resolve_blocks(text, &names(&["log"])),
        Ok("fn main() {\n    log();\n}\n".to_string())
    );
    assert_eq!(
        resolve_blocks(text, &names(&[])),
        Ok("fn main() {\n}\n".to_string())
    );
}

#[test]
fn marker_text_inside_a_line_is_no_marker() {
    let text = "say #!startExtra \"x\"\nsay #!endExtra\n";
    assert_eq!(resolve_blocks(text, &names(&[])), Ok(text.to_string()));
    let tabs_first = "\t #!endExtra\n";
    assert_eq!(
        resolve_blocks(tabs_first, &names(&[])),
        Ok(tabs_first.to_string())
    );
}

#[test]
fn start_marker_needs_both_quotes() {
    let text = "#!startExtra \"\nplain\n";
    assert_eq!(resolve_blocks(text, &names(&[])), Ok(text.to_string()));
}

#[test]
fn name_runs_to_the_last_quote() {
    let text = "#!startExtra \"a\"b\"\nbody\n#!endExtra\n";
    assert_eq!(resolve_blocks(text, &names(&["a\"b"])), Ok("body\n".to_string()));
    assert_eq!(resolve_blocks(text, &names(&["a"])), Ok(String::new()));
}

#[test]
fn empty_name_is_kept_only_when_selected() {
    let text = "#!startExtra \"\"\nbody\n#!endExtra\n";
    assert_eq!(resolve_blocks(text, &names(&[])), Ok(String::new()));
    assert_eq!(resolve_blocks(text, &names(&[""])), Ok("body\n".to_string()));
}

#[test]
fn several_blocks_are_resolved_independently() {
    let text = "#!startExtra \"a\"\n1\n#!endExtra\nmid\n//!startExtra \"b\"\n2\n//!endExtra\n#!startExtra \"!a\"\n3\n//!endExtra\nend";
    assert_eq!(
        resolve_blocks(text, &names(&["a"])),
        Ok("1\nmid\nend".to_string())
    );
    assert_eq!(
        resolve_blocks(text, &names(&["b"])),
        Ok("mid\n2\n3\nend".to_string())
    );
}

#[test]
fn resolved_text_holds_no_marker() {
    let text = "#!startExtra \"a\"\n1\n#!endExtra\nmid\n//!startExtra \"b\"\n2\n//!endExtra\n";
    for selection in [names(&[]), names(&["a"]), names(&["b"]), names(&["a", "b"])] {
        let out = resolve_blocks(text, &selection).unwrap();
        assert!(!out.contains("startExtra"));
        assert!(!out.contains("endExtra"));
    }
}
