use fancy_regex::Regex;
use init::blocks::resolve_blocks;

/// Resolves blocks by searching for the markers as regular expressions and
/// splicing each match, one after the other.
fn resolve_by_search(text: &str, extras: &[String]) -> String {
    let block =
        Regex::new(r#"( *\t*)(#|//)!startExtra ".*?"\n[\s\S]*?(#|//)!endExtra\n?"#).unwrap();
    let name_hash = Regex::new(r#"(?<=#!startExtra ").*(?=")"#).unwrap();
    let name_slashes = Regex::new(r#"(?<=//!startExtra ").*(?=")"#).unwrap();
    let mut contents = text.to_string();
    while block.is_match(&contents).unwrap() {
        let full = block.find(&contents).unwrap().unwrap().as_str().to_string();
        let name = if name_hash.is_match(&full).unwrap() {
            name_hash.find(&full)
        } else {
            name_slashes.find(&full)
        }
        .unwrap()
        .unwrap()
        .as_str()
        .to_string();
        let kept = extras.contains(&name)
            || (name.starts_with('!') && !extras.contains(&name[1..].to_string()));
        if kept {
            let mut lines: Vec<&str> = full.split('\n').collect();
            lines.remove(0);
            lines.remove(lines.len() - 2);
            contents = contents.replace(&full, &lines.join("\n"));
        } else {
            contents = contents.replace(&full, "");
        }
    }
    contents
}

fn selections() -> Vec<Vec<String>> {
    let pick = |list: &[&str]| list.iter().map(|s| s.to_string()).collect::<Vec<String>>();
    vec![
        pick(&[]),
        pick(&["docker"]),
        pick(&["ci"]),
        pick(&["docker", "ci"]),
        pick(&["!ci"]),
        pick(&["ci", "!ci", "log"]),
    ]
}

fn agree_on(text: &str) {
    for selection in selections() {
        assert_eq!(
            resolve_blocks(text, &selection),
            Ok(resolve_by_search(text, &selection)),
            "selection {:?}",
            selection
        );
    }
}

#[test]
fn scan_agrees_with_search_on_one_block() {
    agree_on("a\n#!startExtra \"docker\"\nFROM x\n#!endExtra\nb\n");
    agree_on("#!startExtra \"docker\"\nFROM x\n#!endExtra\n");
    agree_on("a\n//!startExtra \"!ci\"\nlocal\nonly\n//!endExtra\n");
}

#[test]
fn scan_agrees_with_search_on_indented_blocks() {
    agree_on("fn main() {\n    //!startExtra \"log\"\n    log();\n    //!endExtra\n    run();\n}\n");
    agree_on("x:\n  \t#!startExtra \"ci\"\n  y: 1\n\n  #!endExtra\nz\n");
}

#[test]
fn scan_agrees_with_search_on_several_blocks() {
    agree_on(
        "#!startExtra \"docker\"\n1\n#!endExtra\nmid\n//!startExtra \"ci\"\n2\n//!endExtra\n#!startExtra \"!ci\"\n3\n#!endExtra\nend\n",
    );
    agree_on("no blocks\nat all\n");
    agree_on("");
}
