use init::config::holds_name;
use init::parse::replace_placeholders;
use init::text::{chars_of, replace_all, string_of, to_lower};
use init::ProjectConfig;

fn config(name: &str, author: &str) -> ProjectConfig {
    ProjectConfig {
        language: "rust".to_string(),
        name: name.to_string(),
        folder_name: "my-app".to_string(),
        author: author.to_string(),
        description: "A thing".to_string(),
        extras: vec!["docker".to_string()],
        git: true,
        verbose: false,
    }
}

#[test]
fn name_and_author_are_substituted() {
    let c = config("My App", "Jo");
    assert_eq!(
        replace_placeholders("Hello {{projectName}}, by {{author}}", &c),
        "Hello My App, by Jo"
    );
}

#[test]
fn lower_name_is_derived() {
    let c = config("My App", "Jo");
    assert_eq!(replace_placeholders("{{projectNameLower}}", &c), "my_app");
    assert_eq!(
        replace_placeholders("pkg-{{projectNameLower}}-{{projectNameLower}}", &c),
        "pkg-my_app-my_app"
    );
}

#[test]
fn lower_name_touches_ascii_capitals_only() {
    let c = config("Ünï CODE Z@[", "Jo");
    assert_eq!(replace_placeholders("{{projectNameLower}}", &c), "Ünï_code_z@[");
}

#[test]
fn description_and_folder_are_substituted() {
    let c = config("My App", "Jo");
    assert_eq!(
        replace_placeholders("{{projectDescription}} in {{folderPath}}/src", &c),
        "A thing in my-app/src"
    );
}

#[test]
fn unknown_placeholder_passes_through() {
    let c = config("My App", "Jo");
    assert_eq!(
        replace_placeholders("{{unknown}} {{ author }} {author}", &c),
        "{{unknown}} {{ author }} {author}"
    );
}

#[test]
fn empty_text_stays_empty() {
    assert_eq!(replace_placeholders("", &config("My App", "Jo")), "");
}

#[test]
fn second_substitution_changes_nothing() {
    let c = config("My App", "Jo");
    let once = replace_placeholders("{{projectName}} / {{author}} / {{other}}", &c);
    let twice = replace_placeholders(&once, &c);
    assert_eq!(once, twice);
}

#[test]
fn value_that_spells_a_placeholder_is_not_read_again() {
    let c = config("{{author}}", "Jo");
    assert_eq!(replace_placeholders("{{projectName}}", &c), "{{author}}");
    assert_eq!(
        replace_placeholders("{{author}} {{projectName}} {{author}}", &c),
        "Jo {{author}} Jo"
    );
    let c = config("My App", "{{projectName}}");
    assert_eq!(replace_placeholders("{{author}}", &c), "{{projectName}}");
}

#[test]
fn placeholders_side_by_side() {
    let c = config("My App", "Jo");
    assert_eq!(
        replace_placeholders("{{projectName}}{{author}}{{{folderPath}}}", &c),
        "My AppJo{my-app}"
    );
}

#[test]
fn replace_all_takes_occurrences_from_the_left() {
    let out = replace_all(&chars_of("aaaa"), &chars_of("aa"), &chars_of("b"));
    assert_eq!(string_of(&out), "bb");
    let out = replace_all(&chars_of("aaa"), &chars_of("aa"), &chars_of("b"));
    assert_eq!(string_of(&out), "ba");
    let out = replace_all(&chars_of("abc"), &chars_of(""), &chars_of("x"));
    assert_eq!(string_of(&out), "abc");
}

#[test]
fn characters_round_trip() {
    assert_eq!(chars_of("héllo"), vec!['h', 'é', 'l', 'l', 'o']);
    assert_eq!(string_of(&vec!['a', 'ß', 'c']), "aßc");
    assert_eq!(string_of(&Vec::new()), "");
}

#[test]
fn lower_case_of_characters() {
    assert_eq!(string_of(&to_lower(&chars_of("AbZ az@[É"))), "abz az@[É");
}

#[test]
fn selection_membership_is_exact() {
    let c = config("My App", "Jo");
    assert!(holds_name(&c.extras, &chars_of("docker")));
    assert!(!holds_name(&c.extras, &chars_of("Docker")));
    assert!(!holds_name(&c.extras, &chars_of("dock")));
    assert!(!holds_name(&Vec::new(), &chars_of("docker")));
}

#[test]
fn text_joined_round_a_placeholder_is_not_read_again() {
    let c = config("My App", "");
    let once = replace_placeholders("{{proj{{author}}ectName}}", &c);
    assert_eq!(once, "{{projectName}}");
}

#[test]
fn result_without_braces_is_settled() {
    let c = config("My App", "Jo");
    let once = replace_placeholders(
        "{{projectName}}-{{projectNameLower}}-{{author}}-{{projectDescription}}-{{folderPath}}",
        &c,
    );
    assert_eq!(once, "My App-my_app-Jo-A thing-my-app");
    assert!(!once.contains('{'));
    assert_eq!(replace_placeholders(&once, &c), once);
}
