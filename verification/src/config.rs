use crate::text::{chars_of, replace_all, replaced, same_chars, string_of};
use vstd::prelude::*;

verus! {

/// What the caller chose for one project.
#[derive(Debug, Clone)]
pub struct ProjectConfig {
    pub language: String,
    pub name: String,
    pub folder_name: String,
    pub author: String,
    pub description: String,
    pub extras: Vec<String>,
    pub git: bool,
    pub verbose: bool,
}

/// The set of names that the list `names` holds.
pub open spec fn name_set(names: Seq<String>) -> Set<Seq<char>> {
    Set::new(|n: Seq<char>| exists|i: int| 0 <= i < names.len() && #[trigger] names[i]@ == n)
}

impl ProjectConfig {
    /// The extras that were chosen, as a set of names.
    pub open spec fn selection(&self) -> Set<Seq<char>> {
        name_set(self.extras@)
    }
}

/// Whether the list `names` holds `name`.
pub fn holds_name(names: &Vec<String>, name: &Vec<char>) -> (r: bool)
    ensures
        r == name_set(names@).contains(name@),
{
    let mut i: usize = 0;
    while i < names.len()
        invariant
            i <= names.len(),
            forall|k: int| 0 <= k < i ==> (#[trigger] names@[k])@ != name@,
        decreases names.len() - i,
    {
        let candidate = chars_of(names[i].as_str());
        if same_chars(&candidate, name) {
            return true;
        }
        i += 1;
    }
    false
}

/// The text of an optional argument, or `default` where it was not given.
pub open spec fn given_or(arg: Option<&str>, default: Seq<char>) -> Seq<char> {
    match arg {
        Some(text) => text@,
        None => default,
    }
}

/// The project's name: the name given, or the current directory's name
/// where none was given or the name given is a single dot.
pub open spec fn project_name(name: Option<&str>, current: Seq<char>) -> Seq<char> {
    match name {
        Some(text) => if text@ == "."@ {
            current
        } else {
            text@
        },
        None => current,
    }
}

/// The project's folder: the name given without its spaces, or a single dot
/// where none was given.
pub open spec fn project_folder(name: Option<&str>) -> Seq<char> {
    replaced(given_or(name, "."@), " "@, ""@)
}

/// Builds the configuration from what the command line gave: `name`,
/// `author` and `description` are absent where they were not given, and
/// `current` is the name of the current directory.
pub fn build_config(
    language: &str,
    name: Option<&str>,
    current: &str,
    author: Option<&str>,
    description: Option<&str>,
    extras: Vec<String>,
    git: bool,
    verbose: bool,
) -> (r: ProjectConfig)
    ensures
        r.language@ == language@,
        r.name@ == project_name(name, current@),
        r.folder_name@ == project_folder(name),
        r.author@ == given_or(author, ""@),
        r.description@ == given_or(description, ""@),
        r.extras == extras,
        r.git == git,
        r.verbose == verbose,
{
    let given = match name {
        Some(text) => chars_of(text),
        None => chars_of("."),
    };
    let is_dot = same_chars(&given, &chars_of("."));
    let project = if name.is_some() && !is_dot {
        string_of(&given)
    } else {
        string_of(&chars_of(current))
    };
    let folder = replace_all(&given, &chars_of(" "), &chars_of(""));
    ProjectConfig {
        language: string_of(&chars_of(language)),
        name: project,
        folder_name: string_of(&folder),
        author: string_of(
            &chars_of(
                match author {
                    Some(text) => text,
                    None => "",
                },
            ),
        ),
        description: string_of(
            &chars_of(
                match description {
                    Some(text) => text,
                    None => "",
                },
            ),
        ),
        extras,
        git,
        verbose,
    }
}

/// What a run of the program does.
#[derive(Debug, Clone, Copy, PartialEq, Eq, Structural)]
pub enum Mode {
    /// Lists the languages that the template library holds.
    ListLanguages,
    /// Reports that the language is not supported.
    Unsupported,
    /// Lists the extras of the language.
    ListExtras,
    /// Creates the project.
    Scaffold,
}

/// The mode that `choose_mode` decides on.
pub open spec fn mode_of(language: Seq<char>, known: bool, alphabetic: bool, list_extras: bool) -> Mode {
    if language == "list"@ {
        Mode::ListLanguages
    } else if !known || !alphabetic {
        Mode::Unsupported
    } else if list_extras {
        Mode::ListExtras
    } else {
        Mode::Scaffold
    }
}

/// Decides what a run does. The language `list` asks for the languages;
/// any other language must be `known` to the template library and
/// `alphabetic`, and is then scaffolded unless its extras are asked for.
pub fn choose_mode(language: &str, known: bool, alphabetic: bool, list_extras: bool) -> (r: Mode)
    ensures
        r == mode_of(language@, known, alphabetic, list_extras),
{
    if same_chars(&chars_of(language), &chars_of("list")) {
        Mode::ListLanguages
    } else if !known || !alphabetic {
        Mode::Unsupported
    } else if list_extras {
        Mode::ListExtras
    } else {
        Mode::Scaffold
    }
}

} // verus!
