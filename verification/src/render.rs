use crate::blocks::{resolve_chars, resolved, RenderError};
use crate::config::{holds_name, name_set, ProjectConfig};
use crate::parse::{substitute, substituted, InitConfig};
use crate::text::{append_chars, chars_of, string_of};
use vstd::prelude::*;

verus! {

/// The directory type of the template library, `include_dir::Dir`. Its
/// contents are not visible here: a value is only handed on to `load_text`.
#[verifier::external_type_specification]
#[verifier::external_body]
pub struct ExDir<'a>(include_dir::Dir<'a>);

/// The text that the template library `dir` holds under `path`: what
/// `Dir::get_file` finds there, read as UTF-8 by `File::contents_utf8`;
/// `None` where it finds no file, or one that is not UTF-8.
pub uninterp spec fn stored_text(dir: include_dir::Dir<'static>, path: Seq<char>) -> Option<
    Seq<char>,
>;

/// Looks `path` up in the template library with `Dir::get_file` and reads
/// the file found with `File::contents_utf8`. Nothing is proved of the
/// lookup: its result is named `stored_text`.
#[verifier::external_body]
fn load_text(dir: &include_dir::Dir<'static>, path: &str) -> (r: Option<String>)
    ensures
        match r {
            Some(text) => stored_text(*dir, path@) == Some(text@),
            None => stored_text(*dir, path@) is None,
        },
{
    match dir.get_file(path) {
        Some(file) => file.contents_utf8().map(String::from),
        None => None,
    }
}

/// What rendering gives for the raw text `raw` of a template, absent where
/// the library has none: blocks are resolved where `needs_blocks` says so
/// and only there, and placeholders are substituted last. Nothing else of
/// the text changes.
pub open spec fn outcome(
    raw: Option<Seq<char>>,
    needs_blocks: bool,
    sel: Set<Seq<char>>,
    name: Seq<char>,
    author: Seq<char>,
    description: Seq<char>,
    folder: Seq<char>,
) -> Result<Seq<char>, RenderError> {
    match raw {
        None => Err(RenderError::NotFound),
        Some(text) => if needs_blocks {
            match resolved(text, sel) {
                None => Err(RenderError::MalformedBlock),
                Some(t) => Ok(substituted(t, name, author, description, folder)),
            }
        } else {
            Ok(substituted(text, name, author, description, folder))
        },
    }
}

/// `outcome` with the values of `config`.
pub open spec fn outcome_for(raw: Option<Seq<char>>, needs_blocks: bool, config: ProjectConfig) -> Result<
    Seq<char>,
    RenderError,
> {
    outcome(
        raw,
        needs_blocks,
        config.selection(),
        config.name@,
        config.author@,
        config.description@,
        config.folder_name@,
    )
}

/// Whether the exec result `r` is the spec result `want`.
pub open spec fn agrees(r: Result<String, RenderError>, want: Result<Seq<char>, RenderError>) -> bool {
    match want {
        Ok(t) => r is Ok && r->Ok_0@ == t,
        Err(e) => r == Err::<String, RenderError>(e),
    }
}

/// Renders the raw text of one template; `None` stands for a template that
/// the library does not hold.
pub fn render_text(raw: Option<&str>, needs_blocks: bool, config: &ProjectConfig) -> (r: Result<
    String,
    RenderError,
>)
    ensures
        agrees(
            r,
            outcome_for(
                match raw {
                    Some(t) => Some(t@),
                    None => None,
                },
                needs_blocks,
                *config,
            ),
        ),
{
    let text = match raw {
        Some(t) => chars_of(t),
        None => {
            return Err(RenderError::NotFound);
        },
    };
    if needs_blocks {
        match resolve_chars(&text, &config.extras) {
            Ok(t) => Ok(string_of(&substitute(&t, config))),
            Err(e) => Err(e),
        }
    } else {
        Ok(string_of(&substitute(&text, config)))
    }
}

/// Renders the template that the library `dir` holds under `template_path`.
pub fn render(
    dir: &include_dir::Dir<'static>,
    template_path: &str,
    needs_blocks: bool,
    config: &ProjectConfig,
) -> (r: Result<String, RenderError>)
    ensures
        agrees(r, outcome_for(stored_text(*dir, template_path@), needs_blocks, *config)),
{
    match load_text(dir, template_path) {
        Some(text) => render_text(Some(text.as_str()), needs_blocks, config),
        None => render_text(None, needs_blocks, config),
    }
}

/// One file to write: where it goes and what it holds.
#[derive(Debug, Clone)]
pub struct RenderedFile {
    pub path: String,
    pub contents: String,
}

/// The path `b` below the directory `a`.
pub open spec fn joined(a: Seq<char>, b: Seq<char>) -> Seq<char> {
    a + seq!['/'] + b
}

/// Where the template `file` is written: below the project's folder, under
/// its own name with the placeholders substituted.
pub open spec fn destination(file: Seq<char>, config: ProjectConfig) -> Seq<char> {
    joined(
        config.folder_name@,
        substituted(file, config.name@, config.author@, config.description@, config.folder_name@),
    )
}

/// Whether the manifest flags `file` as one that holds blocks.
pub open spec fn flagged(init_config: InitConfig, file: Seq<char>) -> bool {
    match init_config.files_containing_extras {
        Some(list) => name_set(list@).contains(file),
        None => false,
    }
}

/// What rendering the template `file` of the project's language gives.
pub open spec fn file_outcome(
    dir: include_dir::Dir<'static>,
    file: Seq<char>,
    config: ProjectConfig,
    init_config: InitConfig,
) -> Result<Seq<char>, RenderError> {
    outcome_for(stored_text(dir, joined(config.language@, file)), flagged(init_config, file), config)
}

/// What rendering each of `files` gives, one outcome for each file.
pub open spec fn outcomes(
    dir: include_dir::Dir<'static>,
    files: Seq<Seq<char>>,
    config: ProjectConfig,
    init_config: InitConfig,
) -> Seq<Result<Seq<char>, RenderError>> {
    Seq::new(files.len(), |i: int| file_outcome(dir, files[i], config, init_config))
}

/// The path `b` below the directory `a`.
pub fn join_path(a: &Vec<char>, b: &Vec<char>) -> (r: Vec<char>)
    ensures
        r@ == joined(a@, b@),
{
    let mut out: Vec<char> = Vec::new();
    append_chars(&mut out, a);
    out.push('/');
    append_chars(&mut out, b);
    assert(out@ =~= joined(a@, b@));
    out
}

/// Where the template `file` is written.
pub fn destination_path(file: &str, config: &ProjectConfig) -> (r: String)
    ensures
        r@ == destination(file@, *config),
{
    let name = substitute(&chars_of(file), config);
    string_of(&join_path(&chars_of(config.folder_name.as_str()), &name))
}

/// Whether the manifest flags `file` as one that holds blocks.
pub fn needs_blocks(init_config: &InitConfig, file: &str) -> (r: bool)
    ensures
        r == flagged(*init_config, file@),
{
    match &init_config.files_containing_extras {
        Some(list) => holds_name(list, &chars_of(file)),
        None => false,
    }
}

/// Renders the template `file` of the project's language: the library is
/// asked for it below the language's directory, blocks are resolved where
/// the manifest flags the file, and the result goes below the project's
/// folder.
pub fn render_file(
    file: &str,
    dir: &include_dir::Dir<'static>,
    config: &ProjectConfig,
    init_config: &InitConfig,
) -> (r: Result<RenderedFile, RenderError>)
    ensures
        match r {
            Ok(rendered) => rendered.path@ == destination(file@, *config) && file_outcome(
                *dir,
                file@,
                *config,
                *init_config,
            ) == Ok::<Seq<char>, RenderError>(rendered.contents@),
            Err(e) => file_outcome(*dir, file@, *config, *init_config) == Err::<
                Seq<char>,
                RenderError,
            >(e),
        },
{
    let key = string_of(&join_path(&chars_of(config.language.as_str()), &chars_of(file)));
    match render(dir, key.as_str(), needs_blocks(init_config, file), config) {
        Ok(contents) => Ok(RenderedFile { path: destination_path(file, config), contents }),
        Err(e) => Err(e),
    }
}

/// The file at which rendering stopped, by its position in the list, and
/// why.
#[derive(Debug, Clone, Copy, PartialEq, Eq, Structural)]
pub struct RenderFailure {
    pub index: usize,
    pub error: RenderError,
}

/// Renders each of `files` in turn, and stops at the first that fails. Each
/// result is that of its own file alone, whatever was rendered before it.
pub fn render_files(
    files: &Vec<String>,
    dir: &include_dir::Dir<'static>,
    config: &ProjectConfig,
    init_config: &InitConfig,
) -> (r: Result<Vec<RenderedFile>, RenderFailure>)
    ensures
        match r {
            Ok(v) => v@.len() == files@.len() && forall|i: int|
                0 <= i < files@.len() ==> (#[trigger] v@[i]).path@ == destination(
                    files@[i]@,
                    *config,
                ) && file_outcome(*dir, files@[i]@, *config, *init_config) == Ok::<
                    Seq<char>,
                    RenderError,
                >(v@[i].contents@),
            Err(stop) => stop.index < files@.len() && file_outcome(
                *dir,
                files@[stop.index as int]@,
                *config,
                *init_config,
            ) == Err::<Seq<char>, RenderError>(stop.error) && forall|k: int|
                0 <= k < stop.index ==> (#[trigger] file_outcome(
                    *dir,
                    files@[k]@,
                    *config,
                    *init_config,
                )) is Ok,
        },
{
    let mut out: Vec<RenderedFile> = Vec::new();
    let mut i: usize = 0;
    while i < files.len()
        invariant
            i <= files.len(),
            out@.len() == i,
            forall|k: int|
                0 <= k < i ==> (#[trigger] out@[k]).path@ == destination(files@[k]@, *config)
                    && file_outcome(*dir, files@[k]@, *config, *init_config) == Ok::<
                    Seq<char>,
                    RenderError,
                >(out@[k].contents@),
            forall|k: int|
                0 <= k < i ==> (#[trigger] file_outcome(
                    *dir,
                    files@[k]@,
                    *config,
                    *init_config,
                )) is Ok,
        decreases files.len() - i,
    {
        match render_file(files[i].as_str(), dir, config, init_config) {
            Ok(rendered) => out.push(rendered),
            Err(error) => {
                return Err(RenderFailure { index: i, error });
            },
        }
        i += 1;
    }
    Ok(out)
}

/// The paths of the files that an extra excludes, each below the project's
/// folder with its placeholders substituted.
pub fn removal_paths(files: &Vec<String>, config: &ProjectConfig) -> (r: Vec<String>)
    ensures
        r@.len() == files@.len(),
        forall|i: int| 0 <= i < files@.len() ==> (#[trigger] r@[i])@ == destination(files@[i]@, *config),
{
    let mut out: Vec<String> = Vec::new();
    let mut i: usize = 0;
    while i < files.len()
        invariant
            i <= files.len(),
            out@.len() == i,
            forall|k: int| 0 <= k < i ==> (#[trigger] out@[k])@ == destination(files@[k]@, *config),
        decreases files.len() - i,
    {
        out.push(destination_path(files[i].as_str(), config));
        i += 1;
    }
    out
}

} // verus!
