use crate::config::ProjectConfig;
use crate::text::{
    append_chars, chars_of, lowered, matches_at, occurs_at, occurs_in, replace_all, replaced,
    replaced_from, string_of, to_lower,
};
use vstd::prelude::*;

verus! {

/// What a language's template set consists of.
#[derive(Debug, Clone)]
pub struct InitConfig {
    pub language: String,
    pub files: Option<Vec<String>>,
    pub commands: Option<Vec<String>>,
    pub files_containing_extras: Option<Vec<String>>,
    pub extras: Option<Vec<Extra>>,
}

/// An optional bundle of files that a project may take.
#[derive(Debug, Clone)]
pub struct Extra {
    pub name: String,
    pub description: String,
    pub files: Option<Vec<String>>,
    pub excluded_files: Option<Vec<String>>,
}

/// The project's name in lower case, with `_` for each space.
pub open spec fn lower_name(name: Seq<char>) -> Seq<char> {
    replaced(lowered(name), " "@, "_"@)
}

/// The length of the placeholder that stands in `text` at `i`; 0 where
/// none stands there. No placeholder begins another, so at most one does.
pub open spec fn token_len_at(text: Seq<char>, i: int) -> int {
    if occurs_at(text, "{{projectName}}"@, i) {
        "{{projectName}}"@.len() as int
    } else if occurs_at(text, "{{projectNameLower}}"@, i) {
        "{{projectNameLower}}"@.len() as int
    } else if occurs_at(text, "{{author}}"@, i) {
        "{{author}}"@.len() as int
    } else if occurs_at(text, "{{projectDescription}}"@, i) {
        "{{projectDescription}}"@.len() as int
    } else if occurs_at(text, "{{folderPath}}"@, i) {
        "{{folderPath}}"@.len() as int
    } else {
        0
    }
}

/// The value of the placeholder that stands in `text` at `i`.
pub open spec fn token_value_at(
    text: Seq<char>,
    i: int,
    name: Seq<char>,
    author: Seq<char>,
    description: Seq<char>,
    folder: Seq<char>,
) -> Seq<char> {
    if occurs_at(text, "{{projectName}}"@, i) {
        name
    } else if occurs_at(text, "{{projectNameLower}}"@, i) {
        lower_name(name)
    } else if occurs_at(text, "{{author}}"@, i) {
        author
    } else if occurs_at(text, "{{projectDescription}}"@, i) {
        description
    } else {
        folder
    }
}

/// The text from `i` on after one pass from the left: where a placeholder
/// stands its value is put, and the pass goes on behind the placeholder;
/// any other character stays. A value that was put in is not read again.
pub open spec fn substituted_from(
    text: Seq<char>,
    i: int,
    name: Seq<char>,
    author: Seq<char>,
    description: Seq<char>,
    folder: Seq<char>,
) -> Seq<char>
    decreases text.len() - i,
{
    if i < 0 || i >= text.len() {
        Seq::empty()
    } else if token_len_at(text, i) > 0 {
        token_value_at(text, i, name, author, description, folder) + substituted_from(
            text,
            i + token_len_at(text, i),
            name,
            author,
            description,
            folder,
        )
    } else {
        seq![text[i]] + substituted_from(text, i + 1, name, author, description, folder)
    }
}

/// `text` with each of the five placeholders replaced by its value, in one
/// pass. Any other text in double braces stays.
pub open spec fn substituted(
    text: Seq<char>,
    name: Seq<char>,
    author: Seq<char>,
    description: Seq<char>,
    folder: Seq<char>,
) -> Seq<char> {
    substituted_from(text, 0, name, author, description, folder)
}

/// Whether one of the five placeholders stands in `text`.
pub open spec fn has_placeholder(text: Seq<char>) -> bool {
    ||| occurs_in(text, "{{projectName}}"@)
    ||| occurs_in(text, "{{projectNameLower}}"@)
    ||| occurs_in(text, "{{author}}"@)
    ||| occurs_in(text, "{{projectDescription}}"@)
    ||| occurs_in(text, "{{folderPath}}"@)
}

/// Substitution on characters: see `substituted`.
pub fn substitute(text: &Vec<char>, config: &ProjectConfig) -> (r: Vec<char>)
    ensures
        r@ == substituted(
            text@,
            config.name@,
            config.author@,
            config.description@,
            config.folder_name@,
        ),
{
    let name = chars_of(config.name.as_str());
    let lower = replace_all(&to_lower(&name), &chars_of(" "), &chars_of("_"));
    let author = chars_of(config.author.as_str());
    let description = chars_of(config.description.as_str());
    let folder = chars_of(config.folder_name.as_str());
    let t_name = chars_of("{{projectName}}");
    let t_lower = chars_of("{{projectNameLower}}");
    let t_author = chars_of("{{author}}");
    let t_description = chars_of("{{projectDescription}}");
    let t_folder = chars_of("{{folderPath}}");
    let mut out: Vec<char> = Vec::new();
    let mut i: usize = 0;
    while i < text.len()
        invariant
            i <= text.len(),
            name@ == config.name@,
            lower@ == lower_name(config.name@),
            author@ == config.author@,
            description@ == config.description@,
            folder@ == config.folder_name@,
            t_name@ == "{{projectName}}"@,
            t_lower@ == "{{projectNameLower}}"@,
            t_author@ == "{{author}}"@,
            t_description@ == "{{projectDescription}}"@,
            t_folder@ == "{{folderPath}}"@,
            substituted(text@, name@, author@, description@, folder@) == out@ + substituted_from(
                text@,
                i as int,
                name@,
                author@,
                description@,
                folder@,
            ),
        decreases text.len() - i,
    {
        let ghost before = out@;
        let ghost rest = substituted_from(text@, i as int, name@, author@, description@, folder@);
        let (len, value): (usize, &Vec<char>) = if matches_at(text, &t_name, i) {
            (t_name.len(), &name)
        } else if matches_at(text, &t_lower, i) {
            (t_lower.len(), &lower)
        } else if matches_at(text, &t_author, i) {
            (t_author.len(), &author)
        } else if matches_at(text, &t_description, i) {
            (t_description.len(), &description)
        } else if matches_at(text, &t_folder, i) {
            (t_folder.len(), &folder)
        } else {
            (0, &folder)
        };
        assert(len == token_len_at(text@, i as int));
        if len > 0 {
            assert(value@ == token_value_at(text@, i as int, name@, author@, description@, folder@));
            append_chars(&mut out, value);
            assert(out@ + substituted_from(
                text@,
                i + len,
                name@,
                author@,
                description@,
                folder@,
            ) =~= before + rest);
            i += len;
        } else {
            out.push(text[i]);
            assert(out@ + substituted_from(text@, i + 1, name@, author@, description@, folder@)
                =~= before + rest);
            i += 1;
        }
    }
    assert(out@ + Seq::<char>::empty() =~= out@);
    out
}

/// Replaces the placeholders of `string` by the values of `config`.
pub fn replace_placeholders(string: &str, config: &ProjectConfig) -> (r: String)
    ensures
        r@ == substituted(
            string@,
            config.name@,
            config.author@,
            config.description@,
            config.folder_name@,
        ),
{
    let text = chars_of(string);
    let out = substitute(&text, config);
    string_of(&out)
}

/// Substitution leaves a text without placeholders unchanged.
pub proof fn lemma_substituted_plain(
    text: Seq<char>,
    name: Seq<char>,
    author: Seq<char>,
    description: Seq<char>,
    folder: Seq<char>,
)
    requires
        !has_placeholder(text),
    ensures
        substituted(text, name, author, description, folder) == text,
{
    lemma_substituted_plain_from(text, 0, name, author, description, folder);
    assert(text.subrange(0, text.len() as int) =~= text);
}

proof fn lemma_substituted_plain_from(
    text: Seq<char>,
    i: int,
    name: Seq<char>,
    author: Seq<char>,
    description: Seq<char>,
    folder: Seq<char>,
)
    requires
        !has_placeholder(text),
        0 <= i <= text.len(),
    ensures
        substituted_from(text, i, name, author, description, folder) == text.subrange(
            i,
            text.len() as int,
        ),
    decreases text.len() - i,
{
    let n = text.len() as int;
    if i < n {
        assert(token_len_at(text, i) == 0);
        lemma_substituted_plain_from(text, i + 1, name, author, description, folder);
        assert(seq![text[i]] + text.subrange(i + 1, n) =~= text.subrange(i, n));
    } else {
        assert(text.subrange(i, n) =~= Seq::<char>::empty());
    }
}

/// A second substitution changes nothing where the first left no
/// placeholder.
pub proof fn lemma_substitution_idempotent(
    text: Seq<char>,
    name: Seq<char>,
    author: Seq<char>,
    description: Seq<char>,
    folder: Seq<char>,
)
    requires
        !has_placeholder(substituted(text, name, author, description, folder)),
    ensures
        substituted(substituted(text, name, author, description, folder), name, author, description, folder)
            == substituted(text, name, author, description, folder),
{
    let s = substituted(text, name, author, description, folder);
    lemma_substituted_plain(s, name, author, description, folder);
}

/// Whether `s` holds no opening brace.
pub open spec fn brace_free(s: Seq<char>) -> bool {
    forall|k: int| 0 <= k < s.len() ==> s[k] != '{'
}

/// Whether every opening brace of `text` from `i` on belongs to a
/// placeholder that the pass replaces.
pub open spec fn braces_in_tokens_from(text: Seq<char>, i: int) -> bool
    decreases text.len() - i,
{
    if i < 0 || i >= text.len() {
        true
    } else if token_len_at(text, i) > 0 {
        braces_in_tokens_from(text, i + token_len_at(text, i))
    } else {
        text[i] != '{' && braces_in_tokens_from(text, i + 1)
    }
}

/// Whether every opening brace of `text` belongs to a placeholder.
pub open spec fn braces_in_tokens(text: Seq<char>) -> bool {
    braces_in_tokens_from(text, 0)
}

proof fn lemma_replaced_brace_free(s: Seq<char>, from: Seq<char>, to: Seq<char>, i: int)
    requires
        brace_free(s),
        brace_free(to),
    ensures
        brace_free(replaced_from(s, from, to, i)),
    decreases s.len() - i,
{
    if 0 <= i < s.len() {
        if from.len() > 0 && occurs_at(s, from, i) {
            lemma_replaced_brace_free(s, from, to, i + from.len());
        } else {
            lemma_replaced_brace_free(s, from, to, i + 1);
        }
    }
}

/// The lower-case form of a name without opening braces has none.
pub proof fn lemma_lower_name_brace_free(name: Seq<char>)
    requires
        brace_free(name),
    ensures
        brace_free(lower_name(name)),
{
    reveal_strlit("_");
    assert forall|k: int| 0 <= k < lowered(name).len() implies lowered(name)[k] != '{' by {
        let c = name[k];
        if 'A' <= c && c <= 'Z' {
            assert(((c as u8 + 32) as u8) as char != '{');
        }
    }
    lemma_replaced_brace_free(lowered(name), " "@, "_"@, 0);
}

/// A text without opening braces holds no placeholder.
pub proof fn lemma_brace_free_plain(text: Seq<char>)
    requires
        brace_free(text),
    ensures
        !has_placeholder(text),
{
    reveal_strlit("{{projectName}}");
    reveal_strlit("{{projectNameLower}}");
    reveal_strlit("{{author}}");
    reveal_strlit("{{projectDescription}}");
    reveal_strlit("{{folderPath}}");
    assert forall|tok: Seq<char>, i: int|
        tok.len() > 0 && tok[0] == '{' && occurs_at(text, tok, i) implies false by {
        assert(text.subrange(i, i + tok.len())[0] == text[i]);
    }
}

proof fn lemma_substituted_brace_free(
    text: Seq<char>,
    i: int,
    name: Seq<char>,
    author: Seq<char>,
    description: Seq<char>,
    folder: Seq<char>,
)
    requires
        brace_free(name),
        brace_free(lower_name(name)),
        brace_free(author),
        brace_free(description),
        brace_free(folder),
        braces_in_tokens_from(text, i),
    ensures
        brace_free(substituted_from(text, i, name, author, description, folder)),
    decreases text.len() - i,
{
    if 0 <= i < text.len() {
        if token_len_at(text, i) > 0 {
            lemma_substituted_brace_free(
                text,
                i + token_len_at(text, i),
                name,
                author,
                description,
                folder,
            );
        } else {
            lemma_substituted_brace_free(text, i + 1, name, author, description, folder);
        }
    }
}

/// Idempotence of substitution. Where no value holds an opening brace and
/// every opening brace of the text belongs to a placeholder, the result
/// holds no opening brace, so none of the five placeholders, and a second
/// substitution leaves it as it is.
pub proof fn lemma_substitution_settles(
    text: Seq<char>,
    name: Seq<char>,
    author: Seq<char>,
    description: Seq<char>,
    folder: Seq<char>,
)
    requires
        brace_free(name),
        brace_free(author),
        brace_free(description),
        brace_free(folder),
        braces_in_tokens(text),
    ensures
        brace_free(substituted(text, name, author, description, folder)),
        !has_placeholder(substituted(text, name, author, description, folder)),
        substituted(substituted(text, name, author, description, folder), name, author, description, folder)
            == substituted(text, name, author, description, folder),
{
    lemma_lower_name_brace_free(name);
    lemma_substituted_brace_free(text, 0, name, author, description, folder);
    let s = substituted(text, name, author, description, folder);
    lemma_brace_free_plain(s);
    lemma_substituted_plain(s, name, author, description, folder);
}

} // verus!
