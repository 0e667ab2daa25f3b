use crate::config::{holds_name, ProjectConfig};
use crate::parse::{substitute, substituted, Extra, InitConfig};
use crate::text::{chars_of, slice_chars, string_of};
use vstd::prelude::*;

verus! {

/// The end of the field that starts at `i`: the position of the next space,
/// or the end of the text.
pub open spec fn field_end(s: Seq<char>, i: int) -> int
    decreases s.len() - i,
{
    if 0 <= i < s.len() && s[i] != ' ' {
        field_end(s, i + 1)
    } else {
        i
    }
}

pub proof fn lemma_field_end(s: Seq<char>, i: int)
    requires
        0 <= i <= s.len(),
    ensures
        i <= field_end(s, i) <= s.len(),
    decreases s.len() - i,
{
    if i < s.len() && s[i] != ' ' {
        lemma_field_end(s, i + 1);
    }
}

/// The fields of `s` from position `i` on: the pieces between single
/// spaces. Two spaces in a row hold an empty field between them, and a text
/// that ends in a space ends with an empty field.
pub open spec fn fields_from(s: Seq<char>, i: int) -> Seq<Seq<char>>
    decreases s.len() - i,
    via fields_from_decreases
{
    if i < 0 || i > s.len() {
        Seq::empty()
    } else {
        let e = field_end(s, i);
        if e >= s.len() {
            seq![s.subrange(i, e)]
        } else {
            seq![s.subrange(i, e)] + fields_from(s, e + 1)
        }
    }
}

#[via_fn]
proof fn fields_from_decreases(s: Seq<char>, i: int) {
    if 0 <= i <= s.len() {
        lemma_field_end(s, i);
    }
}

/// The fields of `s`; there is always a first one.
pub open spec fn fields(s: Seq<char>) -> Seq<Seq<char>> {
    fields_from(s, 0)
}

/// The program and the arguments of a command of the manifest: its fields
/// once the placeholders are substituted.
pub open spec fn command_fields(command: Seq<char>, config: ProjectConfig) -> Seq<Seq<char>> {
    fields(
        substituted(command, config.name@, config.author@, config.description@, config.folder_name@),
    )
}

/// The list `v` as a sequence of texts.
pub open spec fn texts(v: Seq<String>) -> Seq<Seq<char>> {
    Seq::new(v.len(), |i: int| v[i]@)
}

/// The end of the field that starts at `i`.
pub fn find_field_end(s: &Vec<char>, i: usize) -> (r: usize)
    requires
        i <= s.len(),
    ensures
        r == field_end(s@, i as int),
        i <= r <= s.len(),
{
    let mut k: usize = i;
    while k < s.len() && s[k] != ' '
        invariant
            i <= k <= s.len(),
            field_end(s@, k as int) == field_end(s@, i as int),
        decreases s.len() - k,
    {
        k += 1;
    }
    k
}

/// Splits a command of the manifest into the program, which comes first,
/// and its arguments.
pub fn command_parts(command: &str, config: &ProjectConfig) -> (r: Vec<String>)
    ensures
        texts(r@) == command_fields(command@, *config),
        r@.len() >= 1,
{
    let line = substitute(&chars_of(command), config);
    let mut out: Vec<String> = Vec::new();
    let mut i: usize = 0;
    loop
        invariant
            i <= line.len(),
            fields(line@) == command_fields(command@, *config),
            fields(line@) == texts(out@) + fields_from(line@, i as int),
        decreases line.len() - i,
    {
        let e = find_field_end(&line, i);
        let ghost before = texts(out@);
        out.push(string_of(&slice_chars(&line, i, e)));
        assert(texts(out@) =~= before + seq![line@.subrange(i as int, e as int)]);
        if e >= line.len() {
            assert(fields(line@) =~= texts(out@));
            return out;
        }
        assert(texts(out@) + fields_from(line@, e + 1) =~= before + fields_from(
            line@,
            i as int,
        ));
        i = e + 1;
    }
}

/// The extras that a manifest offers; none where it names none.
pub open spec fn offered(init_config: InitConfig) -> Seq<Extra> {
    match init_config.extras {
        Some(list) => list@,
        None => Seq::empty(),
    }
}

/// Whether the extra at `j` of the manifest was chosen.
pub open spec fn chosen(init_config: InitConfig, config: ProjectConfig, j: int) -> bool {
    0 <= j < offered(init_config).len() && config.selection().contains(
        offered(init_config)[j].name@,
    )
}

/// The positions, in the manifest's order, of the extras that were chosen.
pub fn selected_extras(init_config: &InitConfig, config: &ProjectConfig) -> (r: Vec<usize>)
    ensures
        forall|k: int| 0 <= k < r@.len() ==> chosen(*init_config, *config, #[trigger] r@[k] as int),
        forall|a: int, b: int| 0 <= a < b < r@.len() ==> r@[a] < r@[b],
        forall|j: int| chosen(*init_config, *config, j) ==> r@.contains(j as usize),
{
    let mut out: Vec<usize> = Vec::new();
    match &init_config.extras {
        None => {},
        Some(list) => {
            let mut j: usize = 0;
            while j < list.len()
                invariant
                    j <= list.len(),
                    offered(*init_config) == list@,
                    forall|k: int|
                        0 <= k < out@.len() ==> chosen(*init_config, *config, #[trigger] out@[k] as int)
                            && out@[k] < j,
                    forall|a: int, b: int| 0 <= a < b < out@.len() ==> out@[a] < out@[b],
                    forall|m: int|
                        0 <= m < j && chosen(*init_config, *config, m) ==> out@.contains(m as usize),
                decreases list.len() - j,
            {
                if holds_name(&config.extras, &chars_of(list[j].name.as_str())) {
                    let ghost before = out@;
                    out.push(j);
                    assert forall|m: int|
                        0 <= m < j + 1 && chosen(*init_config, *config, m) implies out@.contains(
                        m as usize,
                    ) by {
                        if m < j {
                            let w = choose|w: int| 0 <= w < before.len() && before[w] == m as usize;
                            assert(out@[w] == m as usize);
                        } else {
                            assert(out@[out@.len() - 1] == m as usize);
                        }
                    }
                }
                j += 1;
            }
        },
    }
    out
}

/// How far the creation of a project has come.
#[derive(Debug, Clone, Copy, PartialEq, Eq, Structural)]
pub enum Stage {
    /// Nothing was done yet: the repository is next.
    Git,
    /// The base files are next.
    BaseFiles,
    /// The commands of the manifest are next.
    Commands,
    /// The files of the extra at this position are next.
    ExtraFiles(usize),
    /// The files that the extra at this position excludes are next.
    ExtraRemovals(usize),
    /// Everything was done.
    Done,
}

/// What is to be done at a stage.
#[derive(Debug, Clone, Copy, PartialEq, Eq, Structural)]
pub enum Action {
    /// This stage asks for nothing.
    Nothing,
    /// Make the project's folder a repository.
    InitGit,
    /// Render and write the base files of the manifest.
    WriteBase,
    /// Run the commands of the manifest.
    RunCommands,
    /// Render and write the files of the extra at this position.
    WriteExtra(usize),
    /// Remove the files that the extra at this position excludes.
    RemoveExcluded(usize),
}

/// The stage that follows `stage`, and what is to be done at `stage`. The
/// repository comes first, and only where the configuration asks for one;
/// then the base files, then the commands, then the extras in the
/// manifest's order: an extra that was not chosen is passed
/// over, a chosen one has its files written and then its excluded files
/// removed.
pub open spec fn step(stage: Stage, config: ProjectConfig, init_config: InitConfig) -> (
    Stage,
    Action,
) {
    match stage {
        Stage::Git => (
            Stage::BaseFiles,
            if config.git {
                Action::InitGit
            } else {
                Action::Nothing
            },
        ),
        Stage::BaseFiles => (
            Stage::Commands,
            if init_config.files is Some {
                Action::WriteBase
            } else {
                Action::Nothing
            },
        ),
        Stage::Commands => (
            Stage::ExtraFiles(0),
            if init_config.commands is Some {
                Action::RunCommands
            } else {
                Action::Nothing
            },
        ),
        Stage::ExtraFiles(k) => if k >= offered(init_config).len() {
            (Stage::Done, Action::Nothing)
        } else if !chosen(init_config, config, k as int) {
            (Stage::ExtraFiles((k + 1) as usize), Action::Nothing)
        } else {
            (
                Stage::ExtraRemovals(k),
                if offered(init_config)[k as int].files is Some {
                    Action::WriteExtra(k)
                } else {
                    Action::Nothing
                },
            )
        },
        Stage::ExtraRemovals(k) => if k >= offered(init_config).len() {
            (Stage::Done, Action::Nothing)
        } else {
            (
                Stage::ExtraFiles((k + 1) as usize),
                if chosen(init_config, config, k as int) && offered(
                    init_config,
                )[k as int].excluded_files is Some {
                    Action::RemoveExcluded(k)
                } else {
                    Action::Nothing
                },
            )
        },
        Stage::Done => (Stage::Done, Action::Nothing),
    }
}

/// How many steps a stage is from the end at most, for a manifest that
/// offers `n` extras.
pub open spec fn steps_left(stage: Stage, n: int) -> int {
    match stage {
        Stage::Git => 2 * n + 4,
        Stage::BaseFiles => 2 * n + 3,
        Stage::Commands => 2 * n + 2,
        Stage::ExtraFiles(k) => if k < n {
            2 * (n - k) + 1
        } else {
            1
        },
        Stage::ExtraRemovals(k) => if k < n {
            2 * (n - k)
        } else {
            1
        },
        Stage::Done => 0,
    }
}

/// Every step from a stage that is not the last one comes nearer to the end,
/// and an action that names an extra names one that the manifest offers and
/// that was chosen.
pub proof fn lemma_step_progress(stage: Stage, config: ProjectConfig, init_config: InitConfig)
    requires
        offered(init_config).len() <= usize::MAX,
    ensures
        stage != Stage::Done ==> 0 <= steps_left(
            step(stage, config, init_config).0,
            offered(init_config).len() as int,
        ) < steps_left(stage, offered(init_config).len() as int),
        match step(stage, config, init_config).1 {
            Action::WriteExtra(k) => chosen(init_config, config, k as int),
            Action::RemoveExcluded(k) => chosen(init_config, config, k as int),
            _ => true,
        },
{
}

/// The action as a list: empty where nothing is asked for.
pub open spec fn asked(action: Action) -> Seq<Action> {
    if action == Action::Nothing {
        Seq::empty()
    } else {
        seq![action]
    }
}

/// What is done from `stage` to the end, in order.
pub open spec fn trace(stage: Stage, config: ProjectConfig, init_config: InitConfig) -> Seq<Action>
    decreases steps_left(stage, offered(init_config).len() as int),
    via trace_decreases
{
    if stage == Stage::Done || offered(init_config).len() > usize::MAX {
        Seq::empty()
    } else {
        asked(step(stage, config, init_config).1) + trace(
            step(stage, config, init_config).0,
            config,
            init_config,
        )
    }
}

#[via_fn]
proof fn trace_decreases(stage: Stage, config: ProjectConfig, init_config: InitConfig) {
    if offered(init_config).len() <= usize::MAX {
        lemma_step_progress(stage, config, init_config);
    }
}

/// What the extra at `k` asks for: nothing where it was not chosen, else
/// its files written and then its excluded files removed, each where the
/// manifest names any.
pub open spec fn extra_actions(init_config: InitConfig, config: ProjectConfig, k: int) -> Seq<Action> {
    if !chosen(init_config, config, k) {
        Seq::empty()
    } else {
        (if offered(init_config)[k].files is Some {
            seq![Action::WriteExtra(k as usize)]
        } else {
            Seq::empty()
        }) + (if offered(init_config)[k].excluded_files is Some {
            seq![Action::RemoveExcluded(k as usize)]
        } else {
            Seq::empty()
        })
    }
}

/// What the extras from position `k` on ask for, in the manifest's order.
pub open spec fn extras_actions_from(init_config: InitConfig, config: ProjectConfig, k: int) -> Seq<
    Action,
>
    decreases offered(init_config).len() - k,
{
    if k < 0 || k >= offered(init_config).len() {
        Seq::empty()
    } else {
        extra_actions(init_config, config, k) + extras_actions_from(init_config, config, k + 1)
    }
}

/// Everything that the creation of a project does, in order: the
/// repository if and only if the configuration asks for it, the base files,
/// the commands, then the extras.
pub open spec fn planned(config: ProjectConfig, init_config: InitConfig) -> Seq<Action> {
    (if config.git {
        seq![Action::InitGit]
    } else {
        Seq::empty()
    }) + (if init_config.files is Some {
        seq![Action::WriteBase]
    } else {
        Seq::empty()
    }) + (if init_config.commands is Some {
        seq![Action::RunCommands]
    } else {
        Seq::empty()
    }) + extras_actions_from(init_config, config, 0)
}

proof fn lemma_trace_extras(config: ProjectConfig, init_config: InitConfig, k: usize)
    requires
        offered(init_config).len() <= usize::MAX,
        k <= offered(init_config).len(),
    ensures
        trace(Stage::ExtraFiles(k), config, init_config) == extras_actions_from(
            init_config,
            config,
            k as int,
        ),
    decreases offered(init_config).len() - k,
{
    let n = offered(init_config).len();
    if k < n {
        let next = (k + 1) as usize;
        lemma_trace_extras(config, init_config, next);
        if chosen(init_config, config, k as int) {
            let removals = Stage::ExtraRemovals(k);
            assert(trace(removals, config, init_config) == asked(
                step(removals, config, init_config).1,
            ) + trace(Stage::ExtraFiles(next), config, init_config));
            assert(trace(Stage::ExtraFiles(k), config, init_config) =~= extras_actions_from(
                init_config,
                config,
                k as int,
            ));
        } else {
            assert(trace(Stage::ExtraFiles(k), config, init_config) =~= extras_actions_from(
                init_config,
                config,
                k as int,
            ));
        }
    } else {
        assert(trace(Stage::Done, config, init_config) =~= Seq::<Action>::empty());
        assert(trace(Stage::ExtraFiles(k), config, init_config) =~= Seq::<Action>::empty());
    }
}

/// Following the stages from the first one does exactly what is planned, in
/// that order.
pub proof fn lemma_trace_order(config: ProjectConfig, init_config: InitConfig)
    requires
        offered(init_config).len() <= usize::MAX,
    ensures
        trace(Stage::Git, config, init_config) == planned(config, init_config),
{
    lemma_trace_extras(config, init_config, 0);
    assert(trace(Stage::Commands, config, init_config) == asked(
        step(Stage::Commands, config, init_config).1,
    ) + trace(Stage::ExtraFiles(0), config, init_config));
    assert(trace(Stage::BaseFiles, config, init_config) == asked(
        step(Stage::BaseFiles, config, init_config).1,
    ) + trace(Stage::Commands, config, init_config));
    assert(trace(Stage::Git, config, init_config) == asked(
        step(Stage::Git, config, init_config).1,
    ) + trace(Stage::BaseFiles, config, init_config));
    assert(trace(Stage::Git, config, init_config) =~= planned(config, init_config));
}

/// Tells what is to be done at `stage`, and which stage follows.
pub fn advance(stage: Stage, config: &ProjectConfig, init_config: &InitConfig) -> (r: (
    Stage,
    Action,
))
    ensures
        r == step(stage, *config, *init_config),
{
    match stage {
        Stage::Git => (
            Stage::BaseFiles,
            if config.git {
                Action::InitGit
            } else {
                Action::Nothing
            },
        ),
        Stage::BaseFiles => (
            Stage::Commands,
            if init_config.files.is_some() {
                Action::WriteBase
            } else {
                Action::Nothing
            },
        ),
        Stage::Commands => (
            Stage::ExtraFiles(0),
            if init_config.commands.is_some() {
                Action::RunCommands
            } else {
                Action::Nothing
            },
        ),
        Stage::ExtraFiles(k) => match &init_config.extras {
            None => (Stage::Done, Action::Nothing),
            Some(list) => if k >= list.len() {
                (Stage::Done, Action::Nothing)
            } else if !holds_name(&config.extras, &chars_of(list[k].name.as_str())) {
                (Stage::ExtraFiles(k + 1), Action::Nothing)
            } else {
                (
                    Stage::ExtraRemovals(k),
                    if list[k].files.is_some() {
                        Action::WriteExtra(k)
                    } else {
                        Action::Nothing
                    },
                )
            },
        },
        Stage::ExtraRemovals(k) => match &init_config.extras {
            None => (Stage::Done, Action::Nothing),
            Some(list) => if k >= list.len() {
                (Stage::Done, Action::Nothing)
            } else {
                (
                    Stage::ExtraFiles(k + 1),
                    if list[k].excluded_files.is_some() && holds_name(
                        &config.extras,
                        &chars_of(list[k].name.as_str()),
                    ) {
                        Action::RemoveExcluded(k)
                    } else {
                        Action::Nothing
                    },
                )
            },
        },
        Stage::Done => (Stage::Done, Action::Nothing),
    }
}

/// Everything that the creation of a project does, in order: the stages
/// followed from the first to the last.
pub fn plan(config: &ProjectConfig, init_config: &InitConfig) -> (r: Vec<Action>)
    ensures
        r@ == planned(*config, *init_config),
{
    let total: usize = match &init_config.extras {
        Some(list) => list.len(),
        None => 0,
    };
    proof {
        assert(offered(*init_config).len() == total);
        lemma_trace_order(*config, *init_config);
    }
    let mut out: Vec<Action> = Vec::new();
    let mut stage = Stage::Git;
    while stage != Stage::Done
        invariant
            offered(*init_config).len() <= usize::MAX,
            planned(*config, *init_config) == out@ + trace(stage, *config, *init_config),
        decreases steps_left(stage, offered(*init_config).len() as int),
    {
        let ghost before = out@;
        let ghost rest = trace(stage, *config, *init_config);
        proof {
            lemma_step_progress(stage, *config, *init_config);
        }
        let (next, action) = advance(stage, config, init_config);
        if action != Action::Nothing {
            out.push(action);
        }
        assert(out@ + trace(next, *config, *init_config) =~= before + rest);
        stage = next;
    }
    assert(out@ + Seq::<Action>::empty() =~= out@);
    out
}

} // verus!
