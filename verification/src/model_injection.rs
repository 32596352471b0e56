//! Metadata injection and template expansion: the steps that turn freshly
//! parsed configuration entities into executable ones.

use vstd::prelude::*;
use crate::models::{Pipeline, Task, Template};
use crate::ordering::{
    lemma_lex_le_total, lemma_lex_le_trans, lex_le, lex_le_chars, sort_by_key, sorted_le, SortKey,
};
use crate::strutil::{chars_of, lower_of, lowercase, replace_all, replace_chars, string_of};

verus! {

impl SortKey for Task {
    /// Tasks are listed by case-insensitive name.
    open spec fn le(a: &Self, b: &Self) -> bool {
        lex_le(lower_of(a.name@), lower_of(b.name@))
    }

    proof fn le_total(a: &Self, b: &Self) {
        lemma_lex_le_total(lower_of(a.name@), lower_of(b.name@));
    }

    proof fn le_trans(a: &Self, b: &Self, c: &Self) {
        lemma_lex_le_trans(lower_of(a.name@), lower_of(b.name@), lower_of(c.name@));
    }

    fn le_exec(a: &Self, b: &Self) -> (r: bool) {
        let la = lowercase(a.name.as_str());
        let lb = lowercase(b.name.as_str());
        lex_le_chars(&chars_of(la.as_str()), &chars_of(lb.as_str()))
    }
}

impl SortKey for Pipeline {
    /// Pipelines are listed by case-insensitive name.
    open spec fn le(a: &Self, b: &Self) -> bool {
        lex_le(lower_of(a.name@), lower_of(b.name@))
    }

    proof fn le_total(a: &Self, b: &Self) {
        lemma_lex_le_total(lower_of(a.name@), lower_of(b.name@));
    }

    proof fn le_trans(a: &Self, b: &Self, c: &Self) {
        lemma_lex_le_trans(lower_of(a.name@), lower_of(b.name@), lower_of(c.name@));
    }

    fn le_exec(a: &Self, b: &Self) -> (r: bool) {
        let la = lowercase(a.name.as_str());
        let lb = lowercase(b.name.as_str());
        lex_le_chars(&chars_of(la.as_str()), &chars_of(lb.as_str()))
    }
}

/// Copies an optional string.
fn clone_opt_string(o: &Option<String>) -> (r: Option<String>)
    ensures
        r == *o,
{
    match o {
        Some(s) => Some(s.clone()),
        None => None,
    }
}

/// `out` is `orig` with the provenance file path injected and, if `orig`
/// carried no description, the command text as its default description.
pub open spec fn task_meta_injected(orig: Task, out: Task, fp: Seq<char>) -> bool {
    &&& out.name == orig.name
    &&& out.command == orig.command
    &&& out.uses == orig.uses
    &&& out.values == orig.values
    &&& out.hide == orig.hide
    &&& out.workdir == orig.workdir
    &&& out.file_path matches Some(p) && p@ == fp
    &&& if orig.description is Some {
        out.description == orig.description
    } else {
        out.description == orig.command
    }
}

/// Inject additional metadata into each Task and sort based on name.
///
/// The result holds, in case-insensitive name order, exactly the input
/// tasks with `file_path` set and absent descriptions defaulted to the
/// command text.
pub fn inject_task_metadata(tasks: Vec<Task>, file_path: &str) -> (r: Vec<Task>)
    ensures
        sorted_le(r@),
        exists|m: Seq<Task>|
            (#[trigger] m.to_multiset()) == r@.to_multiset() && m.len() == tasks@.len() && forall|
                k: int,
            | 0 <= k < m.len() ==> task_meta_injected(tasks@[k], m[k], file_path@),
{
    let ghost orig = tasks@;
    let mut rest = tasks;
    let mut mapped: Vec<Task> = Vec::new();
    while rest.len() > 0
        invariant
            mapped@.len() + rest@.len() == orig.len(),
            rest@ == orig.skip(mapped@.len() as int),
            forall|k: int|
                0 <= k < mapped@.len() ==> task_meta_injected(orig[k], mapped@[k], file_path@),
        decreases rest@.len(),
    {
        let t = rest.remove(0);
        proof {
            assert(t == orig[mapped@.len() as int]);
            assert(orig.skip(mapped@.len() as int).remove(0) =~= orig.skip(mapped@.len() as int + 1));
        }
        let description = if t.description.is_none() {
            clone_opt_string(&t.command)
        } else {
            t.description
        };
        let out = Task {
            name: t.name,
            command: t.command,
            description,
            file_path: Some(file_path.to_owned()),
            uses: t.uses,
            values: t.values,
            hide: t.hide,
            workdir: t.workdir,
        };
        mapped.push(out);
    }
    let ghost m = mapped@;
    proof {
        assert(orig.skip(m.len() as int) =~= Seq::<Task>::empty());
    }
    sort_by_key(&mut mapped);
    mapped
}

/// `out` is `orig` with the provenance file path injected.
pub open spec fn pipeline_meta_injected(orig: Pipeline, out: Pipeline, fp: Seq<char>) -> bool {
    &&& out.name == orig.name
    &&& out.description == orig.description
    &&& out.stages == orig.stages
    &&& out.file_path matches Some(p) && p@ == fp
}

/// Inject additional metadata into each Pipeline and sort based on name.
pub fn inject_pipeline_metadata(pipelines: Vec<Pipeline>, file_path: &str) -> (r: Vec<Pipeline>)
    ensures
        sorted_le(r@),
        exists|m: Seq<Pipeline>|
            (#[trigger] m.to_multiset()) == r@.to_multiset() && m.len() == pipelines@.len()
                && forall|k: int|
                0 <= k < m.len() ==> pipeline_meta_injected(pipelines@[k], m[k], file_path@),
{
    let ghost orig = pipelines@;
    let mut rest = pipelines;
    let mut mapped: Vec<Pipeline> = Vec::new();
    while rest.len() > 0
        invariant
            mapped@.len() + rest@.len() == orig.len(),
            rest@ == orig.skip(mapped@.len() as int),
            forall|k: int|
                0 <= k < mapped@.len() ==> pipeline_meta_injected(orig[k], mapped@[k], file_path@),
        decreases rest@.len(),
    {
        let p = rest.remove(0);
        proof {
            assert(p == orig[mapped@.len() as int]);
            assert(orig.skip(mapped@.len() as int).remove(0) =~= orig.skip(mapped@.len() as int + 1));
        }
        let out = Pipeline {
            name: p.name,
            description: p.description,
            stages: p.stages,
            file_path: Some(file_path.to_owned()),
        };
        mapped.push(out);
    }
    let ghost m = mapped@;
    proof {
        assert(orig.skip(m.len() as int) =~= Seq::<Pipeline>::empty());
    }
    sort_by_key(&mut mapped);
    mapped
}

/// The views of a sequence of strings.
pub open spec fn seq_views(xs: Seq<String>) -> Seq<Seq<char>> {
    xs.map_values(|s: String| s@)
}

/// Sequential template expansion: one [`replace_all`] pass per value, in
/// ascending index order, each pass working on the output of the previous
/// one.  Exactly `values.len()` passes take place.
pub open spec fn expand_template(
    cmd: Seq<char>,
    symbols: Seq<Seq<char>>,
    values: Seq<Seq<char>>,
) -> Seq<char>
    decreases values.len(),
{
    if values.len() == 0 {
        cmd
    } else {
        expand_template(
            replace_all(cmd, symbols[0], values[0]),
            symbols.skip(1),
            values.skip(1),
        )
    }
}

/// Get the used Template's information and inject the set values.
///
/// The task's `command` becomes the template's command with every symbol
/// replaced, in declaration order, by the matching value; all other fields
/// are kept.  The validator has already ensured that `values` is present
/// and as long as the template's symbol list.
pub fn inject_template_values(task: Task, template: &Template) -> (r: Task)
    requires
        task.values matches Some(vals) && vals@.len() == template.symbols@.len(),
    ensures
        r.command matches Some(c) && c@ == expand_template(
            template.command@,
            seq_views(template.symbols@),
            seq_views(task.values.unwrap()@),
        ),
        r.name == task.name,
        r.description == task.description,
        r.file_path == task.file_path,
        r.uses == task.uses,
        r.values == task.values,
        r.hide == task.hide,
        r.workdir == task.workdir,
{
    let ghost syms_v = seq_views(template.symbols@);
    let ghost vals_v = seq_views(task.values.unwrap()@);
    let vals: &Vec<String> = task.values.as_ref().unwrap();
    let mut cmd = chars_of(template.command.as_str());
    let mut i: usize = 0;
    proof {
        assert(syms_v.skip(0) =~= syms_v);
        assert(vals_v.skip(0) =~= vals_v);
    }
    while i < vals.len()
        invariant
            vals == task.values.unwrap(),
            vals@.len() == template.symbols@.len(),
            syms_v == seq_views(template.symbols@),
            vals_v == seq_views(vals@),
            i <= vals@.len(),
            expand_template(cmd@, syms_v.skip(i as int), vals_v.skip(i as int))
                == expand_template(template.command@, syms_v, vals_v),
        decreases vals@.len() - i,
    {
        let sym = chars_of(template.symbols[i].as_str());
        let val = chars_of(vals[i].as_str());
        let ghost prev = cmd@;
        cmd = replace_chars(&cmd, &sym, &val);
        proof {
            assert(syms_v.skip(i as int)[0] == syms_v[i as int]);
            assert(vals_v.skip(i as int)[0] == vals_v[i as int]);
            assert(syms_v.skip(i as int).skip(1) =~= syms_v.skip(i + 1));
            assert(vals_v.skip(i as int).skip(1) =~= vals_v.skip(i + 1));
            assert(cmd@ == replace_all(prev, syms_v[i as int], vals_v[i as int]));
        }
        i += 1;
    }
    proof {
        assert(syms_v.skip(i as int) =~= Seq::<Seq<char>>::empty());
        assert(vals_v.skip(i as int) =~= Seq::<Seq<char>>::empty());
    }
    Task {
        command: Some(string_of(&cmd)),
        name: task.name,
        description: task.description,
        file_path: task.file_path,
        uses: task.uses,
        values: task.values,
        hide: task.hide,
        workdir: task.workdir,
    }
}

} // verus!
