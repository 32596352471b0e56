//! The configuration schema (tasks, templates, pipelines) and the result
//! types produced by a run, together with the per-entity validation rules.

use vstd::prelude::*;
use vstd::seq_lib::group_to_multiset_ensures;
use crate::model_injection::{
    expand_template, inject_pipeline_metadata, inject_task_metadata, inject_template_values,
    pipeline_meta_injected, seq_views, task_meta_injected,
};
use crate::ordering::sorted_le;
use crate::strutil::is_substring;

verus! {

/// Coordinates of a remote continuous-integration provider, read from the
/// configuration and consumed by the status-display collaborator.
#[derive(Debug, Clone)]
pub struct CiInfo {
    pub provider: String,
    pub repo_owner: String,
    pub repo_name: String,
    pub token_env_var: String,
}

/// Verdict of one task execution.
#[derive(Debug, Clone, Copy, PartialEq, Eq, Structural)]
pub enum PassFail {
    Pass,
    Fail,
}

impl PassFail {
    /// The verdict's name, as it appears in tables and logs.
    pub fn label(&self) -> (r: String)
        ensures
            *self is Pass ==> r@ == "Pass"@,
            *self is Fail ==> r@ == "Fail"@,
    {
        match self {
            PassFail::Pass => "Pass".to_owned(),
            PassFail::Fail => "Fail".to_owned(),
        }
    }
}

/// The recorded outcome of one task execution.
#[derive(Debug, Clone, PartialEq)]
pub struct TaskResult {
    pub name: String,
    pub command: String,
    pub stage: i8,
    pub result: PassFail,
    pub elapsed_time: i64,
    pub file_path: String,
}

/// The full recorded outcome of one top-level invocation.
#[derive(Debug, Clone, PartialEq)]
pub struct JobResults {
    pub job_name: String,
    pub execution_time: String,
    pub results: Vec<TaskResult>,
}

/// The mathematical content of a [`TaskResult`]: name, command, stage,
/// verdict, elapsed seconds, file path.
pub type TaskView = (Seq<char>, Seq<char>, int, PassFail, int, Seq<char>);

impl View for TaskResult {
    type V = TaskView;

    open spec fn view(&self) -> TaskView {
        (
            self.name@,
            self.command@,
            self.stage as int,
            self.result,
            self.elapsed_time as int,
            self.file_path@,
        )
    }
}

/// The mathematical content of a [`JobResults`]: job name, timestamp,
/// ordered results.
pub type JobView = (Seq<char>, Seq<char>, Seq<TaskView>);

impl View for JobResults {
    type V = JobView;

    open spec fn view(&self) -> JobView {
        (self.job_name@, self.execution_time@, self.results@.map_values(|t: TaskResult| t@))
    }
}

/// Some result in the list carries a `Fail` verdict.
pub open spec fn has_failure(results: Seq<TaskResult>) -> bool {
    exists|i: int| 0 <= i < results.len() && results[i].result is Fail
}

impl JobResults {
    /// Whether the invocation must end with the failure exit status: true
    /// iff at least one task failed.  The caller terminates the process.
    pub fn check_results(&self) -> (r: bool)
        ensures
            r == has_failure(self.results@),
    {
        let mut i: usize = 0;
        while i < self.results.len()
            invariant
                i <= self.results@.len(),
                forall|k: int| 0 <= k < i ==> !(self.results@[k].result is Fail),
            decreases self.results@.len() - i,
        {
            if matches!(self.results[i].result, PassFail::Fail) {
                return true;
            }
            i += 1;
        }
        false
    }
}

/// Kinds of documentation entries the viewer collaborator can display.
#[derive(Debug, Clone, Copy, PartialEq, Eq, Structural)]
pub enum DocsKind {
    Markdown,
    Text,
    URL,
}

/// One documentation entry from the configuration.
#[derive(Debug, Clone)]
pub struct Docs {
    pub name: String,
    pub description: Option<String>,
    pub kind: DocsKind,
    pub path: String,
}

/// Error produced when an entity breaks a validation rule.
#[derive(Debug, Clone)]
pub struct ValidationError {
    pub message: String,
}

impl Default for ValidationError {
    fn default() -> (r: Self)
        ensures
            r.message@ == "Error: Roxfile syntax is invalid!"@,
    {
        ValidationError { message: "Error: Roxfile syntax is invalid!".to_owned() }
    }
}

/// Per-entity structural validation.
///
/// `validation_error` is the rule set in specification form: `None` means
/// the entity is well-formed, `Some(m)` gives the exact message of the first
/// violated rule.  `validate` is its executable counterpart.
pub trait Validate {
    spec fn validation_error(&self) -> Option<Seq<char>>;

    fn validate(&self) -> (r: Result<(), ValidationError>)
        ensures
            match r {
                Ok(()) => self.validation_error() is None,
                Err(e) => self.validation_error() == Some(e.message@),
            },
    ;
}

/// A named, directly executable shell command.
///
/// A task either carries a literal `command`, or names a [`Template`] in
/// `uses` together with the `values` to substitute into it.
#[derive(Debug, Clone, Default)]
pub struct Task {
    pub name: String,
    pub command: Option<String>,
    pub description: Option<String>,
    pub file_path: Option<String>,
    pub uses: Option<String>,
    pub values: Option<Vec<String>>,
    pub hide: Option<bool>,
    pub workdir: Option<String>,
}

impl Task {
    /// Whether the task is excluded from command-line listings.  A hidden
    /// task still executes when a pipeline stage names it.
    pub fn is_hidden(&self) -> (r: bool)
        ensures
            r == (self.hide == Some(true)),
    {
        match self.hide {
            Some(h) => h,
            None => false,
        }
    }
}

impl Validate for Task {
    open spec fn validation_error(&self) -> Option<Seq<char>> {
        if self.command is None && self.uses is None {
            Some("A Task must implement either 'command' or 'uses'!"@)
        } else if self.uses is Some && self.command is Some {
            Some("A Task cannot implement both 'command' & 'uses'!"@)
        } else if self.uses is Some && self.values is None {
            Some("A Task that implements 'uses' must also implement 'values'!"@)
        } else if self.uses is None && self.values is Some {
            Some("A Task that implements 'values' must also implement 'uses'!"@)
        } else {
            None
        }
    }

    fn validate(&self) -> (r: Result<(), ValidationError>) {
        // Command and Uses cannot both be absent
        if self.command.is_none() && self.uses.is_none() {
            return Err(
                ValidationError {
                    message: "A Task must implement either 'command' or 'uses'!".to_owned(),
                },
            );
        }
        // Command and Uses cannot both be present
        if self.uses.is_some() && self.command.is_some() {
            return Err(
                ValidationError {
                    message: "A Task cannot implement both 'command' & 'uses'!".to_owned(),
                },
            );
        }
        // If Uses is present, Values must also be present
        if self.uses.is_some() && self.values.is_none() {
            return Err(
                ValidationError {
                    message: "A Task that implements 'uses' must also implement 'values'!".to_owned(),
                },
            );
        }
        // If Uses is absent, Values must also be absent
        if self.uses.is_none() && self.values.is_some() {
            return Err(
                ValidationError {
                    message: "A Task that implements 'values' must also implement 'uses'!".to_owned(),
                },
            );
        }
        Ok(())
    }
}

/// A parameterized command pattern: every string in `symbols` is a
/// placeholder that must occur literally inside `command`.
#[derive(Debug, Clone, Default)]
pub struct Template {
    pub name: String,
    pub command: String,
    pub symbols: Vec<String>,
}

impl Validate for Template {
    open spec fn validation_error(&self) -> Option<Seq<char>> {
        if exists|k: int|
            0 <= k < self.symbols@.len() && !is_substring(
                self.command@,
                #[trigger] self.symbols@[k]@,
            ) {
            Some("A Template's 'symbols' must all exist within its 'command'!"@)
        } else {
            None
        }
    }

    fn validate(&self) -> (r: Result<(), ValidationError>) {
        // All of the 'symbols' items must exist within the 'command'
        let mut k: usize = 0;
        while k < self.symbols.len()
            invariant
                k <= self.symbols@.len(),
                forall|j: int|
                    0 <= j < k ==> is_substring(self.command@, #[trigger] self.symbols@[j]@),
            decreases self.symbols@.len() - k,
        {
            if !crate::strutil::contains_substring(self.command.as_str(), self.symbols[k].as_str())
            {
                return Err(
                    ValidationError {
                        message: "A Template's 'symbols' must all exist within its 'command'!".to_owned(),
                    },
                );
            }
            k += 1;
        }
        Ok(())
    }
}

/// A named ordered sequence of stages; each stage is an ordered list of
/// task names executed before the next stage begins.
#[derive(Debug, Clone, Default)]
pub struct Pipeline {
    pub name: String,
    pub description: Option<String>,
    pub stages: Vec<Vec<String>>,
    pub file_path: Option<String>,
}

/// The top-level structure of the configuration file.
#[derive(Debug, Clone, Default)]
pub struct RoxFile {
    pub ci: Option<CiInfo>,
    pub docs: Option<Vec<Docs>>,
    pub tasks: Vec<Task>,
    pub pipelines: Option<Vec<Pipeline>>,
    pub templates: Option<Vec<Template>>,
}

/// The first validation error among the entities, in list order.
pub open spec fn first_validation_error<T: Validate>(xs: Seq<T>) -> Option<Seq<char>>
    decreases xs.len(),
{
    if xs.len() == 0 {
        None
    } else if xs[0].validation_error() is Some {
        xs[0].validation_error()
    } else {
        first_validation_error(xs.drop_first())
    }
}

/// A first error of `None` means every entity is well-formed.
pub proof fn lemma_first_error_none<T: Validate>(xs: Seq<T>)
    ensures
        (first_validation_error(xs) is None) <==> (forall|k: int|
            0 <= k < xs.len() ==> (#[trigger] xs[k].validation_error()) is None),
    decreases xs.len(),
{
    if xs.len() > 0 {
        let rest = xs.drop_first();
        lemma_first_error_none(rest);
        if first_validation_error(xs) is None {
            assert forall|k: int|
                0 <= k < xs.len() implies (#[trigger] xs[k].validation_error()) is None by {
                if k > 0 {
                    assert(rest[k - 1] == xs[k]);
                    assert(rest[k - 1].validation_error() is None);
                }
            }
        } else {
            if xs[0].validation_error() is None {
                assert(first_validation_error(rest) is Some);
                let k0 = choose|k: int|
                    0 <= k < rest.len() && !((#[trigger] rest[k].validation_error()) is None);
                assert(xs[k0 + 1].validation_error() is Some);
            }
        }
    }
}

/// Validates every entity, stopping at the first violated rule.
pub fn validate_all<T: Validate>(xs: &Vec<T>) -> (r: Result<(), ValidationError>)
    ensures
        match r {
            Ok(()) => first_validation_error(xs@) is None,
            Err(e) => first_validation_error(xs@) == Some(e.message@),
        },
{
    let mut i: usize = 0;
    proof {
        assert(xs@.skip(0) =~= xs@);
    }
    while i < xs.len()
        invariant
            i <= xs@.len(),
            first_validation_error(xs@) == first_validation_error(xs@.skip(i as int)),
        decreases xs@.len() - i,
    {
        proof {
            assert(xs@.skip(i as int)[0] == xs@[i as int]);
            assert(xs@.skip(i as int).drop_first() =~= xs@.skip(i as int + 1));
        }
        if let Err(e) = xs[i].validate() {
            return Err(e);
        }
        i += 1;
    }
    proof {
        assert(xs@.skip(i as int) =~= Seq::<T>::empty());
    }
    Ok(())
}

/// The template a `uses` name resolves to: the last template carrying
/// that name, as a name-keyed map built by later insertions would hold it.
pub open spec fn template_lookup(templates: Seq<Template>, name: Seq<char>) -> Option<Template>
    decreases templates.len(),
{
    if templates.len() == 0 {
        None
    } else if templates.last().name@ == name {
        Some(templates.last())
    } else {
        template_lookup(templates.drop_last(), name)
    }
}

/// Looks a template up by name.
pub fn find_template<'a>(templates: &'a Vec<Template>, name: &String) -> (r: Option<
    &'a Template,
>)
    ensures
        match r {
            Some(t) => template_lookup(templates@, name@) == Some(*t),
            None => template_lookup(templates@, name@) is None,
        },
{
    let mut i: usize = templates.len();
    proof {
        assert(templates@.take(i as int) =~= templates@);
    }
    while i > 0
        invariant
            i <= templates@.len(),
            template_lookup(templates@, name@) == template_lookup(
                templates@.take(i as int),
                name@,
            ),
        decreases i,
    {
        i -= 1;
        proof {
            assert(templates@.take(i + 1).last() == templates@[i as int]);
            assert(templates@.take(i + 1).drop_last() =~= templates@.take(i as int));
        }
        if name.eq(&templates[i].name) {
            return Some(&templates[i]);
        }
    }
    proof {
        assert(templates@.take(0) =~= Seq::<Template>::empty());
    }
    None
}

/// `post` is `pre` after template resolution: untouched when `pre` has a
/// literal command, and otherwise the expansion of the template its
/// `uses` names, with every other field kept.
pub open spec fn expanded_from(pre: Task, post: Task, templates: Seq<Template>) -> bool {
    match pre.uses {
        Some(u) => {
            &&& template_lookup(templates, u@) matches Some(tpl) && (pre.values matches Some(vals)
                && vals@.len() == tpl.symbols@.len() && (post.command matches Some(c) && c@
                == expand_template(tpl.command@, seq_views(tpl.symbols@), seq_views(vals@))))
            &&& post.name == pre.name
            &&& post.description == pre.description
            &&& post.file_path == pre.file_path
            &&& post.uses == pre.uses
            &&& post.values == pre.values
            &&& post.hide == pre.hide
            &&& post.workdir == pre.workdir
        },
        None => post == pre,
    }
}

/// Every task that names a template can actually be expanded: the
/// template exists and the value list matches its symbol list in length.
pub open spec fn tasks_expandable(tasks: Seq<Task>, templates: Seq<Template>) -> bool {
    forall|k: int|
        0 <= k < tasks.len() ==> match (#[trigger] tasks[k]).uses {
            Some(u) => template_lookup(templates, u@) matches Some(tpl) && (tasks[k].values
                matches Some(vals) && vals@.len() == tpl.symbols@.len()),
            None => true,
        }
}

/// The templates of a configuration, an empty list when the section is
/// absent.
pub open spec fn opt_templates(o: Option<Vec<Template>>) -> Seq<Template> {
    match o {
        Some(v) => v@,
        None => Seq::<Template>::empty(),
    }
}

/// How the resolved task list relates to the configured one: `m` is the
/// configured list with metadata injected, `s` is a reordering of `m`,
/// and the output expands `s` element by element.
pub open spec fn resolved_tasks_rel(
    orig: Seq<Task>,
    m: Seq<Task>,
    s: Seq<Task>,
    out: Seq<Task>,
    fp: Seq<char>,
    templates: Seq<Template>,
) -> bool {
    &&& m.len() == orig.len()
    &&& forall|k: int| 0 <= k < m.len() ==> task_meta_injected(orig[k], #[trigger] m[k], fp)
    &&& s.to_multiset() == m.to_multiset()
    &&& out.len() == s.len()
    &&& forall|k: int| 0 <= k < s.len() ==> expanded_from(s[k], #[trigger] out[k], templates)
}

/// How the resolved pipeline list relates to the configured one.
pub open spec fn resolved_pipelines_rel(
    orig: Seq<Pipeline>,
    mp: Seq<Pipeline>,
    out: Seq<Pipeline>,
    fp: Seq<char>,
) -> bool {
    &&& mp.len() == orig.len()
    &&& forall|k: int| 0 <= k < mp.len() ==> pipeline_meta_injected(orig[k], #[trigger] mp[k], fp)
    &&& out.to_multiset() == mp.to_multiset()
}

/// The message of a failed resolution: the first violated template rule,
/// else the first violated task rule, else one of the two template
/// reference errors.
pub open spec fn resolve_error_message(rox: RoxFile, msg: Seq<char>) -> bool {
    match first_validation_error(opt_templates(rox.templates)) {
        Some(m) => msg == m,
        None => match first_validation_error(rox.tasks@) {
            Some(m) => msg == m,
            None => !tasks_expandable(rox.tasks@, opt_templates(rox.templates)) && (msg
                == "A Task's 'uses' must name an existing Template!"@ || msg
                == "A Task's 'values' must match its Template's 'symbols'!"@),
        },
    }
}

/// Equal multisets draw on the same elements: anything at an index of `a`
/// sits at some index of `b`.
proof fn lemma_multiset_index_transfer<T>(a: Seq<T>, b: Seq<T>, k: int)
    requires
        a.to_multiset() == b.to_multiset(),
        0 <= k < a.len(),
    ensures
        exists|j: int| 0 <= j < b.len() && b[j] == a[k],
{
    broadcast use group_to_multiset_ensures;

    assert(a.contains(a[k]));
    assert(b.to_multiset().count(a[k]) > 0);
    assert(b.contains(a[k]));
}

impl RoxFile {
    /// Resolve a parsed configuration into its executable form.
    ///
    /// Validates every template and task (the first violated rule aborts
    /// with its message), injects provenance metadata, sorts tasks and
    /// pipelines by case-insensitive name, and expands every task that
    /// uses a template.  Succeeds if and only if all entities are
    /// well-formed and every `uses` reference can be expanded.
    pub fn resolve(self, file_path: &str) -> (r: Result<RoxFile, ValidationError>)
        ensures
            (r is Ok) <==> (first_validation_error(opt_templates(self.templates)) is None
                && first_validation_error(self.tasks@) is None && tasks_expandable(
                self.tasks@,
                opt_templates(self.templates),
            )),
            r matches Err(e) ==> resolve_error_message(self, e.message@),
            r matches Ok(rox) ==> {
                &&& rox.ci == self.ci
                &&& rox.docs == self.docs
                &&& rox.templates == self.templates
                &&& sorted_le(rox.tasks@)
                &&& exists|m: Seq<Task>, s: Seq<Task>|
                    resolved_tasks_rel(
                        self.tasks@,
                        m,
                        s,
                        rox.tasks@,
                        file_path@,
                        opt_templates(self.templates),
                    )
                &&& self.pipelines is None ==> rox.pipelines is None
                &&& self.pipelines matches Some(ps) ==> (rox.pipelines matches Some(qs)
                    && sorted_le(qs@) && exists|mp: Seq<Pipeline>|
                    resolved_pipelines_rel(ps@, mp, qs@, file_path@))
            },
    {
        let RoxFile { ci, docs, tasks, pipelines, templates } = self;
        let ghost orig = tasks@;
        let ghost tpls = opt_templates(templates);

        // Templates: all rules must hold before anything is expanded.
        let had_templates = templates.is_some();
        let tpl_vec: Vec<Template> = match templates {
            Some(v) => v,
            None => Vec::new(),
        };
        proof {
            assert(tpl_vec@ =~= tpls);
        }
        if let Err(e) = validate_all(&tpl_vec) {
            return Err(e);
        }

        // Tasks: all rules must hold before metadata is injected.
        if let Err(e) = validate_all(&tasks) {
            return Err(e);
        }
        proof {
            lemma_first_error_none(orig);
        }
        let sorted = inject_task_metadata(tasks, file_path);
        let ghost m = choose|m: Seq<Task>|
            (#[trigger] m.to_multiset()) == sorted@.to_multiset() && m.len() == orig.len()
                && forall|k: int| 0 <= k < m.len() ==> task_meta_injected(orig[k], m[k], file_path@);
        let ghost s = sorted@;
        proof {
            assert forall|k: int|
                0 <= k < s.len() implies exists|j: int|
                0 <= j < m.len() && m[j] == #[trigger] s[k] by {
                lemma_multiset_index_transfer(s, m, k);
            }
        }

        // Expand every task that names a template.
        let mut rest = sorted;
        let mut out: Vec<Task> = Vec::new();
        while rest.len() > 0
            invariant
                orig == self.tasks@,
                tpls == opt_templates(self.templates),
                out@.len() + rest@.len() == s.len(),
                rest@ == s.skip(out@.len() as int),
                tpl_vec@ == tpls,
                first_validation_error(tpls) is None,
                first_validation_error(orig) is None,
                forall|k: int|
                    0 <= k < orig.len() ==> (#[trigger] orig[k].validation_error()) is None,
                forall|k: int|
                    0 <= k < s.len() ==> exists|j: int| 0 <= j < m.len() && m[j] == #[trigger] s[k],
                m.len() == orig.len(),
                forall|k: int|
                    0 <= k < m.len() ==> task_meta_injected(orig[k], #[trigger] m[k], file_path@),
                forall|k: int|
                    0 <= k < out@.len() ==> expanded_from(s[k], #[trigger] out@[k], tpls),
            decreases rest@.len(),
        {
            let i = out.len();
            let ghost j = choose|j: int| 0 <= j < m.len() && m[j] == s[i as int];
            let task = rest.remove(0);
            proof {
                assert(task == s[i as int]);
                assert(s.skip(i as int).remove(0) =~= s.skip(i as int + 1));
                // the matching configured task pins down the option shapes
                assert(task_meta_injected(orig[j], m[j], file_path@));
                assert(orig[j].validation_error() is None);
                assert(task.uses is Some ==> task.values is Some);
            }
            if task.uses.is_some() {
                let u = task.uses.as_ref().unwrap();
                match find_template(&tpl_vec, u) {
                    None => {
                        proof {
                            assert(orig[j].uses == task.uses);
                            assert(orig[j].values == task.values);
                            assert(!tasks_expandable(orig, tpls));
                        }
                        return Err(
                            ValidationError {
                                message: "A Task's 'uses' must name an existing Template!".to_owned(),
                            },
                        );
                    },
                    Some(template) => {
                        let vals_len = task.values.as_ref().unwrap().len();
                        if vals_len != template.symbols.len() {
                            proof {
                                assert(orig[j].uses == task.uses);
                                assert(orig[j].values == task.values);
                                assert(!tasks_expandable(orig, tpls));
                            }
                            return Err(
                                ValidationError {
                                    message: "A Task's 'values' must match its Template's 'symbols'!".to_owned(),
                                },
                            );
                        }
                        out.push(inject_template_values(task, template));
                    },
                }
            } else {
                out.push(task);
            }
        }
        proof {
            assert(s.skip(out@.len() as int) =~= Seq::<Task>::empty());
            // a completed pass means every configured reference expands
            assert forall|k: int| 0 <= k < orig.len() implies match (#[trigger] orig[k]).uses {
                Some(u) => template_lookup(tpls, u@) matches Some(tpl) && (orig[k].values
                    matches Some(vals) && vals@.len() == tpl.symbols@.len()),
                None => true,
            } by {
                lemma_multiset_index_transfer(m, s, k);
                let idx = choose|idx: int| 0 <= idx < s.len() && s[idx] == m[k];
                assert(expanded_from(s[idx], out@[idx], tpls));
                assert(task_meta_injected(orig[k], m[k], file_path@));
            }
            assert(tasks_expandable(orig, tpls));
            // expansion keeps names, so the sorted order carries over
            assert forall|k1: int, k2: int|
                0 <= k1 < k2 < out@.len() implies #[trigger] crate::ordering::SortKey::le(
                &out@[k1],
                &out@[k2],
            ) by {
                assert(expanded_from(s[k1], out@[k1], tpls));
                assert(expanded_from(s[k2], out@[k2], tpls));
                assert(out@[k1].name == s[k1].name);
                assert(out@[k2].name == s[k2].name);
                assert(crate::ordering::SortKey::le(&s[k1], &s[k2]));
            }
            assert(sorted_le(out@));
            assert(resolved_tasks_rel(orig, m, s, out@, file_path@, tpls));
        }

        // Pipelines: provenance injection and deterministic listing order.
        let resolved_pipelines = match pipelines {
            Some(ps) => {
                let ghost psv = ps@;
                let qs = inject_pipeline_metadata(ps, file_path);
                proof {
                    let mp = choose|mp: Seq<Pipeline>|
                        (#[trigger] mp.to_multiset()) == qs@.to_multiset() && mp.len() == psv.len()
                            && forall|k: int|
                            0 <= k < mp.len() ==> pipeline_meta_injected(psv[k], mp[k], file_path@);
                    assert(resolved_pipelines_rel(psv, mp, qs@, file_path@));
                }
                Some(qs)
            },
            None => None,
        };

        Ok(
            RoxFile {
                ci,
                docs,
                tasks: out,
                pipelines: resolved_pipelines,
                templates: if had_templates {
                    Some(tpl_vec)
                } else {
                    None
                },
            },
        )
    }
}

} // verus!
