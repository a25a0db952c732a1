//! The pipeline model: an ordered, user-editable sequence of (script,
//! function, arguments) steps. Replay walks the stored order, resolving each
//! step's script by name against the current catalog and skipping what no
//! longer resolves; the host performs the runtime calls between the steps.

use vstd::prelude::*;
use crate::app::{App, AppV, spec_with_log};
use crate::model::{FunctionInput, FunctionInputV, LogLevel, PipelineStep, PipelineStepV, ScriptV};
use crate::text::{clone_strings, join_strings, spec_digits, spec_join, u64_to_string};

verus! {

// ---------------------------------------------------------------------------
// Finding by name
// ---------------------------------------------------------------------------

/// Index of the first script named `name`, if any.
pub open spec fn spec_find_script(scripts: Seq<ScriptV>, name: Seq<char>) -> Option<int>
    decreases scripts.len(),
{
    if scripts.len() == 0 {
        None
    } else if scripts[0].name == name {
        Some(0int)
    } else {
        match spec_find_script(scripts.drop_first(), name) {
            Some(i) => Some(i + 1),
            None => None,
        }
    }
}

/// A scan that misses everywhere before a hit pins `spec_find_script`.
pub proof fn lemma_find_script_characterization(scripts: Seq<ScriptV>, name: Seq<char>, i: int)
    requires
        0 <= i <= scripts.len(),
        forall|j: int| 0 <= j < i ==> (#[trigger] scripts[j]).name != name,
        i < scripts.len() ==> scripts[i].name == name,
    ensures
        i < scripts.len() ==> spec_find_script(scripts, name) == Some(i),
        i == scripts.len() ==> spec_find_script(scripts, name) is None,
    decreases scripts.len(),
{
    if scripts.len() == 0 {
    } else if scripts[0].name == name {
        assert(i == 0);
    } else {
        let t = scripts.drop_first();
        assert(forall|j: int| 0 <= j < i - 1 ==> (#[trigger] t[j]).name != name);
        lemma_find_script_characterization(t, name, i - 1);
    }
}

/// Index of the first name equal to `name`, if any.
pub open spec fn spec_find_name(names: Seq<Seq<char>>, name: Seq<char>) -> Option<int>
    decreases names.len(),
{
    if names.len() == 0 {
        None
    } else if names[0] == name {
        Some(0int)
    } else {
        match spec_find_name(names.drop_first(), name) {
            Some(i) => Some(i + 1),
            None => None,
        }
    }
}

/// A scan that misses everywhere before a hit pins `spec_find_name`.
pub proof fn lemma_find_name_characterization(names: Seq<Seq<char>>, name: Seq<char>, i: int)
    requires
        0 <= i <= names.len(),
        forall|j: int| 0 <= j < i ==> names[j] != name,
        i < names.len() ==> names[i] == name,
    ensures
        i < names.len() ==> spec_find_name(names, name) == Some(i),
        i == names.len() ==> spec_find_name(names, name) is None,
    decreases names.len(),
{
    if names.len() == 0 {
    } else if names[0] == name {
        assert(i == 0);
    } else {
        let t = names.drop_first();
        assert(forall|j: int| 0 <= j < i - 1 ==> t[j] != name);
        lemma_find_name_characterization(t, name, i - 1);
    }
}

// ---------------------------------------------------------------------------
// Cloning steps
// ---------------------------------------------------------------------------

/// Copy of one pipeline step; the copy reads the same.
pub fn clone_step(s: &PipelineStep) -> (r: PipelineStep)
    ensures
        r@ == s@,
{
    let r = PipelineStep {
        id: s.id.clone(),
        script: s.script.clone(),
        function: s.function.clone(),
        args: clone_strings(&s.args),
        description: s.description.clone(),
    };
    proof {
        assert(r@ =~= s@);
    }
    r
}

/// Copy of a step list; the copy reads the same.
#[verifier::loop_isolation(false)]
pub fn clone_steps(v: &Vec<PipelineStep>) -> (r: Vec<PipelineStep>)
    ensures
        r.deep_view() == v.deep_view(),
{
    let mut r: Vec<PipelineStep> = Vec::new();
    let n = v.len();
    let mut i: usize = 0;
    while i < n
        invariant
            i <= n,
            r.deep_view() == v.deep_view().take(i as int),
        decreases n - i,
    {
        let s = clone_step(&v[i]);
        let ghost sv = s@;
        r.push(s);
        proof {
            assert(r@.last().deep_view() =~= sv);
            assert(v@[i as int].deep_view() == v.deep_view()[i as int]);
            assert(r.deep_view() =~= v.deep_view().take(i + 1));
        }
        i = i + 1;
    }
    proof {
        assert(v.deep_view().take(n as int) =~= v.deep_view());
    }
    r
}

// ---------------------------------------------------------------------------
// Editing and replaying the pipeline
// ---------------------------------------------------------------------------

/// Whether the current selection can be appended to the pipeline: a loaded
/// script is selected, it has discovered functions, one of them is selected,
/// and the pipeline is not at the machine's size limit.
pub open spec fn spec_can_add(app: AppV) -> bool {
    &&& app.scripts.len() > 0
    &&& app.selected_script < app.scripts.len()
    &&& app.scripts[app.selected_script as int].loaded
    &&& app.scripts[app.selected_script as int].functions.len() > 0
    &&& app.function_input.selected_function
        < app.scripts[app.selected_script as int].functions.len()
    &&& app.pipeline.len() < usize::MAX
}

/// The step the current selection becomes: a sequential id, the script and
/// function by name, the argument list by value, and a cached description.
pub open spec fn spec_new_step(app: AppV) -> PipelineStepV {
    let script = app.scripts[app.selected_script as int];
    let func = script.functions[app.function_input.selected_function as int];
    PipelineStepV {
        id: "step_"@ + spec_digits(app.pipeline.len() as int + 1),
        script: script.name,
        function: func,
        args: app.function_input.args,
        description: func + "("@ + spec_join(app.function_input.args, ", "@) + ")"@,
    }
}

/// What one saved selection context holds while a replayed step borrows it.
pub struct SavedSelection {
    /// The function-selection context to restore.
    pub function_input: FunctionInput,
    /// The script selection to restore.
    pub selected_script: usize,
}

/// Mathematical view of a [`SavedSelection`].
#[verifier::ext_equal]
pub ghost struct SavedSelectionV {
    pub function_input: FunctionInputV,
    pub selected_script: usize,
}

impl View for SavedSelection {
    type V = SavedSelectionV;

    open spec fn view(&self) -> SavedSelectionV {
        SavedSelectionV {
            function_input: self.function_input@,
            selected_script: self.selected_script,
        }
    }
}

impl App {
    /// Append the current selection to the pipeline, when the selection is
    /// usable; otherwise nothing changes.
    pub fn add_to_pipeline(&mut self)
        ensures
            !spec_can_add(old(self)@) ==> final(self)@ == old(self)@,
            spec_can_add(old(self)@) ==> spec_with_log(
                AppV { pipeline: old(self)@.pipeline.push(spec_new_step(old(self)@)), ..old(self)@ },
                final(self)@,
                LogLevel::Success,
                "Added "@ + spec_new_step(old(self)@).id + " to pipeline"@,
            ),
    {
        let ghost pre = self@;
        if self.scripts.len() == 0 || self.selected_script >= self.scripts.len()
            || !self.scripts[self.selected_script].loaded {
            return;
        }
        if self.scripts[self.selected_script].functions.len() == 0
            || self.function_input.selected_function
            >= self.scripts[self.selected_script].functions.len() {
            return;
        }
        if self.pipeline.len() == usize::MAX {
            return;
        }
        let func = self.scripts[self.selected_script].functions[
            self.function_input.selected_function
        ].clone();
        let mut id = "step_".to_owned();
        let digits = u64_to_string((self.pipeline.len() + 1) as u64);
        id.append(digits.as_str());
        let mut description = func.clone();
        description.append("(");
        let joined = join_strings(&self.function_input.args, ", ");
        description.append(joined.as_str());
        description.append(")");
        let step = PipelineStep {
            id: id.clone(),
            script: self.scripts[self.selected_script].name.clone(),
            function: func,
            args: clone_strings(&self.function_input.args),
            description,
        };
        let ghost sv = step@;
        proof {
            assert(sv =~= spec_new_step(pre));
        }
        self.pipeline.push(step);
        proof {
            assert(self.pipeline@.last().deep_view() =~= sv);
            assert(self.pipeline.deep_view() =~= pre.pipeline.push(sv));
        }
        let mut msg = "Added ".to_owned();
        msg.append(id.as_str());
        msg.append(" to pipeline");
        self.add_log(LogLevel::Success, msg);
    }

    /// Begin a replay. An empty pipeline fails fast: the error is returned
    /// and nothing is changed, logged or recorded. Otherwise the start is
    /// logged and a snapshot of the steps is returned for the host to walk.
    pub fn execute_pipeline(&mut self) -> (r: Result<Vec<PipelineStep>, String>)
        ensures
            old(self)@.pipeline.len() == 0 ==> {
                &&& r is Err
                &&& r->Err_0@ == "Pipeline is empty"@
                &&& final(self)@ == old(self)@
            },
            old(self)@.pipeline.len() > 0 ==> {
                &&& r is Ok
                &&& r->Ok_0.deep_view() == old(self)@.pipeline
                &&& spec_with_log(
                    old(self)@,
                    final(self)@,
                    LogLevel::Info,
                    "🚀 Executing pipeline..."@,
                )
            },
    {
        if self.pipeline.len() == 0 {
            return Err("Pipeline is empty".to_owned());
        }
        let snapshot = clone_steps(&self.pipeline);
        self.add_log(LogLevel::Info, "🚀 Executing pipeline...".to_owned());
        Ok(snapshot)
    }

    /// Move the replay cursor to `step_index` and resolve the step's script
    /// by name in the current catalog; a name that no longer resolves is
    /// logged and the step is skipped.
    #[verifier::loop_isolation(false)]
    pub fn replay_resolve_script(&mut self, step_index: usize, script_name: &String) -> (r:
        Option<usize>)
        ensures
            match spec_find_script(old(self)@.scripts, script_name@) {
                Some(i) => {
                    &&& r == Some(i as usize)
                    &&& final(self)@ == (AppV {
                        selected_pipeline_step: step_index,
                        ..old(self)@
                    })
                },
                None => {
                    &&& r is None
                    &&& spec_with_log(
                        AppV { selected_pipeline_step: step_index, ..old(self)@ },
                        final(self)@,
                        LogLevel::Error,
                        "Script "@ + script_name@ + " not found"@,
                    )
                },
            },
    {
        self.selected_pipeline_step = step_index;
        let ghost scripts = self@.scripts;
        let n = self.scripts.len();
        let mut i: usize = 0;
        while i < n
            invariant
                i <= n,
                forall|j: int| 0 <= j < i ==> (#[trigger] scripts[j]).name != script_name@,
            decreases n - i,
        {
            if self.scripts[i].name == *script_name {
                proof {
                    lemma_find_script_characterization(scripts, script_name@, i as int);
                }
                return Some(i);
            }
            i = i + 1;
        }
        proof {
            lemma_find_script_characterization(scripts, script_name@, n as int);
        }
        let mut msg = "Script ".to_owned();
        msg.append(script_name.as_str());
        msg.append(" not found");
        self.add_log(LogLevel::Error, msg);
        None
    }

    /// Substitute the step's arguments and function into the shared selection
    /// context, remembering what it held. The step's function name is
    /// resolved in the resolved script's discovered functions; when it is
    /// absent the selection index is left alone and the step is to be
    /// skipped.
    #[verifier::loop_isolation(false)]
    pub fn replay_enter_step(&mut self, script_index: usize, step: &PipelineStep) -> (r: (
        SavedSelection,
        bool,
    ))
        requires
            script_index < old(self)@.scripts.len(),
        ensures
            r.0@ == (SavedSelectionV {
                function_input: old(self)@.function_input,
                selected_script: old(self)@.selected_script,
            }),
            final(self)@ == (AppV {
                selected_script: script_index,
                function_input: FunctionInputV {
                    args: step@.args,
                    selected_function: match spec_find_name(
                        old(self)@.scripts[script_index as int].functions,
                        step@.function,
                    ) {
                        Some(i) => i as usize,
                        None => old(self)@.function_input.selected_function,
                    },
                    ..old(self)@.function_input
                },
                ..old(self)@
            }),
            r.1 == (spec_find_name(
                old(self)@.scripts[script_index as int].functions,
                step@.function,
            ) is Some),
    {
        let saved = SavedSelection {
            function_input: FunctionInput {
                selected_function: self.function_input.selected_function,
                args: clone_strings(&self.function_input.args),
                current_arg: self.function_input.current_arg.clone(),
            },
            selected_script: self.selected_script,
        };
        proof {
            assert(saved@ =~= (SavedSelectionV {
                function_input: self@.function_input,
                selected_script: self@.selected_script,
            }));
        }
        self.selected_script = script_index;
        self.function_input.args = clone_strings(&step.args);
        let ghost names = self@.scripts[script_index as int].functions;
        let n = self.scripts[script_index].functions.len();
        let mut i: usize = 0;
        let mut found = false;
        while i < n && !found
            invariant
                i <= n,
                !found ==> (forall|j: int| 0 <= j < i ==> names[j] != step@.function),
                found ==> i < n && names[i as int] == step@.function && (forall|j: int|
                    0 <= j < i ==> names[j] != step@.function),
            decreases n - i + (if found { 0int } else { 1int }),
        {
            if self.scripts[script_index].functions[i] == step.function {
                found = true;
            } else {
                i = i + 1;
            }
        }
        proof {
            assert(names[i as int] == self.scripts@[script_index as int]@.functions[i as int]);
            lemma_find_name_characterization(names, step@.function, i as int);
        }
        if found {
            self.function_input.selected_function = i;
            (saved, true)
        } else {
            (saved, false)
        }
    }

    /// Restore the selection context a replayed step borrowed.
    pub fn replay_restore(&mut self, saved: SavedSelection)
        ensures
            final(self)@ == (AppV {
                selected_script: saved@.selected_script,
                function_input: saved@.function_input,
                ..old(self)@
            }),
    {
        self.function_input = saved.function_input;
        self.selected_script = saved.selected_script;
    }

    /// Log the end of a replay: how many steps reached an invocation, out of
    /// how many, and the elapsed time of the whole walk.
    pub fn replay_finish(&mut self, success_count: u64, duration_ms: u64)
        ensures
            spec_with_log(
                old(self)@,
                final(self)@,
                LogLevel::Success,
                "Pipeline completed: "@ + spec_digits(success_count as int) + "/"@ + spec_digits(
                    old(self)@.pipeline.len() as int,
                ) + " steps in "@ + spec_digits(duration_ms as int) + "ms"@,
            ),
    {
        let mut msg = "Pipeline completed: ".to_owned();
        let s = u64_to_string(success_count);
        msg.append(s.as_str());
        msg.append("/");
        let total = u64_to_string(self.pipeline.len() as u64);
        msg.append(total.as_str());
        msg.append(" steps in ");
        let d = u64_to_string(duration_ms);
        msg.append(d.as_str());
        msg.append("ms");
        self.add_log(LogLevel::Success, msg);
    }
}

} // verus!
