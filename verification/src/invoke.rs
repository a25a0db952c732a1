//! Invoking one function through the external runtime. The dashboard decides
//! everything the runtime does not: whether the preconditions hold, whether
//! the arguments travel as integers or as strings, and whether a failed
//! text-typed call is retried expecting a number. The host performs the call
//! and hands the outcome back to be recorded.

use vstd::prelude::*;
use crate::app::{App, AppV, spec_with_log, spec_is_clock};
use crate::model::{ExecutionResult, ExecutionResultV, LogLevel};
use crate::text::{
    args_list, chars_of, clone_strings, parse_i64, spec_args_list, spec_digits, spec_parse_i64,
    u64_to_string,
};

verus! {

/// How the arguments travel to the runtime.
#[derive(Debug, Clone)]
pub enum ArgValues {
    /// Every argument parsed as a 64-bit integer.
    Ints(Vec<i64>),
    /// The arguments travel as the literal strings.
    Strs(Vec<String>),
}

/// Mathematical view of [`ArgValues`].
pub ghost enum ArgValuesV {
    Ints(Seq<i64>),
    Strs(Seq<Seq<char>>),
}

impl View for ArgValues {
    type V = ArgValuesV;

    open spec fn view(&self) -> ArgValuesV {
        match self {
            ArgValues::Ints(v) => ArgValuesV::Ints(v@),
            ArgValues::Strs(v) => ArgValuesV::Strs(v.deep_view()),
        }
    }
}

/// Everything the host needs to perform one invocation.
#[derive(Debug, Clone)]
pub struct InvokePlan {
    /// The plain function name the runtime is called with.
    pub function: String,
    /// The script-qualified name, for the execution record.
    pub qualified: String,
    /// The typed argument list.
    pub args: ArgValues,
    /// Whether a failed text-typed call is retried expecting a number.
    pub number_fallback: bool,
}

/// Mathematical view of an [`InvokePlan`].
#[verifier::ext_equal]
pub ghost struct InvokePlanV {
    pub function: Seq<char>,
    pub qualified: Seq<char>,
    pub args: ArgValuesV,
    pub number_fallback: bool,
}

impl View for InvokePlan {
    type V = InvokePlanV;

    open spec fn view(&self) -> InvokePlanV {
        InvokePlanV {
            function: self.function@,
            qualified: self.qualified@,
            args: self.args@,
            number_fallback: self.number_fallback,
        }
    }
}

/// Whether every argument reads as a 64-bit integer.
pub open spec fn spec_all_int_args(args: Seq<Seq<char>>) -> bool {
    forall|i: int| 0 <= i < args.len() ==> spec_parse_i64(#[trigger] args[i]) is Some
}

/// The integer values of an all-integer argument list.
pub open spec fn spec_int_args(args: Seq<Seq<char>>) -> Seq<i64> {
    Seq::new(
        args.len(),
        |i: int|
            match spec_parse_i64(args[i]) {
                Some(v) => v,
                None => 0,
            },
    )
}

/// The error an invocation attempt is refused with, if any: an empty catalog,
/// a selection out of range, a script not yet loaded, or a script with no
/// discovered functions.
pub open spec fn spec_invoke_error(app: AppV) -> Option<Seq<char>> {
    if app.scripts.len() == 0 {
        Some("No scripts available"@)
    } else if app.selected_script >= app.scripts.len() {
        Some("Invalid script index"@)
    } else if !app.scripts[app.selected_script as int].loaded {
        Some("Script not loaded. Press 'l' to load first"@)
    } else if app.scripts[app.selected_script as int].functions.len() == 0 {
        Some("No functions found in script"@)
    } else if app.function_input.selected_function
        >= app.scripts[app.selected_script as int].functions.len() {
        Some("Invalid function index"@)
    } else {
        None
    }
}

/// The plan an acceptable state yields: the selected function of the selected
/// script, the arguments typed as integers exactly when they all parse, and
/// the number-typed retry exactly for all-integer or single-argument calls.
pub open spec fn spec_invoke_plan(app: AppV) -> InvokePlanV {
    let script = app.scripts[app.selected_script as int];
    let func = script.functions[app.function_input.selected_function as int];
    let args = app.function_input.args;
    InvokePlanV {
        function: func,
        qualified: script.name + "::"@ + func,
        args: if spec_all_int_args(args) {
            ArgValuesV::Ints(spec_int_args(args))
        } else {
            ArgValuesV::Strs(args)
        },
        number_fallback: spec_all_int_args(args) || args.len() == 1,
    }
}

/// `post` is `pre` with one execution record appended (timestamped at some
/// wall-clock time) and the outcome logged.
pub open spec fn spec_recorded(
    pre: AppV,
    post: AppV,
    record: ExecutionResultV,
    level: LogLevel,
    message: Seq<char>,
) -> bool {
    exists|ts: Seq<char>|
        #[trigger] spec_is_clock(ts) && spec_with_log(
            AppV { results: pre.results.push(ExecutionResultV { timestamp: ts, ..record }), ..pre },
            post,
            level,
            message,
        )
}

impl App {
    /// Decide whether the selected function can be invoked, and how. On
    /// success the attempt is logged and the typed plan returned; otherwise
    /// the refusal is returned and nothing changes.
    #[verifier::loop_isolation(false)]
    pub fn invoke_plan(&mut self) -> (r: Result<InvokePlan, String>)
        ensures
            match spec_invoke_error(old(self)@) {
                Some(msg) => {
                    &&& r is Err
                    &&& r->Err_0@ == msg
                    &&& final(self)@ == old(self)@
                },
                None => {
                    &&& r is Ok
                    &&& r->Ok_0@ == spec_invoke_plan(old(self)@)
                    &&& spec_with_log(
                        old(self)@,
                        final(self)@,
                        LogLevel::Info,
                        "Executing "@ + spec_invoke_plan(old(self)@).function + "("@
                            + spec_args_list(old(self)@.function_input.args) + ")"@,
                    )
                },
            },
    {
        if self.scripts.len() == 0 {
            return Err("No scripts available".to_owned());
        }
        if self.selected_script >= self.scripts.len() {
            return Err("Invalid script index".to_owned());
        }
        if !self.scripts[self.selected_script].loaded {
            return Err("Script not loaded. Press 'l' to load first".to_owned());
        }
        if self.scripts[self.selected_script].functions.len() == 0 {
            return Err("No functions found in script".to_owned());
        }
        if self.function_input.selected_function
            >= self.scripts[self.selected_script].functions.len() {
            return Err("Invalid function index".to_owned());
        }
        let script_name = self.scripts[self.selected_script].name.clone();
        let func = self.scripts[self.selected_script].functions[
            self.function_input.selected_function
        ].clone();
        let ghost adv = self.function_input.args.deep_view();
        proof {
            crate::text::lemma_strings_deep_view(self.function_input.args);
        }
        let mut ints: Vec<i64> = Vec::new();
        let mut all_ints = true;
        let n = self.function_input.args.len();
        let mut i: usize = 0;
        while i < n && all_ints
            invariant
                i <= n,
                all_ints ==> (forall|k: int|
                    0 <= k < i ==> spec_parse_i64(#[trigger] adv[k]) is Some),
                all_ints ==> ints@ == spec_int_args(adv).take(i as int),
                !all_ints ==> !spec_all_int_args(adv),
            decreases n - i,
        {
            let cs = chars_of(self.function_input.args[i].as_str());
            match parse_i64(&cs) {
                Some(v) => {
                    ints.push(v);
                    proof {
                        assert(ints@ =~= spec_int_args(adv).take(i + 1));
                    }
                },
                None => {
                    all_ints = false;
                },
            }
            i = i + 1;
        }
        proof {
            if all_ints {
                assert(spec_all_int_args(adv));
                assert(ints@ =~= spec_int_args(adv));
            }
        }
        let args = if all_ints {
            ArgValues::Ints(ints)
        } else {
            ArgValues::Strs(clone_strings(&self.function_input.args))
        };
        let number_fallback = all_ints || n == 1;
        let mut qualified = script_name;
        qualified.append("::");
        qualified.append(func.as_str());
        let mut msg = "Executing ".to_owned();
        msg.append(func.as_str());
        msg.append("(");
        let rendered = args_list(&self.function_input.args);
        msg.append(rendered.as_str());
        msg.append(")");
        let plan = InvokePlan { function: func, qualified, args, number_fallback };
        proof {
            assert(plan@ =~= spec_invoke_plan(self@));
        }
        self.add_log(LogLevel::Info, msg);
        Ok(plan)
    }

    /// Record the outcome of one invocation attempt: an execution record is
    /// appended whatever happened — with the literal argument strings of the
    /// current selection context — and the outcome is logged.
    pub fn record_invocation(
        &mut self,
        qualified: String,
        outcome: Result<String, String>,
        duration_ms: u64,
    ) -> (r: Result<(), String>)
        ensures
            match outcome {
                Ok(out) => {
                    &&& r is Ok
                    &&& spec_recorded(
                        old(self)@,
                        final(self)@,
                        ExecutionResultV {
                            function: qualified@,
                            args: old(self)@.function_input.args,
                            output: out@,
                            duration_ms: duration_ms,
                            success: true,
                            timestamp: Seq::empty(),
                        },
                        LogLevel::Success,
                        "✓ "@ + spec_digits(duration_ms as int) + "ms → "@ + out@,
                    )
                },
                Err(e) => {
                    &&& r is Err
                    &&& r->Err_0@ == e@
                    &&& spec_recorded(
                        old(self)@,
                        final(self)@,
                        ExecutionResultV {
                            function: qualified@,
                            args: old(self)@.function_input.args,
                            output: e@,
                            duration_ms: duration_ms,
                            success: false,
                            timestamp: Seq::empty(),
                        },
                        LogLevel::Error,
                        "✗ Error: "@ + e@,
                    )
                },
            },
    {
        let ghost pre = self@;
        let args = clone_strings(&self.function_input.args);
        let ts = Self::timestamp();
        let ghost tsv = ts@;
        match outcome {
            Ok(out) => {
                let record = ExecutionResult {
                    function: qualified,
                    args,
                    output: out.clone(),
                    duration_ms,
                    success: true,
                    timestamp: ts,
                };
                let ghost rv = record@;
                self.results.push(record);
                proof {
                    assert(self.results@.last().deep_view() =~= rv);
                    assert(self.results.deep_view() =~= pre.results.push(rv));
                }
                let mut msg = "✓ ".to_owned();
                let digits = u64_to_string(duration_ms);
                msg.append(digits.as_str());
                msg.append("ms → ");
                msg.append(out.as_str());
                self.add_log(LogLevel::Success, msg);
                proof {
                    assert(rv =~= (ExecutionResultV {
                        timestamp: tsv,
                        ..ExecutionResultV {
                            function: rv.function,
                            args: pre.function_input.args,
                            output: rv.output,
                            duration_ms: duration_ms,
                            success: true,
                            timestamp: Seq::empty(),
                        }
                    }));
                }
                Ok(())
            },
            Err(e) => {
                let record = ExecutionResult {
                    function: qualified,
                    args,
                    output: e.clone(),
                    duration_ms,
                    success: false,
                    timestamp: ts,
                };
                let ghost rv = record@;
                self.results.push(record);
                proof {
                    assert(self.results@.last().deep_view() =~= rv);
                    assert(self.results.deep_view() =~= pre.results.push(rv));
                }
                let mut msg = "✗ Error: ".to_owned();
                msg.append(e.as_str());
                self.add_log(LogLevel::Error, msg);
                proof {
                    assert(rv =~= (ExecutionResultV {
                        timestamp: tsv,
                        ..ExecutionResultV {
                            function: rv.function,
                            args: pre.function_input.args,
                            output: rv.output,
                            duration_ms: duration_ms,
                            success: false,
                            timestamp: Seq::empty(),
                        }
                    }));
                }
                Err(e)
            },
        }
    }
}

} // verus!
