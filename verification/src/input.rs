//! The view/input state machine. A keystroke is interpreted under the modal
//! input state — normal, argument entry, or export-filename entry — and then
//! under the active view's keybindings. Everything that touches only the
//! dashboard state happens here; whatever needs the outside world (walking
//! the tree, calling the runtime, writing the export) is handed back to the
//! host as an action.

use vstd::prelude::*;
use crate::app::{
    App, AppV, spec_clock, spec_is_clock, spec_log_append, spec_next_view, spec_prev_view,
};
use crate::model::{FunctionInputV, InputMode, LogEntryV, LogLevel, UiView};
use crate::pipeline::{spec_can_add, spec_new_step};
use crate::text::{string_drop_last, string_push_char};

verus! {

/// One keystroke, as the state machine reads it.
#[derive(Debug, Clone, Copy, PartialEq, Eq, Structural)]
pub enum Key {
    Char(char),
    Enter,
    Esc,
    Backspace,
    Tab,
    BackTab,
    Up,
    Down,
    Other,
}

/// What the host must do after a keystroke, beyond the state change.
#[derive(Debug, Clone)]
pub enum Action {
    /// Nothing outside the dashboard state.
    Nothing,
    /// Leave the control loop.
    Quit,
    /// Load the selected script through the external runtime.
    LoadSelected,
    /// Walk the root directory again and rescan the catalog.
    Rescan,
    /// Invoke the selected function through the external runtime.
    Execute,
    /// Replay the pipeline through the external runtime.
    Replay,
    /// Write the exported artifact to the named file.
    SaveExport(String),
}

/// Mathematical view of an [`Action`].
pub ghost enum ActionV {
    Nothing,
    Quit,
    LoadSelected,
    Rescan,
    Execute,
    Replay,
    SaveExport(Seq<char>),
}

impl View for Action {
    type V = ActionV;

    open spec fn view(&self) -> ActionV {
        match self {
            Action::Nothing => ActionV::Nothing,
            Action::Quit => ActionV::Quit,
            Action::LoadSelected => ActionV::LoadSelected,
            Action::Rescan => ActionV::Rescan,
            Action::Execute => ActionV::Execute,
            Action::Replay => ActionV::Replay,
            Action::SaveExport(s) => ActionV::SaveExport(s@),
        }
    }
}

/// `pre` after one entry with `level` and `message` was logged at `ts`.
pub open spec fn spec_logged(pre: AppV, level: LogLevel, message: Seq<char>, ts: Seq<char>)
    -> AppV {
    AppV {
        logs: spec_log_append(pre.logs, LogEntryV { timestamp: ts, level, message }),
        ..pre
    }
}

// ---------------------------------------------------------------------------
// The transition relation, one spec function per modal state and view
// ---------------------------------------------------------------------------

/// Free-text argument entry: characters extend the buffer, backspace shortens
/// it, escape discards it, and enter confirms a non-empty buffer as one more
/// argument; all of it back in normal mode.
pub open spec fn spec_edit_args_step(pre: AppV, key: Key) -> AppV {
    match key {
        Key::Enter => if pre.input_buffer.len() > 0 {
            AppV {
                function_input: FunctionInputV {
                    args: pre.function_input.args.push(pre.input_buffer),
                    ..pre.function_input
                },
                input_buffer: Seq::empty(),
                input_mode: InputMode::Normal,
                ..pre
            }
        } else {
            AppV { input_mode: InputMode::Normal, ..pre }
        },
        Key::Esc => AppV { input_buffer: Seq::empty(), input_mode: InputMode::Normal, ..pre },
        Key::Backspace => AppV {
            input_buffer: if pre.input_buffer.len() > 0 {
                pre.input_buffer.drop_last()
            } else {
                pre.input_buffer
            },
            ..pre
        },
        Key::Char(c) => AppV { input_buffer: pre.input_buffer.push(c), ..pre },
        _ => pre,
    }
}

/// Export-filename entry: the same buffer edits; enter on a non-empty buffer
/// names the output file.
pub open spec fn spec_export_name_step(pre: AppV, key: Key) -> AppV {
    match key {
        Key::Enter => AppV {
            input_buffer: Seq::empty(),
            input_mode: InputMode::Normal,
            ..pre
        },
        Key::Esc => AppV { input_buffer: Seq::empty(), input_mode: InputMode::Normal, ..pre },
        Key::Backspace => AppV {
            input_buffer: if pre.input_buffer.len() > 0 {
                pre.input_buffer.drop_last()
            } else {
                pre.input_buffer
            },
            ..pre
        },
        Key::Char(c) => AppV { input_buffer: pre.input_buffer.push(c), ..pre },
        _ => pre,
    }
}

/// The file the export-filename entry confirms, if any: the buffer with the
/// fixed extension appended.
pub open spec fn spec_export_name_action(pre: AppV, key: Key) -> Option<Seq<char>> {
    if key == Key::Enter && pre.input_buffer.len() > 0 {
        Some(pre.input_buffer + ".rs"@)
    } else {
        None
    }
}

/// Script browser: the selection moves within bounds; `l` asks the host to
/// load the selection when the catalog is not empty; `r` asks for a rescan.
pub open spec fn spec_browser_step(pre: AppV, post: AppV, key: Key, action: ActionV) -> bool {
    match key {
        Key::Up => post == (AppV {
            selected_script: if pre.selected_script > 0 {
                (pre.selected_script - 1) as usize
            } else {
                pre.selected_script
            },
            ..pre
        }) && action == ActionV::Nothing,
        Key::Down => post == (AppV {
            selected_script: if pre.selected_script + 1 < pre.scripts.len() {
                (pre.selected_script + 1) as usize
            } else {
                pre.selected_script
            },
            ..pre
        }) && action == ActionV::Nothing,
        Key::Char(c) => if c == 'l' {
            post == pre && action == (if pre.scripts.len() > 0 {
                ActionV::LoadSelected
            } else {
                ActionV::Nothing
            })
        } else if c == 'r' {
            post == pre && action == ActionV::Rescan
        } else {
            post == pre && action == ActionV::Nothing
        },
        _ => post == pre && action == ActionV::Nothing,
    }
}

/// Function tester: the function selection moves within the selected
/// script's list; `a` opens argument entry; `c` clears the arguments; enter
/// asks the host to invoke; `p` appends the selection to the pipeline.
pub open spec fn spec_tester_step(
    pre: AppV,
    post: AppV,
    key: Key,
    action: ActionV,
    ts: Seq<char>,
) -> bool {
    match key {
        Key::Up => post == (AppV {
            function_input: FunctionInputV {
                selected_function: if pre.scripts.len() > 0 && pre.selected_script
                    < pre.scripts.len() && pre.function_input.selected_function > 0 {
                    (pre.function_input.selected_function - 1) as usize
                } else {
                    pre.function_input.selected_function
                },
                ..pre.function_input
            },
            ..pre
        }) && action == ActionV::Nothing,
        Key::Down => post == (AppV {
            function_input: FunctionInputV {
                selected_function: if pre.scripts.len() > 0 && pre.selected_script
                    < pre.scripts.len() && pre.function_input.selected_function + 1
                    < pre.scripts[pre.selected_script as int].functions.len() {
                    (pre.function_input.selected_function + 1) as usize
                } else {
                    pre.function_input.selected_function
                },
                ..pre.function_input
            },
            ..pre
        }) && action == ActionV::Nothing,
        Key::Enter => post == pre && action == ActionV::Execute,
        Key::Char(c) => if c == 'a' {
            post == (AppV {
                input_mode: InputMode::EditingArgs,
                input_buffer: Seq::empty(),
                ..pre
            }) && action == ActionV::Nothing
        } else if c == 'c' {
            post == spec_logged(
                AppV {
                    function_input: FunctionInputV { args: Seq::empty(), ..pre.function_input },
                    ..pre
                },
                LogLevel::Info,
                "Arguments cleared"@,
                ts,
            ) && action == ActionV::Nothing
        } else if c == 'p' {
            action == ActionV::Nothing && if spec_can_add(pre) {
                post == spec_logged(
                    AppV { pipeline: pre.pipeline.push(spec_new_step(pre)), ..pre },
                    LogLevel::Success,
                    "Added "@ + spec_new_step(pre).id + " to pipeline"@,
                    ts,
                )
            } else {
                post == pre
            }
        } else {
            post == pre && action == ActionV::Nothing
        },
        _ => post == pre && action == ActionV::Nothing,
    }
}

/// Pipeline builder: the step selection moves within bounds; `x` asks the
/// host to replay; `d` deletes the selected step, guarded by bounds, and
/// clamps the selection back into range; `c` clears the pipeline.
pub open spec fn spec_builder_step(
    pre: AppV,
    post: AppV,
    key: Key,
    action: ActionV,
    ts: Seq<char>,
) -> bool {
    match key {
        Key::Up => post == (AppV {
            selected_pipeline_step: if pre.selected_pipeline_step > 0 {
                (pre.selected_pipeline_step - 1) as usize
            } else {
                pre.selected_pipeline_step
            },
            ..pre
        }) && action == ActionV::Nothing,
        Key::Down => post == (AppV {
            selected_pipeline_step: if pre.selected_pipeline_step + 1 < pre.pipeline.len() {
                (pre.selected_pipeline_step + 1) as usize
            } else {
                pre.selected_pipeline_step
            },
            ..pre
        }) && action == ActionV::Nothing,
        Key::Char(c) => if c == 'x' {
            post == pre && action == ActionV::Replay
        } else if c == 'd' {
            action == ActionV::Nothing && if pre.pipeline.len() > 0
                && pre.selected_pipeline_step < pre.pipeline.len() {
                post == spec_logged(
                    AppV {
                        pipeline: pre.pipeline.remove(pre.selected_pipeline_step as int),
                        selected_pipeline_step: if pre.selected_pipeline_step + 1
                            == pre.pipeline.len() && pre.selected_pipeline_step > 0 {
                            (pre.selected_pipeline_step - 1) as usize
                        } else {
                            pre.selected_pipeline_step
                        },
                        ..pre
                    },
                    LogLevel::Success,
                    "Step deleted"@,
                    ts,
                )
            } else {
                post == pre
            }
        } else if c == 'c' {
            post == spec_logged(
                AppV { pipeline: Seq::empty(), selected_pipeline_step: 0, ..pre },
                LogLevel::Success,
                "Pipeline cleared"@,
                ts,
            ) && action == ActionV::Nothing
        } else {
            post == pre && action == ActionV::Nothing
        },
        _ => post == pre && action == ActionV::Nothing,
    }
}

/// Results explorer: the selection moves within bounds, counted from the most
/// recent result.
pub open spec fn spec_results_step(pre: AppV, post: AppV, key: Key, action: ActionV) -> bool {
    match key {
        Key::Up => post == (AppV {
            selected_result: if pre.selected_result > 0 {
                (pre.selected_result - 1) as usize
            } else {
                pre.selected_result
            },
            ..pre
        }) && action == ActionV::Nothing,
        Key::Down => post == (AppV {
            selected_result: if pre.selected_result + 1 < pre.results.len() {
                (pre.selected_result + 1) as usize
            } else {
                pre.selected_result
            },
            ..pre
        }) && action == ActionV::Nothing,
        _ => post == pre && action == ActionV::Nothing,
    }
}

/// Export view: `s` opens filename entry with the default base name.
pub open spec fn spec_export_view_step(pre: AppV, post: AppV, key: Key, action: ActionV)
    -> bool {
    match key {
        Key::Char(c) => if c == 's' {
            post == (AppV {
                input_mode: InputMode::ExportName,
                input_buffer: "pipeline"@,
                ..pre
            }) && action == ActionV::Nothing
        } else {
            post == pre && action == ActionV::Nothing
        },
        _ => post == pre && action == ActionV::Nothing,
    }
}

/// Normal mode: a shown help overlay swallows the keystroke; quit, help and
/// view cycling work everywhere; anything else goes to the active view.
pub open spec fn spec_normal_step(
    pre: AppV,
    post: AppV,
    key: Key,
    action: ActionV,
    ts: Seq<char>,
) -> bool {
    if pre.show_help {
        post == (AppV { show_help: false, ..pre }) && action == ActionV::Nothing
    } else {
        match key {
            Key::Char(c) if c == 'q' => post == pre && action == ActionV::Quit,
            Key::Char(c) if c == '?' => post == (AppV { show_help: true, ..pre }) && action
                == ActionV::Nothing,
            Key::Tab => post == (AppV {
                current_view: spec_next_view(pre.current_view),
                ..pre
            }) && action == ActionV::Nothing,
            Key::BackTab => post == (AppV {
                current_view: spec_prev_view(pre.current_view),
                ..pre
            }) && action == ActionV::Nothing,
            _ => match pre.current_view {
                UiView::ScriptBrowser => spec_browser_step(pre, post, key, action),
                UiView::FunctionTester => spec_tester_step(pre, post, key, action, ts),
                UiView::PipelineBuilder => spec_builder_step(pre, post, key, action, ts),
                UiView::ResultsExplorer => spec_results_step(pre, post, key, action),
                UiView::Export => spec_export_view_step(pre, post, key, action),
            },
        }
    }
}

/// The whole transition relation of one keystroke, given the wall-clock label
/// of whatever it logged.
pub open spec fn spec_input_step(
    pre: AppV,
    post: AppV,
    key: Key,
    action: ActionV,
    ts: Seq<char>,
) -> bool {
    match pre.input_mode {
        InputMode::EditingArgs => post == spec_edit_args_step(pre, key) && action
            == ActionV::Nothing,
        InputMode::ExportName => post == spec_export_name_step(pre, key) && action == (
        match spec_export_name_action(pre, key) {
            Some(f) => ActionV::SaveExport(f),
            None => ActionV::Nothing,
        }),
        InputMode::AddingStep => post == pre && action == ActionV::Nothing,
        InputMode::Normal => spec_normal_step(pre, post, key, action, ts),
    }
}

/// Deleting at an out-of-range selection is a no-op: the bounds guard keeps
/// the pipeline and the selection untouched.
pub proof fn lemma_delete_out_of_range(pre: AppV, post: AppV, action: ActionV, ts: Seq<char>)
    requires
        pre.selected_pipeline_step >= pre.pipeline.len(),
        spec_builder_step(pre, post, Key::Char('d'), action, ts),
    ensures
        post == pre,
{
}

// ---------------------------------------------------------------------------
// Executable handlers
// ---------------------------------------------------------------------------

/// Keys of the script browser.
pub fn handle_script_browser_input(app: &mut App, key: Key) -> (r: Action)
    ensures
        spec_browser_step(old(app)@, final(app)@, key, r@),
{
    match key {
        Key::Up => {
            if app.selected_script > 0 {
                app.selected_script = app.selected_script - 1;
            }
            Action::Nothing
        },
        Key::Down => {
            if app.scripts.len() > 0 && app.selected_script < app.scripts.len() - 1 {
                app.selected_script = app.selected_script + 1;
            }
            Action::Nothing
        },
        Key::Char(c) => {
            if c == 'l' {
                if app.scripts.len() > 0 {
                    Action::LoadSelected
                } else {
                    Action::Nothing
                }
            } else if c == 'r' {
                Action::Rescan
            } else {
                Action::Nothing
            }
        },
        _ => Action::Nothing,
    }
}

/// Keys of the function tester.
pub fn handle_function_tester_input(app: &mut App, key: Key) -> (r: Action)
    ensures
        exists|ts: Seq<char>|
            #[trigger] spec_is_clock(ts) && spec_tester_step(old(app)@, final(app)@, key, r@, ts),
{
    let ghost pre = app@;
    proof {
        assert(spec_is_clock(spec_clock(0)));
    }
    match key {
        Key::Up => {
            if app.scripts.len() > 0 && app.selected_script < app.scripts.len()
                && app.function_input.selected_function > 0 {
                app.function_input.selected_function = app.function_input.selected_function - 1;
            }
            Action::Nothing
        },
        Key::Down => {
            if app.scripts.len() > 0 && app.selected_script < app.scripts.len()
                && app.scripts[app.selected_script].functions.len() > 0
                && app.function_input.selected_function
                < app.scripts[app.selected_script].functions.len() - 1 {
                app.function_input.selected_function = app.function_input.selected_function + 1;
            }
            Action::Nothing
        },
        Key::Enter => Action::Execute,
        Key::Char(c) => {
            if c == 'a' {
                app.input_mode = InputMode::EditingArgs;
                app.input_buffer = String::new();
                Action::Nothing
            } else if c == 'c' {
                app.function_input.args.clear();
                proof {
                    assert(app.function_input.args.deep_view() =~= Seq::<Seq<char>>::empty());
                    assert(app@ =~= (AppV {
                        function_input: FunctionInputV {
                            args: Seq::empty(),
                            ..pre.function_input
                        },
                        ..pre
                    }));
                }
                let ghost mid = app@;
                app.add_log(LogLevel::Info, "Arguments cleared".to_owned());
                proof {
                    let ts = choose|ts: Seq<char>|
                        #[trigger] spec_is_clock(ts) && app@ == spec_logged(
                            mid,
                            LogLevel::Info,
                            "Arguments cleared"@,
                            ts,
                        );
                    assert(spec_is_clock(ts) && spec_tester_step(
                        pre,
                        app@,
                        key,
                        Action::Nothing@,
                        ts,
                    ));
                }
                Action::Nothing
            } else if c == 'p' {
                app.add_to_pipeline();
                proof {
                    if spec_can_add(pre) {
                        let ts = choose|ts: Seq<char>|
                            #[trigger] spec_is_clock(ts) && app@ == spec_logged(
                                AppV { pipeline: pre.pipeline.push(spec_new_step(pre)), ..pre },
                                LogLevel::Success,
                                "Added "@ + spec_new_step(pre).id + " to pipeline"@,
                                ts,
                            );
                        assert(spec_is_clock(ts) && spec_tester_step(
                            pre,
                            app@,
                            key,
                            Action::Nothing@,
                            ts,
                        ));
                    }
                }
                Action::Nothing
            } else {
                Action::Nothing
            }
        },
        _ => Action::Nothing,
    }
}

/// Keys of the pipeline builder.
pub fn handle_pipeline_builder_input(app: &mut App, key: Key) -> (r: Action)
    ensures
        exists|ts: Seq<char>|
            #[trigger] spec_is_clock(ts) && spec_builder_step(old(app)@, final(app)@, key, r@, ts),
{
    let ghost pre = app@;
    proof {
        assert(spec_is_clock(spec_clock(0)));
    }
    match key {
        Key::Up => {
            if app.selected_pipeline_step > 0 {
                app.selected_pipeline_step = app.selected_pipeline_step - 1;
            }
            Action::Nothing
        },
        Key::Down => {
            if app.pipeline.len() > 0 && app.selected_pipeline_step < app.pipeline.len() - 1 {
                app.selected_pipeline_step = app.selected_pipeline_step + 1;
            }
            Action::Nothing
        },
        Key::Char(c) => {
            if c == 'x' {
                Action::Replay
            } else if c == 'd' {
                if app.pipeline.len() > 0 && app.selected_pipeline_step < app.pipeline.len() {
                    app.pipeline.remove(app.selected_pipeline_step);
                    proof {
                        assert(app.pipeline.deep_view() =~= pre.pipeline.remove(
                            pre.selected_pipeline_step as int,
                        ));
                    }
                    if app.selected_pipeline_step >= app.pipeline.len()
                        && app.selected_pipeline_step > 0 {
                        app.selected_pipeline_step = app.selected_pipeline_step - 1;
                    }
                    let ghost mid = app@;
                    proof {
                        assert(mid =~= (AppV {
                            pipeline: pre.pipeline.remove(pre.selected_pipeline_step as int),
                            selected_pipeline_step: if pre.selected_pipeline_step + 1
                                == pre.pipeline.len() && pre.selected_pipeline_step > 0 {
                                (pre.selected_pipeline_step - 1) as usize
                            } else {
                                pre.selected_pipeline_step
                            },
                            ..pre
                        }));
                    }
                    app.add_log(LogLevel::Success, "Step deleted".to_owned());
                    proof {
                        let ts = choose|ts: Seq<char>|
                            #[trigger] spec_is_clock(ts) && app@ == spec_logged(
                                mid,
                                LogLevel::Success,
                                "Step deleted"@,
                                ts,
                            );
                        assert(spec_is_clock(ts) && spec_builder_step(
                            pre,
                            app@,
                            key,
                            Action::Nothing@,
                            ts,
                        ));
                    }
                }
                Action::Nothing
            } else if c == 'c' {
                app.pipeline.clear();
                app.selected_pipeline_step = 0;
                proof {
                    assert(app.pipeline.deep_view() =~= Seq::<crate::model::PipelineStepV>::empty());
                    assert(app@ =~= (AppV {
                        pipeline: Seq::empty(),
                        selected_pipeline_step: 0,
                        ..pre
                    }));
                }
                let ghost mid = app@;
                app.add_log(LogLevel::Success, "Pipeline cleared".to_owned());
                proof {
                    let ts = choose|ts: Seq<char>|
                        #[trigger] spec_is_clock(ts) && app@ == spec_logged(
                            mid,
                            LogLevel::Success,
                            "Pipeline cleared"@,
                            ts,
                        );
                    assert(spec_is_clock(ts) && spec_builder_step(
                        pre,
                        app@,
                        key,
                        Action::Nothing@,
                        ts,
                    ));
                }
                Action::Nothing
            } else {
                Action::Nothing
            }
        },
        _ => Action::Nothing,
    }
}

/// Keys of the results explorer.
pub fn handle_results_input(app: &mut App, key: Key) -> (r: Action)
    ensures
        spec_results_step(old(app)@, final(app)@, key, r@),
{
    match key {
        Key::Up => {
            if app.selected_result > 0 {
                app.selected_result = app.selected_result - 1;
            }
            Action::Nothing
        },
        Key::Down => {
            if app.results.len() > 0 && app.selected_result < app.results.len() - 1 {
                app.selected_result = app.selected_result + 1;
            }
            Action::Nothing
        },
        _ => Action::Nothing,
    }
}

/// Keys of the export view.
pub fn handle_export_input(app: &mut App, key: Key) -> (r: Action)
    ensures
        spec_export_view_step(old(app)@, final(app)@, key, r@),
{
    match key {
        Key::Char(c) => {
            if c == 's' {
                app.input_mode = InputMode::ExportName;
                app.input_buffer = "pipeline".to_owned();
            }
            Action::Nothing
        },
        _ => Action::Nothing,
    }
}

impl App {
    /// Interpret one keystroke under the current modal state and view.
    pub fn handle_input(&mut self, key: Key) -> (r: Action)
        ensures
            exists|ts: Seq<char>|
                #[trigger] spec_is_clock(ts) && spec_input_step(
                    old(self)@,
                    final(self)@,
                    key,
                    r@,
                    ts,
                ),
    {
        let ghost pre = self@;
        proof {
            assert(spec_is_clock(spec_clock(0)));
        }
        match self.input_mode {
            InputMode::EditingArgs => {
                match key {
                    Key::Enter => {
                        if !self.input_buffer.as_str().is_empty() {
                            let arg = self.input_buffer.clone();
                            self.function_input.args.push(arg);
                            proof {
                                assert(self.function_input.args.deep_view()
                                    =~= pre.function_input.args.push(pre.input_buffer));
                            }
                            self.input_buffer = String::new();
                        }
                        self.input_mode = InputMode::Normal;
                    },
                    Key::Esc => {
                        self.input_buffer = String::new();
                        self.input_mode = InputMode::Normal;
                    },
                    Key::Backspace => {
                        self.input_buffer = string_drop_last(&self.input_buffer);
                    },
                    Key::Char(c) => {
                        self.input_buffer = string_push_char(&self.input_buffer, c);
                    },
                    _ => {},
                }
                Action::Nothing
            },
            InputMode::ExportName => {
                match key {
                    Key::Enter => {
                        if !self.input_buffer.as_str().is_empty() {
                            let mut filename = self.input_buffer.clone();
                            filename.append(".rs");
                            self.input_buffer = String::new();
                            self.input_mode = InputMode::Normal;
                            return Action::SaveExport(filename);
                        }
                        self.input_buffer = String::new();
                        self.input_mode = InputMode::Normal;
                        Action::Nothing
                    },
                    Key::Esc => {
                        self.input_buffer = String::new();
                        self.input_mode = InputMode::Normal;
                        Action::Nothing
                    },
                    Key::Backspace => {
                        self.input_buffer = string_drop_last(&self.input_buffer);
                        Action::Nothing
                    },
                    Key::Char(c) => {
                        self.input_buffer = string_push_char(&self.input_buffer, c);
                        Action::Nothing
                    },
                    _ => Action::Nothing,
                }
            },
            InputMode::AddingStep => Action::Nothing,
            InputMode::Normal => {
                if self.show_help {
                    self.show_help = false;
                    return Action::Nothing;
                }
                match key {
                    Key::Char(c) if c == 'q' => Action::Quit,
                    Key::Char(c) if c == '?' => {
                        self.show_help = true;
                        Action::Nothing
                    },
                    Key::Tab => {
                        self.next_view();
                        Action::Nothing
                    },
                    Key::BackTab => {
                        self.prev_view();
                        Action::Nothing
                    },
                    _ => {
                        match self.current_view {
                            UiView::ScriptBrowser => handle_script_browser_input(self, key),
                            UiView::FunctionTester => handle_function_tester_input(self, key),
                            UiView::PipelineBuilder => handle_pipeline_builder_input(self, key),
                            UiView::ResultsExplorer => handle_results_input(self, key),
                            UiView::Export => handle_export_input(self, key),
                        }
                    },
                }
            },
        }
    }
}

} // verus!
