//! The data model: scripts discovered in a directory tree, execution records,
//! pipeline steps, the bounded history log, and the state of the interactive
//! dashboard itself. Each executable type has a mathematical view over which
//! the library's contracts are stated.

use vstd::prelude::*;

verus! {

/// A script discovered by a catalog scan.
#[derive(Debug, Clone)]
pub struct Script {
    /// Path of the file, as text.
    pub path: String,
    /// Display name (the file name).
    pub name: String,
    /// Detected language tag.
    pub language: String,
    /// Identifier of the runtime that can load this script.
    pub runtime: String,
    /// Function names discovered in the source text; empty until loaded.
    pub functions: Vec<String>,
    /// Whether the external runtime has loaded this script.
    pub loaded: bool,
    /// The last load error, if any.
    pub error: Option<String>,
}

/// Mathematical view of a [`Script`].
#[verifier::ext_equal]
pub ghost struct ScriptV {
    pub path: Seq<char>,
    pub name: Seq<char>,
    pub language: Seq<char>,
    pub runtime: Seq<char>,
    pub functions: Seq<Seq<char>>,
    pub loaded: bool,
    pub error: Option<Seq<char>>,
}

impl DeepView for Script {
    type V = ScriptV;

    open spec fn deep_view(&self) -> ScriptV {
        self.view()
    }
}

impl View for Script {
    type V = ScriptV;

    open spec fn view(&self) -> ScriptV {
        ScriptV {
            path: self.path@,
            name: self.name@,
            language: self.language@,
            runtime: self.runtime@,
            functions: self.functions.deep_view(),
            loaded: self.loaded,
            error: match self.error {
                Some(ref e) => Some(e@),
                None => None,
            },
        }
    }
}

/// The immutable record of one invocation attempt, successful or not.
#[derive(Debug, Clone)]
pub struct ExecutionResult {
    /// Script-qualified function name.
    pub function: String,
    /// The argument list used, as the literal strings the user entered.
    pub args: Vec<String>,
    /// The textual output, or the error text on failure.
    pub output: String,
    /// Elapsed wall time of the attempt, in milliseconds.
    pub duration_ms: u64,
    /// Whether the invocation succeeded.
    pub success: bool,
    /// Human-readable wall-clock time of the attempt.
    pub timestamp: String,
}

/// Mathematical view of an [`ExecutionResult`].
#[verifier::ext_equal]
pub ghost struct ExecutionResultV {
    pub function: Seq<char>,
    pub args: Seq<Seq<char>>,
    pub output: Seq<char>,
    pub duration_ms: u64,
    pub success: bool,
    pub timestamp: Seq<char>,
}

impl DeepView for ExecutionResult {
    type V = ExecutionResultV;

    open spec fn deep_view(&self) -> ExecutionResultV {
        self.view()
    }
}

impl View for ExecutionResult {
    type V = ExecutionResultV;

    open spec fn view(&self) -> ExecutionResultV {
        ExecutionResultV {
            function: self.function@,
            args: self.args.deep_view(),
            output: self.output@,
            duration_ms: self.duration_ms,
            success: self.success,
            timestamp: self.timestamp@,
        }
    }
}

/// One step of the user-built pipeline.
#[derive(Debug, Clone)]
pub struct PipelineStep {
    /// Generated sequential identifier.
    pub id: String,
    /// Target script, referenced by name.
    pub script: String,
    /// Target function name.
    pub function: String,
    /// Argument list, as literal strings.
    pub args: Vec<String>,
    /// Human-readable description, cached at creation time.
    pub description: String,
}

/// Mathematical view of a [`PipelineStep`].
#[verifier::ext_equal]
pub ghost struct PipelineStepV {
    pub id: Seq<char>,
    pub script: Seq<char>,
    pub function: Seq<char>,
    pub args: Seq<Seq<char>>,
    pub description: Seq<char>,
}

impl DeepView for PipelineStep {
    type V = PipelineStepV;

    open spec fn deep_view(&self) -> PipelineStepV {
        self.view()
    }
}

impl View for PipelineStep {
    type V = PipelineStepV;

    open spec fn view(&self) -> PipelineStepV {
        PipelineStepV {
            id: self.id@,
            script: self.script@,
            function: self.function@,
            args: self.args.deep_view(),
            description: self.description@,
        }
    }
}

/// The five views of the dashboard, arranged in a fixed ring.
#[derive(Debug, Clone, Copy, PartialEq, Eq, Structural)]
pub enum UiView {
    ScriptBrowser,
    FunctionTester,
    PipelineBuilder,
    ResultsExplorer,
    Export,
}

/// How keystrokes are currently interpreted.
#[derive(Debug, Clone, Copy, PartialEq, Eq, Structural)]
pub enum InputMode {
    Normal,
    EditingArgs,
    AddingStep,
    ExportName,
}

/// The shared "current function selection" context of the function tester.
#[derive(Debug, Clone)]
pub struct FunctionInput {
    /// Index into the selected script's function list.
    pub selected_function: usize,
    /// Arguments to pass on the next invocation.
    pub args: Vec<String>,
    /// Argument text being typed, before it is confirmed.
    pub current_arg: String,
}

/// Mathematical view of a [`FunctionInput`].
#[verifier::ext_equal]
pub ghost struct FunctionInputV {
    pub selected_function: usize,
    pub args: Seq<Seq<char>>,
    pub current_arg: Seq<char>,
}

impl DeepView for FunctionInput {
    type V = FunctionInputV;

    open spec fn deep_view(&self) -> FunctionInputV {
        self.view()
    }
}

impl View for FunctionInput {
    type V = FunctionInputV;

    open spec fn view(&self) -> FunctionInputV {
        FunctionInputV {
            selected_function: self.selected_function,
            args: self.args.deep_view(),
            current_arg: self.current_arg@,
        }
    }
}

/// One entry of the bounded history log.
#[derive(Debug, Clone)]
pub struct LogEntry {
    /// Human-readable wall-clock time of the event.
    pub timestamp: String,
    /// Severity of the event.
    pub level: LogLevel,
    /// The message text.
    pub message: String,
}

/// Mathematical view of a [`LogEntry`].
#[verifier::ext_equal]
pub ghost struct LogEntryV {
    pub timestamp: Seq<char>,
    pub level: LogLevel,
    pub message: Seq<char>,
}

impl DeepView for LogEntry {
    type V = LogEntryV;

    open spec fn deep_view(&self) -> LogEntryV {
        self.view()
    }
}

impl View for LogEntry {
    type V = LogEntryV;

    open spec fn view(&self) -> LogEntryV {
        LogEntryV {
            timestamp: self.timestamp@,
            level: self.level,
            message: self.message@,
        }
    }
}

/// Severity of a history log entry.
#[derive(Debug, Clone, Copy, PartialEq, Eq, Structural)]
pub enum LogLevel {
    Info,
    Success,
    Error,
    Warning,
}

} // verus!
