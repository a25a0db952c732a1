//! The dashboard state: one value owns the script catalog, the pipeline, the
//! execution history, the bounded log and the view/input machine, and every
//! keystroke handler mutates it through the contracts in this crate.

use vstd::prelude::*;
use crate::model::{
    ExecutionResult, ExecutionResultV, FunctionInput, FunctionInputV, InputMode, LogEntry,
    LogEntryV, LogLevel, PipelineStep, PipelineStepV, Script, ScriptV, UiView,
};
use crate::text::{spec_digits, spec_to_lower, str_eq, to_lower, u64_to_string};

verus! {

// ---------------------------------------------------------------------------
// Files handed to the catalog scan
// ---------------------------------------------------------------------------

/// One file found while walking the root directory (within the depth bound);
/// the host walks the tree and hands the files over as plain values.
#[derive(Debug, Clone)]
pub struct FileEntry {
    /// Path of the file, as text.
    pub path: String,
    /// The file name.
    pub name: String,
    /// The extension, without the dot.
    pub extension: String,
}

/// Mathematical view of a [`FileEntry`].
#[verifier::ext_equal]
pub ghost struct FileEntryV {
    pub path: Seq<char>,
    pub name: Seq<char>,
    pub extension: Seq<char>,
}

impl View for FileEntry {
    type V = FileEntryV;

    open spec fn view(&self) -> FileEntryV {
        FileEntryV { path: self.path@, name: self.name@, extension: self.extension@ }
    }
}

impl DeepView for FileEntry {
    type V = FileEntryV;

    open spec fn deep_view(&self) -> FileEntryV {
        self.view()
    }
}

// ---------------------------------------------------------------------------
// Extension classification
// ---------------------------------------------------------------------------

/// Whether a (lowercased) extension is in the fixed recognized set.
pub open spec fn spec_recognized(ext: Seq<char>) -> bool {
    ext == "py"@ || ext == "js"@ || ext == "rb"@ || ext == "ts"@
}

/// The language tag for a recognized extension.
pub open spec fn spec_language_of(ext: Seq<char>) -> Seq<char> {
    if ext == "py"@ {
        "Python"@
    } else if ext == "js"@ {
        "JavaScript"@
    } else if ext == "rb"@ {
        "Ruby"@
    } else {
        "TypeScript"@
    }
}

/// The runtime identifier for a recognized extension.
pub open spec fn spec_runtime_of(ext: Seq<char>) -> Seq<char> {
    if ext == "py"@ {
        "py"@
    } else if ext == "js"@ {
        "node"@
    } else if ext == "rb"@ {
        "rb"@
    } else {
        "ts"@
    }
}

/// The script a recognized file entry becomes: nothing discovered yet.
pub open spec fn spec_script_of(e: FileEntryV) -> ScriptV {
    ScriptV {
        path: e.path,
        name: e.name,
        language: spec_language_of(spec_to_lower(e.extension)),
        runtime: spec_runtime_of(spec_to_lower(e.extension)),
        functions: Seq::empty(),
        loaded: false,
        error: None,
    }
}

/// The catalog a scan produces: one script per recognized file, in walk
/// order; unrecognized extensions are skipped.
pub open spec fn spec_scan(entries: Seq<FileEntryV>) -> Seq<ScriptV>
    decreases entries.len(),
{
    if entries.len() == 0 {
        Seq::empty()
    } else {
        (if spec_recognized(spec_to_lower(entries[0].extension)) {
            seq![spec_script_of(entries[0])]
        } else {
            Seq::empty()
        }) + spec_scan(entries.drop_first())
    }
}

// ---------------------------------------------------------------------------
// The application state and its view
// ---------------------------------------------------------------------------

/// The whole state of the dashboard.
pub struct App {
    /// Root directory the catalog scans.
    pub root_dir: String,
    /// The script catalog.
    pub scripts: Vec<Script>,
    /// Selection index in the script browser.
    pub selected_script: usize,
    /// Append-only history of invocation attempts.
    pub results: Vec<ExecutionResult>,
    /// The user-built pipeline.
    pub pipeline: Vec<PipelineStep>,
    /// Selection index in the pipeline builder.
    pub selected_pipeline_step: usize,
    /// The active view.
    pub current_view: UiView,
    /// The bounded history log.
    pub logs: Vec<LogEntry>,
    /// How keystrokes are currently interpreted.
    pub input_mode: InputMode,
    /// Free-text capture for the modal input states.
    pub input_buffer: String,
    /// The shared current-function-selection context.
    pub function_input: FunctionInput,
    /// Selection index in the results explorer, counted from the most recent.
    pub selected_result: usize,
    /// Whether the help overlay is shown.
    pub show_help: bool,
}

/// Mathematical view of the whole [`App`].
#[verifier::ext_equal]
pub ghost struct AppV {
    pub root_dir: Seq<char>,
    pub scripts: Seq<ScriptV>,
    pub selected_script: usize,
    pub results: Seq<ExecutionResultV>,
    pub pipeline: Seq<PipelineStepV>,
    pub selected_pipeline_step: usize,
    pub current_view: UiView,
    pub logs: Seq<LogEntryV>,
    pub input_mode: InputMode,
    pub input_buffer: Seq<char>,
    pub function_input: FunctionInputV,
    pub selected_result: usize,
    pub show_help: bool,
}

impl View for App {
    type V = AppV;

    open spec fn view(&self) -> AppV {
        AppV {
            root_dir: self.root_dir@,
            scripts: self.scripts.deep_view(),
            selected_script: self.selected_script,
            results: self.results.deep_view(),
            pipeline: self.pipeline.deep_view(),
            selected_pipeline_step: self.selected_pipeline_step,
            current_view: self.current_view,
            logs: self.logs.deep_view(),
            input_mode: self.input_mode,
            input_buffer: self.input_buffer@,
            function_input: self.function_input@,
            selected_result: self.selected_result,
            show_help: self.show_help,
        }
    }
}

/// The state a fresh dashboard starts in, before anything is logged.
pub open spec fn spec_initial(root: Seq<char>) -> AppV {
    AppV {
        root_dir: root,
        scripts: Seq::empty(),
        selected_script: 0,
        results: Seq::empty(),
        pipeline: Seq::empty(),
        selected_pipeline_step: 0,
        current_view: UiView::ScriptBrowser,
        logs: Seq::empty(),
        input_mode: InputMode::Normal,
        input_buffer: Seq::empty(),
        function_input: FunctionInputV {
            selected_function: 0,
            args: Seq::empty(),
            current_arg: Seq::empty(),
        },
        selected_result: 0,
        show_help: false,
    }
}

// ---------------------------------------------------------------------------
// The clock and the bounded log
// ---------------------------------------------------------------------------

/// Two digits, zero-padded, for a value below 100.
pub open spec fn spec_pad2(n: int) -> Seq<char> {
    if n < 10 {
        seq!['0'] + spec_digits(n)
    } else {
        spec_digits(n)
    }
}

/// The wall-clock label `hh:mm:ss` for `t` seconds since an epoch.
pub open spec fn spec_clock(t: u64) -> Seq<char> {
    let s = t % 86400;
    spec_pad2(s as int / 3600) + seq![':'] + spec_pad2((s as int % 3600) / 60) + seq![':']
        + spec_pad2(s as int % 60)
}

/// Whether `s` reads as some wall-clock label.
pub open spec fn spec_is_clock(s: Seq<char>) -> bool {
    exists|t: u64| s == #[trigger] spec_clock(t)
}

/// Appending to the bounded log: the new entry goes last, and once the cap of
/// one hundred entries is exceeded the oldest entry is evicted.
pub open spec fn spec_log_append(logs: Seq<LogEntryV>, e: LogEntryV) -> Seq<LogEntryV> {
    if logs.len() + 1 > 100 {
        logs.push(e).drop_first()
    } else {
        logs.push(e)
    }
}

/// `post` is `pre` after one entry with `level` and `message` was logged at
/// some wall-clock time.
pub open spec fn spec_with_log(pre: AppV, post: AppV, level: LogLevel, message: Seq<char>) -> bool {
    exists|ts: Seq<char>|
        #[trigger] spec_is_clock(ts) && post == AppV {
            logs: spec_log_append(pre.logs, LogEntryV { timestamp: ts, level, message }),
            ..pre
        }
}

/// A log at the cap stays at the cap: the bounded log never exceeds one
/// hundred entries, and after an append at the cap the oldest entry is gone
/// and the newest is present.
pub proof fn lemma_log_bounded(logs: Seq<LogEntryV>, e: LogEntryV)
    requires
        logs.len() <= 100,
    ensures
        spec_log_append(logs, e).len() <= 100,
        spec_log_append(logs, e).last() == e,
        logs.len() == 100 ==> spec_log_append(logs, e) == logs.drop_first().push(e),
{
    if logs.len() == 100 {
        assert(logs.push(e).drop_first() =~= logs.drop_first().push(e));
    }
}

/// Any transition that goes through the bounded log keeps it at or under the
/// cap of one hundred entries.
pub proof fn lemma_with_log_preserves_cap(
    pre: AppV,
    post: AppV,
    level: LogLevel,
    message: Seq<char>,
)
    requires
        pre.logs.len() <= 100,
        spec_with_log(pre, post, level, message),
    ensures
        post.logs.len() <= 100,
{
    let ts = choose|ts: Seq<char>|
        #[trigger] spec_is_clock(ts) && post == AppV {
            logs: spec_log_append(pre.logs, LogEntryV { timestamp: ts, level, message }),
            ..pre
        };
    lemma_log_bounded(pre.logs, LogEntryV { timestamp: ts, level, message });
}

/// Relies on `std::time::SystemTime::now` and `duration_since`: seconds since
/// the Unix epoch, or zero if the system clock reads before it.
#[verifier::external_body]
fn now_unix_secs() -> (r: u64) {
    std::time::SystemTime::now()
        .duration_since(std::time::UNIX_EPOCH)
        .map(|d| d.as_secs())
        .unwrap_or(0)
}

/// Two digits, zero-padded.
fn pad2(n: u64) -> (r: String)
    requires
        n < 100,
    ensures
        r@ == spec_pad2(n as int),
{
    if n < 10 {
        let mut r = "0".to_owned();
        let d = u64_to_string(n);
        r.append(d.as_str());
        proof {
            reveal_strlit("0");
            assert(r@ =~= spec_pad2(n as int));
        }
        r
    } else {
        u64_to_string(n)
    }
}

/// Render `t` seconds since an epoch as a wall-clock label.
pub fn clock_label(t: u64) -> (r: String)
    ensures
        r@ == spec_clock(t),
{
    let s = t % 86400;
    let mut r = pad2(s / 3600);
    r.append(":");
    let m = pad2((s % 3600) / 60);
    r.append(m.as_str());
    r.append(":");
    let sec = pad2(s % 60);
    r.append(sec.as_str());
    proof {
        reveal_strlit(":");
        assert(r@ =~= spec_clock(t));
    }
    r
}

impl App {
    /// The wall-clock label of this moment.
    pub fn timestamp() -> (r: String)
        ensures
            spec_is_clock(r@),
    {
        let now = now_unix_secs();
        let r = clock_label(now);
        proof {
            assert(r@ == spec_clock(now));
        }
        r
    }

    /// Append one entry to the bounded history log.
    pub fn add_log(&mut self, level: LogLevel, message: String)
        ensures
            spec_with_log(old(self)@, final(self)@, level, message@),
    {
        let ghost pre = self@;
        let ts = Self::timestamp();
        let ghost tsv = ts@;
        let ghost mv = message@;
        let entry = LogEntry { timestamp: ts, level, message };
        let ghost ev = entry@;
        self.logs.push(entry);
        proof {
            assert(self.logs@.last().deep_view() =~= ev);
            assert(self.logs.deep_view() =~= pre.logs.push(ev));
        }
        if self.logs.len() > 100 {
            self.logs.remove(0);
            proof {
                assert(self.logs.deep_view() =~= pre.logs.push(ev).drop_first());
            }
        }
        proof {
            assert(self@ == AppV { logs: spec_log_append(pre.logs, ev), ..pre });
            assert(spec_is_clock(tsv) && self@ == AppV {
                logs: spec_log_append(pre.logs, LogEntryV { timestamp: tsv, level, message: mv }),
                ..pre
            });
        }
    }

    /// Move to the next view in the fixed ring.
    pub fn next_view(&mut self)
        ensures
            final(self)@ == (AppV { current_view: spec_next_view(old(self)@.current_view), ..old(self)@ }),
    {
        self.current_view = match self.current_view {
            UiView::ScriptBrowser => UiView::FunctionTester,
            UiView::FunctionTester => UiView::PipelineBuilder,
            UiView::PipelineBuilder => UiView::ResultsExplorer,
            UiView::ResultsExplorer => UiView::Export,
            UiView::Export => UiView::ScriptBrowser,
        };
    }

    /// Move to the previous view in the fixed ring.
    pub fn prev_view(&mut self)
        ensures
            final(self)@ == (AppV { current_view: spec_prev_view(old(self)@.current_view), ..old(self)@ }),
    {
        self.current_view = match self.current_view {
            UiView::ScriptBrowser => UiView::Export,
            UiView::FunctionTester => UiView::ScriptBrowser,
            UiView::PipelineBuilder => UiView::FunctionTester,
            UiView::ResultsExplorer => UiView::PipelineBuilder,
            UiView::Export => UiView::ResultsExplorer,
        };
    }

    /// Replace the catalog with the scripts recognized among `files`. Any
    /// load state and discovered functions from an earlier scan are lost.
    pub fn scan_scripts(&mut self, files: &Vec<FileEntry>)
        ensures
            spec_with_log(
                AppV { scripts: spec_scan(files.deep_view()), ..old(self)@ },
                final(self)@,
                LogLevel::Success,
                "Found "@ + spec_digits(spec_scan(files.deep_view()).len() as int) + " scripts"@,
            ),
    {
        let ghost pre = self@;
        let ghost fdv = files.deep_view();
        let mut found: Vec<Script> = Vec::new();
        let n = files.len();
        let mut i: usize = 0;
        proof {
            assert(fdv.skip(0) =~= fdv);
            assert(found.deep_view() + spec_scan(fdv) =~= spec_scan(fdv));
            assert(forall|k: int| 0 <= k < n ==> #[trigger] files@[k].deep_view() == fdv[k]);
        }
        while i < n
            invariant
                i <= n,
                n == files@.len(),
                fdv == files.deep_view(),
                fdv.len() == n,
                forall|k: int| 0 <= k < n ==> #[trigger] files@[k].deep_view() == fdv[k],
                spec_scan(fdv) == found.deep_view() + spec_scan(fdv.skip(i as int)),
            decreases n - i,
        {
            let ghost rest = fdv.skip(i as int);
            let ghost f_old = found.deep_view();
            proof {
                assert(rest[0] == fdv[i as int]);
                assert(rest.drop_first() =~= fdv.skip(i + 1));
            }
            let ext = to_lower(&files[i].extension);
            let lang: Option<(&str, &str)> = if str_eq(ext.as_str(), "py") {
                Some(("Python", "py"))
            } else if str_eq(ext.as_str(), "js") {
                Some(("JavaScript", "node"))
            } else if str_eq(ext.as_str(), "rb") {
                Some(("Ruby", "rb"))
            } else if str_eq(ext.as_str(), "ts") {
                Some(("TypeScript", "ts"))
            } else {
                None
            };
            match lang {
                Some((language, runtime)) => {
                    let entry = Script {
                        path: files[i].path.clone(),
                        name: files[i].name.clone(),
                        language: language.to_owned(),
                        runtime: runtime.to_owned(),
                        functions: Vec::new(),
                        loaded: false,
                        error: None,
                    };
                    let ghost ev = entry@;
                    proof {
                        assert(ev == spec_script_of(fdv[i as int]));
                    }
                    found.push(entry);
                    proof {
                        assert(found@.last().deep_view() =~= ev);
                        assert(found.deep_view() =~= f_old.push(ev));
                        assert(spec_scan(rest) == seq![ev] + spec_scan(fdv.skip(i + 1)));
                        assert(f_old.push(ev) + spec_scan(fdv.skip(i + 1)) =~= f_old + (seq![ev]
                            + spec_scan(fdv.skip(i + 1))));
                    }
                },
                None => {
                    proof {
                        assert(!spec_recognized(spec_to_lower(fdv[i as int].extension)));
                        assert(spec_scan(rest) == Seq::<ScriptV>::empty() + spec_scan(
                            fdv.skip(i + 1),
                        ));
                        assert(f_old + (Seq::<ScriptV>::empty() + spec_scan(fdv.skip(i + 1)))
                            =~= f_old + spec_scan(fdv.skip(i + 1)));
                    }
                },
            }
            i = i + 1;
        }
        proof {
            assert(fdv.skip(n as int) =~= Seq::<FileEntryV>::empty());
            assert(found.deep_view() + spec_scan(Seq::<FileEntryV>::empty())
                =~= found.deep_view());
        }
        let count = found.len();
        self.scripts = found;
        let mut msg = "Found ".to_owned();
        let digits = u64_to_string(count as u64);
        msg.append(digits.as_str());
        msg.append(" scripts");
        proof {
            assert(self@ == AppV { scripts: spec_scan(fdv), ..pre });
            assert(msg@ == "Found "@ + spec_digits(spec_scan(fdv).len() as int) + " scripts"@);
        }
        self.add_log(LogLevel::Success, msg);
    }

    /// A fresh dashboard over `root_dir`: two startup entries are logged,
    /// then the catalog is scanned once.
    pub fn new(root_dir: String, files: &Vec<FileEntry>) -> (r: Self)
        ensures
            exists|mid: AppV, mid2: AppV|
                {
                    &&& #[trigger] spec_with_log(
                        spec_initial(root_dir@),
                        mid,
                        LogLevel::Info,
                        "MetaCall Playground started"@,
                    )
                    &&& #[trigger] spec_with_log(
                        mid,
                        mid2,
                        LogLevel::Info,
                        "Scanning directory: "@ + root_dir@,
                    )
                    &&& spec_with_log(
                        AppV { scripts: spec_scan(files.deep_view()), ..mid2 },
                        r@,
                        LogLevel::Success,
                        "Found "@ + spec_digits(spec_scan(files.deep_view()).len() as int)
                            + " scripts"@,
                    )
                },
    {
        let mut msg2 = "Scanning directory: ".to_owned();
        msg2.append(root_dir.as_str());
        let mut app = App {
            root_dir,
            scripts: Vec::new(),
            selected_script: 0,
            results: Vec::new(),
            pipeline: Vec::new(),
            selected_pipeline_step: 0,
            current_view: UiView::ScriptBrowser,
            logs: Vec::new(),
            input_mode: InputMode::Normal,
            input_buffer: String::new(),
            function_input: FunctionInput {
                selected_function: 0,
                args: Vec::new(),
                current_arg: String::new(),
            },
            selected_result: 0,
            show_help: false,
        };
        proof {
            assert(app@ =~= spec_initial(app.root_dir@));
        }
        app.add_log(LogLevel::Info, "MetaCall Playground started".to_owned());
        let ghost mid = app@;
        app.add_log(LogLevel::Info, msg2);
        let ghost mid2 = app@;
        app.scan_scripts(files);
        app
    }
}

/// The view after `v` in the fixed ring.
pub open spec fn spec_next_view(v: UiView) -> UiView {
    match v {
        UiView::ScriptBrowser => UiView::FunctionTester,
        UiView::FunctionTester => UiView::PipelineBuilder,
        UiView::PipelineBuilder => UiView::ResultsExplorer,
        UiView::ResultsExplorer => UiView::Export,
        UiView::Export => UiView::ScriptBrowser,
    }
}

/// The view before `v` in the fixed ring.
pub open spec fn spec_prev_view(v: UiView) -> UiView {
    match v {
        UiView::ScriptBrowser => UiView::Export,
        UiView::FunctionTester => UiView::ScriptBrowser,
        UiView::PipelineBuilder => UiView::FunctionTester,
        UiView::ResultsExplorer => UiView::PipelineBuilder,
        UiView::Export => UiView::ResultsExplorer,
    }
}

// ---------------------------------------------------------------------------
// Laws of the catalog scan
// ---------------------------------------------------------------------------

/// A scan never yields a script for an unrecognized extension, and yields
/// exactly one script per recognized file, in walk order: the catalog is the
/// recognized files, each turned into a fresh script.
pub proof fn lemma_scan_exactly_recognized(entries: Seq<FileEntryV>)
    ensures
        spec_scan(entries) == entries.filter(
            |e: FileEntryV| spec_recognized(spec_to_lower(e.extension)),
        ).map_values(|e: FileEntryV| spec_script_of(e)),
    decreases entries.len(),
{
    reveal(Seq::filter);
    let pred = |e: FileEntryV| spec_recognized(spec_to_lower(e.extension));
    let to_script = |e: FileEntryV| spec_script_of(e);
    if entries.len() == 0 {
        assert(entries.filter(pred) =~= Seq::<FileEntryV>::empty());
        assert(spec_scan(entries) =~= entries.filter(pred).map_values(to_script));
    } else {
        let head = seq![entries[0]];
        let tail = entries.drop_first();
        lemma_scan_exactly_recognized(tail);
        assert(entries =~= head + tail);
        Seq::filter_distributes_over_add(head, tail, pred);
        assert(head.drop_last() =~= Seq::<FileEntryV>::empty());
        assert(Seq::<FileEntryV>::empty().filter(pred) =~= Seq::<FileEntryV>::empty());
        assert(head.last() == entries[0]);
        if pred(entries[0]) {
            assert(head.filter(pred) =~= head);
        } else {
            assert(head.filter(pred) =~= Seq::<FileEntryV>::empty());
        }
        assert(spec_scan(entries) =~= (head + tail).filter(pred).map_values(to_script));
        assert(entries.filter(pred) == (head + tail).filter(pred));
    }
}

/// Rescanning replaces the catalog totally: every script of a fresh scan has
/// no discovered functions, is not loaded, and carries no error.
pub proof fn lemma_scan_fresh(entries: Seq<FileEntryV>)
    ensures
        forall|k: int|
            0 <= k < spec_scan(entries).len() ==> {
                &&& (#[trigger] spec_scan(entries)[k]).functions.len() == 0
                &&& !spec_scan(entries)[k].loaded
                &&& spec_scan(entries)[k].error is None
            },
    decreases entries.len(),
{
    if entries.len() > 0 {
        lemma_scan_fresh(entries.drop_first());
    }
}

} // verus!
