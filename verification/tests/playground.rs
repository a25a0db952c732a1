use script_playground::app::{App, FileEntry};
use script_playground::input::{Action, Key};
use script_playground::invoke::ArgValues;
use script_playground::model::{LogLevel, UiView};

fn entry(path: &str, name: &str, ext: &str) -> FileEntry {
    FileEntry { path: path.to_string(), name: name.to_string(), extension: ext.to_string() }
}

fn fresh_app(files: Vec<FileEntry>) -> App {
    App::new("/tmp/scripts".to_string(), &files)
}

#[test]
fn scan_recognizes_only_known_extensions() {
    let app = fresh_app(vec![
        entry("/tmp/scripts/a.py", "a.py", "py"),
        entry("/tmp/scripts/b.txt", "b.txt", "txt"),
        entry("/tmp/scripts/c.js", "c.js", "js"),
        entry("/tmp/scripts/d.rb", "d.rb", "rb"),
        entry("/tmp/scripts/e.ts", "e.ts", "ts"),
        entry("/tmp/scripts/f.md", "f.md", "md"),
    ]);
    assert_eq!(app.scripts.len(), 4);
    assert_eq!(app.scripts[0].language, "Python");
    assert_eq!(app.scripts[0].runtime, "py");
    assert_eq!(app.scripts[1].language, "JavaScript");
    assert_eq!(app.scripts[1].runtime, "node");
    assert_eq!(app.scripts[2].language, "Ruby");
    assert_eq!(app.scripts[3].language, "TypeScript");
}

#[test]
fn scan_lowercases_extensions() {
    let app = fresh_app(vec![entry("/tmp/scripts/A.PY", "A.PY", "PY")]);
    assert_eq!(app.scripts.len(), 1);
    assert_eq!(app.scripts[0].language, "Python");
    assert_eq!(app.scripts[0].name, "A.PY");
}

#[test]
fn scan_yields_one_script_per_recognized_file() {
    let app = fresh_app(vec![
        entry("/tmp/scripts/a.py", "a.py", "py"),
        entry("/tmp/scripts/a2.py", "a2.py", "py"),
    ]);
    assert_eq!(app.scripts.len(), 2);
    assert_eq!(app.scripts[0].name, "a.py");
    assert_eq!(app.scripts[1].name, "a2.py");
    assert!(!app.scripts[0].loaded);
    assert!(app.scripts[0].functions.is_empty());
    assert!(app.scripts[0].error.is_none());
}

#[test]
fn rescan_replaces_catalog_totally() {
    let mut app = fresh_app(vec![entry("/tmp/scripts/a.py", "a.py", "py")]);
    let r = app.apply_load_outcome(0, Ok(Some("def add(a, b):\n    return a+b\n".to_string())));
    assert!(r.is_ok());
    assert!(app.scripts[0].loaded);
    assert_eq!(app.scripts[0].functions, vec!["add".to_string()]);
    // rescanning drops the load state and the discovered functions
    let files = vec![entry("/tmp/scripts/a.py", "a.py", "py")];
    app.scan_scripts(&files);
    assert_eq!(app.scripts.len(), 1);
    assert!(!app.scripts[0].loaded);
    assert!(app.scripts[0].functions.is_empty());
}

#[test]
fn extract_is_pure_and_deterministic() {
    let app = fresh_app(vec![]);
    let text = "def one():\n    pass\ndef two(x):\n    return x\n";
    let a = app.extract_functions(text, "Python");
    let b = app.extract_functions(text, "Python");
    assert_eq!(a, b);
    assert_eq!(a, vec!["one".to_string(), "two".to_string()]);
}

#[test]
fn extract_unknown_language_is_empty() {
    let app = fresh_app(vec![]);
    assert!(app.extract_functions("def x():", "Haskell").is_empty());
    assert!(app.extract_functions("function f() {}", "").is_empty());
}

#[test]
fn extract_python_filters_private_names() {
    let app = fresh_app(vec![]);
    let names = app.extract_functions("def _hidden(x):\n  def visible(y):\n", "Python");
    assert_eq!(names, vec!["visible".to_string()]);
}

#[test]
fn extract_javascript_patterns() {
    let app = fresh_app(vec![]);
    let text = "function alpha(x) {}\nconst beta = (x) => x + 1;\nlet gamma = function(y) { return y; };\nconst notafn = 5;\n";
    let names = app.extract_functions(text, "JavaScript");
    assert_eq!(
        names,
        vec!["alpha".to_string(), "beta".to_string(), "gamma".to_string()]
    );
    let ts = app.extract_functions("function tee() {}", "TypeScript");
    assert_eq!(ts, vec!["tee".to_string()]);
}

#[test]
fn extract_ruby_definitions() {
    let app = fresh_app(vec![]);
    let names = app.extract_functions("def greet(name)\n  puts name\nend\ndef bare\nend\n", "Ruby");
    assert_eq!(names, vec!["greet".to_string(), "bare".to_string()]);
}

#[test]
fn history_log_never_exceeds_cap() {
    let mut app = fresh_app(vec![]);
    for i in 0..150 {
        app.add_log(LogLevel::Info, format!("m{}", i));
    }
    assert_eq!(app.logs.len(), 100);
    assert_eq!(app.logs.last().unwrap().message, "m149");
    // 3 startup entries + 150 appends = 153 total; the first 53 are evicted
    assert_eq!(app.logs[0].message, "m50");
}

#[test]
fn log_eviction_drops_oldest_keeps_newest() {
    let mut app = fresh_app(vec![]);
    for i in 0..97 {
        app.add_log(LogLevel::Info, format!("fill{}", i));
    }
    assert_eq!(app.logs.len(), 100);
    let oldest = app.logs[0].message.clone();
    app.add_log(LogLevel::Warning, "the hundred and first".to_string());
    assert_eq!(app.logs.len(), 100);
    assert!(app.logs.iter().all(|e| e.message != oldest));
    assert_eq!(app.logs.last().unwrap().message, "the hundred and first");
}

#[test]
fn replay_of_empty_pipeline_fails_fast() {
    let mut app = fresh_app(vec![]);
    let logs_before = app.logs.len();
    let results_before = app.results.len();
    let r = app.execute_pipeline();
    assert_eq!(r.unwrap_err(), "Pipeline is empty");
    assert_eq!(app.results.len(), results_before);
    assert_eq!(app.logs.len(), logs_before);
}

fn app_with_loaded_script() -> App {
    let mut app = fresh_app(vec![entry("/tmp/scripts/a.py", "a.py", "py")]);
    app.apply_load_outcome(0, Ok(Some("def add(a, b):\n    return a+b\n".to_string())))
        .unwrap();
    app
}

#[test]
fn delete_step_out_of_range_is_noop() {
    let mut app = app_with_loaded_script();
    app.add_to_pipeline();
    app.add_to_pipeline();
    assert_eq!(app.pipeline.len(), 2);
    app.current_view = UiView::PipelineBuilder;
    app.selected_pipeline_step = 7;
    let action = app.handle_input(Key::Char('d'));
    assert!(matches!(action, Action::Nothing));
    assert_eq!(app.pipeline.len(), 2);
    assert_eq!(app.selected_pipeline_step, 7);
}

#[test]
fn delete_last_step_decrements_selection() {
    let mut app = app_with_loaded_script();
    app.add_to_pipeline();
    app.add_to_pipeline();
    app.current_view = UiView::PipelineBuilder;
    app.selected_pipeline_step = 1;
    app.handle_input(Key::Char('d'));
    assert_eq!(app.pipeline.len(), 1);
    assert_eq!(app.selected_pipeline_step, 0);
    app.handle_input(Key::Char('d'));
    assert_eq!(app.pipeline.len(), 0);
    assert_eq!(app.selected_pipeline_step, 0);
}

#[test]
fn export_deduplicates_load_statements() {
    let mut app = app_with_loaded_script();
    app.add_to_pipeline();
    app.add_to_pipeline();
    let out = app.export_with_clock("12:00:00", "[]");
    let loads = out.matches("load::from_single_file").count();
    assert_eq!(loads, 1);
    assert!(out.contains("    load::from_single_file(\"py\", \"/tmp/scripts/a.py\")?;\n"));
    assert!(out.contains("// Export Date: 12:00:00"));
    assert!(out.contains("let result_1: String = metacall(\"add\", vec![])?;"));
    assert!(out.contains("let result_2"));
}

#[test]
fn export_renders_integer_and_string_arguments() {
    let mut app = app_with_loaded_script();
    app.function_input.args = vec!["2".to_string(), "hey".to_string()];
    app.add_to_pipeline();
    let out = app.export_with_clock("00:00:01", "dump");
    assert!(out.contains("metacall(\"add\", vec![2, \"hey\".to_string()])?;"));
    assert!(out.ends_with("/*\ndump\n*/\n"));
}

#[test]
fn export_of_empty_pipeline_is_exact() {
    let app = fresh_app(vec![]);
    let out = app.export_with_clock("09:08:07", "[]");
    let expected = "// Generated MetaCall Pipeline\n// Export Date: 09:08:07\n\n// === Rust Implementation ===\nuse metacall::{initialize, load, metacall};\n\nfn execute_pipeline() -> Result<(), String> {\n    let _metacall = initialize()?;\n\n\n    Ok(())\n}\n\n// === JSON Configuration ===\n/*\n[]\n*/\n";
    assert_eq!(out, expected);
}

#[test]
fn end_to_end_python_add_invocation() {
    let mut app = fresh_app(vec![entry("/tmp/scripts/calc.py", "calc.py", "py")]);
    let r = app.apply_load_outcome(0, Ok(Some("def add(a, b):\n    return a+b\n".to_string())));
    assert!(r.is_ok());
    assert_eq!(app.scripts[0].functions, vec!["add".to_string()]);
    app.function_input.args = vec!["2".to_string(), "3".to_string()];
    let plan = app.invoke_plan().unwrap();
    assert_eq!(plan.function, "add");
    assert_eq!(plan.qualified, "calc.py::add");
    // the integer-typed path is attempted first
    match &plan.args {
        ArgValues::Ints(v) => assert_eq!(v, &vec![2i64, 3i64]),
        ArgValues::Strs(_) => panic!("arguments should travel as integers"),
    }
    assert!(plan.number_fallback);
    let rec = app.record_invocation(plan.qualified.clone(), Ok("5".to_string()), 12);
    assert!(rec.is_ok());
    let result = app.results.last().unwrap();
    // the record keeps the literal argument strings whatever the typed path
    assert_eq!(result.args, vec!["2".to_string(), "3".to_string()]);
    assert_eq!(result.function, "calc.py::add");
    assert_eq!(result.output, "5");
    assert_eq!(result.duration_ms, 12);
    assert!(result.success);
}

#[test]
fn single_string_argument_keeps_number_fallback() {
    let mut app = app_with_loaded_script();
    app.function_input.args = vec!["hello".to_string()];
    let plan = app.invoke_plan().unwrap();
    assert!(matches!(plan.args, ArgValues::Strs(_)));
    assert!(plan.number_fallback);
}

#[test]
fn several_mixed_arguments_have_no_fallback() {
    let mut app = app_with_loaded_script();
    app.function_input.args = vec!["1".to_string(), "two".to_string()];
    let plan = app.invoke_plan().unwrap();
    assert!(matches!(plan.args, ArgValues::Strs(_)));
    assert!(!plan.number_fallback);
}

#[test]
fn duplicate_additions_get_distinct_ids() {
    let mut app = app_with_loaded_script();
    app.function_input.args = vec!["2".to_string(), "3".to_string()];
    app.add_to_pipeline();
    app.add_to_pipeline();
    assert_eq!(app.pipeline.len(), 2);
    assert_eq!(app.pipeline[0].id, "step_1");
    assert_eq!(app.pipeline[1].id, "step_2");
    assert_eq!(app.pipeline[0].script, app.pipeline[1].script);
    assert_eq!(app.pipeline[0].function, app.pipeline[1].function);
    assert_eq!(app.pipeline[0].args, app.pipeline[1].args);
    assert_eq!(app.pipeline[0].description, "add(2, 3)");
}

#[test]
fn invoke_errors_name_their_causes() {
    let mut empty = fresh_app(vec![]);
    assert_eq!(empty.invoke_plan().unwrap_err(), "No scripts available");

    let mut unloaded = fresh_app(vec![entry("/tmp/scripts/a.py", "a.py", "py")]);
    assert_eq!(
        unloaded.invoke_plan().unwrap_err(),
        "Script not loaded. Press 'l' to load first"
    );

    let mut nofuncs = fresh_app(vec![entry("/tmp/scripts/a.py", "a.py", "py")]);
    nofuncs.apply_load_outcome(0, Ok(Some("x = 1\n".to_string()))).unwrap();
    assert_eq!(nofuncs.invoke_plan().unwrap_err(), "No functions found in script");
}

#[test]
fn failed_load_keeps_script_unloaded_with_error() {
    let mut app = fresh_app(vec![entry("/tmp/scripts/a.py", "a.py", "py")]);
    let r = app.apply_load_outcome(0, Err("runtime said no".to_string()));
    assert_eq!(r.unwrap_err(), "runtime said no");
    assert!(!app.scripts[0].loaded);
    assert_eq!(app.scripts[0].error.as_deref(), Some("runtime said no"));
    assert!(app.logs.last().unwrap().message.contains("Failed to load a.py"));
}

#[test]
fn failed_invocation_is_recorded_too() {
    let mut app = app_with_loaded_script();
    let r = app.record_invocation("a.py::add".to_string(), Err("boom".to_string()), 3);
    assert_eq!(r.unwrap_err(), "boom");
    let rec = app.results.last().unwrap();
    assert!(!rec.success);
    assert_eq!(rec.output, "boom");
}

#[test]
fn replay_resolves_scripts_and_functions_by_name() {
    let mut app = app_with_loaded_script();
    app.add_to_pipeline();
    let steps = app.execute_pipeline().unwrap();
    assert_eq!(steps.len(), 1);
    let idx = app.replay_resolve_script(0, &steps[0].script).unwrap();
    assert_eq!(idx, 0);
    let (saved, found) = app.replay_enter_step(idx, &steps[0]);
    assert!(found);
    assert_eq!(app.function_input.selected_function, 0);
    app.replay_restore(saved);
    app.replay_finish(1, 5);
    assert!(app.logs.last().unwrap().message.contains("Pipeline completed: 1/1 steps in 5ms"));
}

#[test]
fn replay_skips_missing_scripts() {
    let mut app = app_with_loaded_script();
    let ghost_step = script_playground::model::PipelineStep {
        id: "step_1".to_string(),
        script: "vanished.py".to_string(),
        function: "f".to_string(),
        args: vec![],
        description: "f()".to_string(),
    };
    assert!(app.replay_resolve_script(0, &ghost_step.script).is_none());
    assert!(app.logs.last().unwrap().message.contains("Script vanished.py not found"));
}
