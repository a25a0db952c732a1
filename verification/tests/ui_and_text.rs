use script_playground::app::{clock_label, App, FileEntry};
use script_playground::input::{Action, Key};
use script_playground::model::{InputMode, UiView};
use script_playground::present::{language_icon, view_keybindings, view_tab_index};
use script_playground::text::{chars_of, parse_i64, string_from_chars, u64_to_string};

fn fresh() -> App {
    App::new("/root".to_string(), &vec![])
}

#[test]
fn view_ring_cycles_forward_and_back() {
    let mut app = fresh();
    assert_eq!(app.current_view, UiView::ScriptBrowser);
    app.next_view();
    assert_eq!(app.current_view, UiView::FunctionTester);
    app.next_view();
    app.next_view();
    app.next_view();
    assert_eq!(app.current_view, UiView::Export);
    app.next_view();
    assert_eq!(app.current_view, UiView::ScriptBrowser);
    app.prev_view();
    assert_eq!(app.current_view, UiView::Export);
}

#[test]
fn quit_and_help_work_everywhere() {
    let mut app = fresh();
    assert!(matches!(app.handle_input(Key::Char('q')), Action::Quit));
    app.handle_input(Key::Char('?'));
    assert!(app.show_help);
    // the overlay swallows the next keystroke, whatever it is
    let action = app.handle_input(Key::Char('q'));
    assert!(matches!(action, Action::Nothing));
    assert!(!app.show_help);
}

#[test]
fn tab_cycles_views_from_input() {
    let mut app = fresh();
    app.handle_input(Key::Tab);
    assert_eq!(app.current_view, UiView::FunctionTester);
    app.handle_input(Key::BackTab);
    assert_eq!(app.current_view, UiView::ScriptBrowser);
}

#[test]
fn argument_entry_captures_text() {
    let mut app = fresh();
    app.current_view = UiView::FunctionTester;
    app.handle_input(Key::Char('a'));
    assert_eq!(app.input_mode, InputMode::EditingArgs);
    app.handle_input(Key::Char('4'));
    app.handle_input(Key::Char('7'));
    app.handle_input(Key::Backspace);
    app.handle_input(Key::Char('2'));
    app.handle_input(Key::Enter);
    assert_eq!(app.input_mode, InputMode::Normal);
    assert_eq!(app.function_input.args, vec!["42".to_string()]);
    // escape discards the buffer
    app.handle_input(Key::Char('a'));
    app.handle_input(Key::Char('x'));
    app.handle_input(Key::Esc);
    assert_eq!(app.function_input.args, vec!["42".to_string()]);
    assert!(app.input_buffer.is_empty());
}

#[test]
fn clearing_arguments_logs_it() {
    let mut app = fresh();
    app.current_view = UiView::FunctionTester;
    app.function_input.args = vec!["1".to_string()];
    app.handle_input(Key::Char('c'));
    assert!(app.function_input.args.is_empty());
    assert_eq!(app.logs.last().unwrap().message, "Arguments cleared");
}

#[test]
fn export_filename_entry_confirms_with_extension() {
    let mut app = fresh();
    app.current_view = UiView::Export;
    app.handle_input(Key::Char('s'));
    assert_eq!(app.input_mode, InputMode::ExportName);
    assert_eq!(app.input_buffer, "pipeline");
    let action = app.handle_input(Key::Enter);
    match action {
        Action::SaveExport(name) => assert_eq!(name, "pipeline.rs"),
        _ => panic!("expected a save action"),
    }
    assert_eq!(app.input_mode, InputMode::Normal);
    assert!(app.input_buffer.is_empty());
}

#[test]
fn browser_keys_ask_the_host_for_outside_work() {
    let mut app = App::new(
        "/r".to_string(),
        &vec![FileEntry {
            path: "/r/a.py".to_string(),
            name: "a.py".to_string(),
            extension: "py".to_string(),
        }],
    );
    assert!(matches!(app.handle_input(Key::Char('l')), Action::LoadSelected));
    assert!(matches!(app.handle_input(Key::Char('r')), Action::Rescan));
    let mut empty = fresh();
    assert!(matches!(empty.handle_input(Key::Char('l')), Action::Nothing));
}

#[test]
fn selection_keys_stay_in_bounds() {
    let mut app = App::new(
        "/r".to_string(),
        &vec![
            FileEntry {
                path: "/r/a.py".to_string(),
                name: "a.py".to_string(),
                extension: "py".to_string(),
            },
            FileEntry {
                path: "/r/b.py".to_string(),
                name: "b.py".to_string(),
                extension: "py".to_string(),
            },
        ],
    );
    app.handle_input(Key::Up);
    assert_eq!(app.selected_script, 0);
    app.handle_input(Key::Down);
    assert_eq!(app.selected_script, 1);
    app.handle_input(Key::Down);
    assert_eq!(app.selected_script, 1);
}

#[test]
fn parse_i64_accepts_signs_and_rejects_junk() {
    let p = |s: &str| parse_i64(&chars_of(s));
    assert_eq!(p("0"), Some(0));
    assert_eq!(p("42"), Some(42));
    assert_eq!(p("+7"), Some(7));
    assert_eq!(p("-13"), Some(-13));
    assert_eq!(p("007"), Some(7));
    assert_eq!(p(""), None);
    assert_eq!(p("-"), None);
    assert_eq!(p("12a"), None);
    assert_eq!(p(" 12"), None);
    assert_eq!(p("9223372036854775807"), Some(i64::MAX));
    assert_eq!(p("9223372036854775808"), None);
    assert_eq!(p("-9223372036854775808"), Some(i64::MIN));
    assert_eq!(p("-9223372036854775809"), None);
    assert_eq!(p("99999999999999999999999"), None);
}

#[test]
fn decimal_rendering_is_exact() {
    assert_eq!(u64_to_string(0), "0");
    assert_eq!(u64_to_string(9), "9");
    assert_eq!(u64_to_string(12345), "12345");
    assert_eq!(u64_to_string(u64::MAX), "18446744073709551615");
}

#[test]
fn clock_labels_are_zero_padded() {
    assert_eq!(clock_label(0), "00:00:00");
    assert_eq!(clock_label(86399), "23:59:59");
    assert_eq!(clock_label(86400 + 3661), "01:01:01");
    let ts = App::timestamp();
    assert_eq!(ts.chars().count(), 8);
}

#[test]
fn strings_rebuild_from_their_characters() {
    let v = chars_of("naïve 字");
    assert_eq!(string_from_chars(&v), "naïve 字");
    assert_eq!(chars_of(""), Vec::<char>::new());
}

#[test]
fn presentation_selectors_match_the_views() {
    assert_eq!(view_tab_index(UiView::ScriptBrowser), 0);
    assert_eq!(view_tab_index(UiView::Export), 4);
    assert_eq!(language_icon("Python"), "🐍");
    assert_eq!(language_icon("Fortran"), "📄");
    assert!(view_keybindings(UiView::PipelineBuilder).contains("x: Execute"));
}

#[test]
fn load_begin_validates_the_index() {
    let mut app = fresh();
    assert_eq!(app.load_begin(0).unwrap_err(), "Invalid script index");
    let mut app2 = App::new(
        "/r".to_string(),
        &vec![FileEntry {
            path: "/r/a.py".to_string(),
            name: "a.py".to_string(),
            extension: "py".to_string(),
        }],
    );
    let req = app2.load_begin(0).unwrap();
    assert_eq!(req.runtime, "py");
    assert_eq!(req.path, "/r/a.py");
    assert_eq!(req.language, "Python");
    assert!(app2.logs.last().unwrap().message.contains("Loading a.py..."));
}
