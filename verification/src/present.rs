//! Pure presentation selectors: the decisions the renderer makes — which tab
//! is highlighted, which icon and status mark a script gets, which keybinding
//! line a view shows, how many scripts are loaded — separated from the
//! drawing itself, which the host performs.

use vstd::prelude::*;
use crate::app::App;
use crate::model::{Script, UiView};
use crate::text::str_eq;

verus! {

/// Position of `v` among the header tabs.
pub open spec fn spec_view_tab_index(v: UiView) -> int {
    match v {
        UiView::ScriptBrowser => 0,
        UiView::FunctionTester => 1,
        UiView::PipelineBuilder => 2,
        UiView::ResultsExplorer => 3,
        UiView::Export => 4,
    }
}

/// Position of `v` among the header tabs.
pub fn view_tab_index(v: UiView) -> (r: usize)
    ensures
        r as int == spec_view_tab_index(v),
{
    match v {
        UiView::ScriptBrowser => 0,
        UiView::FunctionTester => 1,
        UiView::PipelineBuilder => 2,
        UiView::ResultsExplorer => 3,
        UiView::Export => 4,
    }
}

/// The icon shown for a language tag.
pub fn language_icon(language: &str) -> (r: &'static str)
    ensures
        language@ == "Python"@ ==> r@ == "🐍"@,
        language@ == "JavaScript"@ ==> r@ == "📜"@,
        language@ == "TypeScript"@ ==> r@ == "📘"@,
        language@ == "Ruby"@ ==> r@ == "💎"@,
{
    proof {
        reveal_strlit("Python");
        reveal_strlit("JavaScript");
        reveal_strlit("TypeScript");
        reveal_strlit("Ruby");
        assert("Python"@.len() == 6);
        assert("JavaScript"@.len() == 10);
        assert("TypeScript"@.len() == 10);
        assert("Ruby"@.len() == 4);
        assert("JavaScript"@[0] == 'J');
        assert("TypeScript"@[0] == 'T');
    }
    if str_eq(language, "Python") {
        "🐍"
    } else if str_eq(language, "JavaScript") {
        "📜"
    } else if str_eq(language, "TypeScript") {
        "📘"
    } else if str_eq(language, "Ruby") {
        "💎"
    } else {
        "📄"
    }
}

/// The status mark of a script: loaded, failed, or not yet loaded.
pub fn script_status(script: &Script) -> (r: &'static str)
    ensures
        script@.loaded ==> r@ == "✓"@,
        !script@.loaded && script@.error is Some ==> r@ == "✗"@,
        !script@.loaded && script@.error is None ==> r@ == "○"@,
{
    if script.loaded {
        "✓"
    } else if script.error.is_some() {
        "✗"
    } else {
        "○"
    }
}

/// The keybinding line shown under each view.
pub fn view_keybindings(v: UiView) -> (r: &'static str)
    ensures
        v == UiView::ScriptBrowser ==> r@
            == "↑↓: Select | l: Load | r: Reload | Tab: Next View | ?: Help | q: Quit"@,
        v == UiView::FunctionTester ==> r@
            == "↑↓: Select Function | a: Add Args | Enter: Execute | p: Add to Pipeline | Tab: Next View"@,
        v == UiView::PipelineBuilder ==> r@
            == "↑↓: Select Step | x: Execute | d: Delete | c: Clear | Tab: Next View"@,
        v == UiView::ResultsExplorer ==> r@ == "↑↓: Navigate | Tab: Next View"@,
        v == UiView::Export ==> r@ == "s: Save to File | Tab: Next View"@,
{
    match v {
        UiView::ScriptBrowser => "↑↓: Select | l: Load | r: Reload | Tab: Next View | ?: Help | q: Quit",
        UiView::FunctionTester => "↑↓: Select Function | a: Add Args | Enter: Execute | p: Add to Pipeline | Tab: Next View",
        UiView::PipelineBuilder => "↑↓: Select Step | x: Execute | d: Delete | c: Clear | Tab: Next View",
        UiView::ResultsExplorer => "↑↓: Navigate | Tab: Next View",
        UiView::Export => "s: Save to File | Tab: Next View",
    }
}

/// How many scripts of the catalog are loaded.
pub open spec fn spec_loaded_count(scripts: Seq<crate::model::ScriptV>, upto: int) -> int
    decreases upto,
{
    if upto <= 0 {
        0
    } else {
        spec_loaded_count(scripts, upto - 1) + if scripts[upto - 1].loaded {
            1int
        } else {
            0int
        }
    }
}

impl App {
    /// How many scripts of the catalog are loaded.
    #[verifier::loop_isolation(false)]
    pub fn loaded_count(&self) -> (r: usize)
        ensures
            r as int == spec_loaded_count(self@.scripts, self@.scripts.len() as int),
    {
        let mut count: usize = 0;
        let n = self.scripts.len();
        let mut i: usize = 0;
        while i < n
            invariant
                i <= n,
                count <= i,
                count as int == spec_loaded_count(self@.scripts, i as int),
            decreases n - i,
        {
            proof {
                assert(self.scripts@[i as int].deep_view() == self@.scripts[i as int]);
            }
            if self.scripts[i].loaded {
                count = count + 1;
            }
            i = i + 1;
        }
        count
    }

    /// The index into the results list for a selection counted from the most
    /// recent result.
    pub fn result_index(&self) -> (r: Option<usize>)
        ensures
            self@.results.len() > 0 && self@.selected_result < self@.results.len() ==> r
                == Some((self@.results.len() - 1 - self@.selected_result) as usize),
            !(self@.results.len() > 0 && self@.selected_result < self@.results.len()) ==> r
                is None,
    {
        if self.results.len() > 0 && self.selected_result < self.results.len() {
            Some(self.results.len() - 1 - self.selected_result)
        } else {
            None
        }
    }
}

} // verus!
