//! The exporter: serialize the current pipeline into a generated source-code
//! template — each distinct referenced script loaded exactly once, then one
//! call per step in pipeline order — followed by a structured dump of the raw
//! steps as a trailing comment block. The dump text itself is rendered by the
//! host and embedded verbatim.

use vstd::prelude::*;
use crate::app::{App, AppV, spec_is_clock};
use crate::model::{PipelineStep, PipelineStepV, Script, ScriptV};
use crate::pipeline::{lemma_find_script_characterization, spec_find_script};
use crate::text::{
    chars_of, join_strings, parse_i64, spec_digits, spec_join, spec_parse_i64, u64_to_string,
};

verus! {

// ---------------------------------------------------------------------------
// What the generated code contains
// ---------------------------------------------------------------------------

/// One argument as it appears in a generated call: an integer literal when
/// the argument reads as one, else a quoted string expression.
pub open spec fn spec_rendered_arg(a: Seq<char>) -> Seq<char> {
    if spec_parse_i64(a) is Some {
        a
    } else {
        seq!['"'] + a + "\".to_string()"@
    }
}

/// The argument list of one generated call.
pub open spec fn spec_rendered_args(args: Seq<Seq<char>>) -> Seq<char> {
    spec_join(args.map_values(|a: Seq<char>| spec_rendered_arg(a)), ", "@)
}

/// The scripts whose load statements appear, in first-occurrence order of the
/// steps that reference them: a step contributes its script when the name
/// resolves in the catalog and no earlier step already loaded it.
pub open spec fn spec_load_scripts(
    scripts: Seq<ScriptV>,
    steps: Seq<PipelineStepV>,
    loaded: Seq<Seq<char>>,
) -> Seq<ScriptV>
    decreases steps.len(),
{
    if steps.len() == 0 {
        Seq::empty()
    } else {
        let name = steps[0].script;
        if !loaded.contains(name) && spec_find_script(scripts, name) is Some {
            seq![
                scripts[spec_find_script(scripts, name)->Some_0],
            ] + spec_load_scripts(scripts, steps.drop_first(), loaded.push(name))
        } else {
            spec_load_scripts(scripts, steps.drop_first(), loaded)
        }
    }
}

/// One generated load statement.
pub open spec fn spec_load_line(s: ScriptV) -> Seq<char> {
    "    load::from_single_file(\""@ + s.runtime + "\", \""@ + s.path + "\")?;\n"@
}

/// The load statements for `list`, in order.
pub open spec fn spec_load_section(list: Seq<ScriptV>) -> Seq<char>
    decreases list.len(),
{
    if list.len() == 0 {
        Seq::empty()
    } else {
        spec_load_line(list[0]) + spec_load_section(list.drop_first())
    }
}

/// Appending one script to the list appends its load line.
pub proof fn lemma_load_section_push(list: Seq<ScriptV>, s: ScriptV)
    ensures
        spec_load_section(list.push(s)) == spec_load_section(list) + spec_load_line(s),
    decreases list.len(),
{
    let p = list.push(s);
    if list.len() == 0 {
        assert(p.drop_first() =~= Seq::<ScriptV>::empty());
        assert(spec_load_section(p) == spec_load_line(s) + spec_load_section(p.drop_first()));
        assert(Seq::<char>::empty() + spec_load_line(s) =~= spec_load_line(s) + Seq::<
            char,
        >::empty());
    } else {
        assert(p.drop_first() =~= list.drop_first().push(s));
        lemma_load_section_push(list.drop_first(), s);
        assert(spec_load_line(list[0]) + (spec_load_section(list.drop_first())
            + spec_load_line(s)) =~= (spec_load_line(list[0]) + spec_load_section(
            list.drop_first(),
        )) + spec_load_line(s));
    }
}

/// The generated block for the step numbered `num` (one-based).
pub open spec fn spec_step_block(s: PipelineStepV, num: int) -> Seq<char> {
    "    // Step "@ + spec_digits(num) + ": "@ + s.description + "\n"@ + "    let result_"@
        + spec_digits(num) + ": String = metacall(\""@ + s.function + "\", vec!["@
        + spec_rendered_args(s.args) + "])?;\n"@ + "    println!(\"Step "@ + spec_digits(num)
        + ": {}\", result_"@ + spec_digits(num) + ");\n"@ + "\n"@
}

/// The generated blocks for the steps from index `i` on.
pub open spec fn spec_step_section(steps: Seq<PipelineStepV>, i: int) -> Seq<char>
    decreases steps.len() - i,
{
    if i < 0 || i >= steps.len() {
        Seq::empty()
    } else {
        spec_step_block(steps[i], i + 1) + spec_step_section(steps, i + 1)
    }
}

/// The whole exported artifact: a dated header, generated scaffold code that
/// loads each distinct referenced script once and replays every step, and the
/// host-rendered dump of the raw steps as a trailing comment block.
pub open spec fn spec_export(app: AppV, clock: Seq<char>, dump: Seq<char>) -> Seq<char> {
    "// Generated MetaCall Pipeline\n"@ + "// Export Date: "@ + clock + "\n\n"@
        + "// === Rust Implementation ===\n"@ + "use metacall::{initialize, load, metacall};\n\n"@
        + "fn execute_pipeline() -> Result<(), String> {\n"@
        + "    let _metacall = initialize()?;\n\n"@ + spec_load_section(
        spec_load_scripts(app.scripts, app.pipeline, Seq::empty()),
    ) + "\n"@ + spec_step_section(app.pipeline, 0) + "    Ok(())\n"@ + "}\n\n"@
        + "// === JSON Configuration ===\n"@ + "/*\n"@ + dump + "\n*/\n"@
}

// ---------------------------------------------------------------------------
// Law: deduplication of load statements
// ---------------------------------------------------------------------------

/// A load section never names one script twice: the emitted scripts carry
/// pairwise distinct names, none of which was already loaded. In particular,
/// a pipeline whose steps share a script name yields exactly one load
/// statement for that script.
pub proof fn lemma_load_scripts_distinct(
    scripts: Seq<ScriptV>,
    steps: Seq<PipelineStepV>,
    loaded: Seq<Seq<char>>,
)
    ensures
        forall|i: int, j: int|
            0 <= i < j < spec_load_scripts(scripts, steps, loaded).len()
                ==> (#[trigger] spec_load_scripts(scripts, steps, loaded)[i]).name != (
            #[trigger] spec_load_scripts(scripts, steps, loaded)[j]).name,
        forall|i: int|
            0 <= i < spec_load_scripts(scripts, steps, loaded).len() ==> !loaded.contains(
                (#[trigger] spec_load_scripts(scripts, steps, loaded)[i]).name,
            ),
    decreases steps.len(),
{
    if steps.len() > 0 {
        let name = steps[0].script;
        let emitted = spec_load_scripts(scripts, steps, loaded);
        if !loaded.contains(name) && spec_find_script(scripts, name) is Some {
            let k = spec_find_script(scripts, name)->Some_0;
            lemma_find_script_resolves(scripts, name);
            let tail = spec_load_scripts(scripts, steps.drop_first(), loaded.push(name));
            lemma_load_scripts_distinct(scripts, steps.drop_first(), loaded.push(name));
            assert(forall|i: int|
                0 <= i < tail.len() ==> !loaded.push(name).contains(
                    (#[trigger] tail[i]).name,
                ));
            assert(loaded.push(name)[loaded.len() as int] == name);
            assert(forall|i: int| 0 <= i < tail.len() ==> (#[trigger] tail[i]).name != name);
            assert(forall|i: int, j: int|
                0 <= i < j < emitted.len() && i > 0 ==> (#[trigger] emitted[i]).name != (
                #[trigger] emitted[j]).name);
            assert forall|i: int|
                0 <= i < tail.len() implies !loaded.contains((#[trigger] tail[i]).name) by {
                if loaded.contains(tail[i].name) {
                    let w = choose|w: int| 0 <= w < loaded.len() && loaded[w] == tail[i].name;
                    assert(loaded.push(name)[w] == tail[i].name);
                }
            }
        } else {
            lemma_load_scripts_distinct(scripts, steps.drop_first(), loaded);
        }
    }
}

/// A name that `spec_find_script` resolves names the script it points at.
pub proof fn lemma_find_script_resolves(scripts: Seq<ScriptV>, name: Seq<char>)
    ensures
        match spec_find_script(scripts, name) {
            Some(i) => 0 <= i < scripts.len() && scripts[i].name == name,
            None => true,
        },
    decreases scripts.len(),
{
    if scripts.len() > 0 && scripts[0].name != name {
        lemma_find_script_resolves(scripts.drop_first(), name);
    }
}

// ---------------------------------------------------------------------------
// Executable exporter
// ---------------------------------------------------------------------------

/// Index of the first script named `name`.
#[verifier::loop_isolation(false)]
fn find_script(scripts: &Vec<Script>, name: &String) -> (r: Option<usize>)
    ensures
        match r {
            Some(i) => spec_find_script(scripts.deep_view(), name@) == Some(i as int) && i
                < scripts.len(),
            None => spec_find_script(scripts.deep_view(), name@) is None,
        },
{
    let ghost sdv = scripts.deep_view();
    let n = scripts.len();
    let mut i: usize = 0;
    while i < n
        invariant
            i <= n,
            forall|j: int| 0 <= j < i ==> (#[trigger] sdv[j]).name != name@,
        decreases n - i,
    {
        if scripts[i].name == *name {
            proof {
                lemma_find_script_characterization(sdv, name@, i as int);
            }
            return Some(i);
        }
        i = i + 1;
    }
    proof {
        lemma_find_script_characterization(sdv, name@, n as int);
    }
    None
}

/// Whether some string of `v` reads as `s`.
#[verifier::loop_isolation(false)]
fn contains_string(v: &Vec<String>, s: &String) -> (b: bool)
    ensures
        b == v.deep_view().contains(s@),
{
    let ghost dv = v.deep_view();
    let n = v.len();
    let mut i: usize = 0;
    while i < n
        invariant
            i <= n,
            forall|j: int| 0 <= j < i ==> dv[j] != s@,
        decreases n - i,
    {
        if v[i] == *s {
            proof {
                assert(dv[i as int] == s@);
            }
            return true;
        }
        i = i + 1;
    }
    proof {
        assert(forall|j: int| 0 <= j < dv.len() ==> dv[j] != s@);
    }
    false
}

impl App {
    /// The load statements of the export: each distinct script a step
    /// references, loaded once, in first-occurrence order.
    #[verifier::loop_isolation(false)]
    fn build_load_section(&self) -> (r: String)
        ensures
            r@ == spec_load_section(
                spec_load_scripts(self@.scripts, self@.pipeline, Seq::empty()),
            ),
    {
        let ghost appv = self@;
        let mut out = String::new();
        let mut loaded_names: Vec<String> = Vec::new();
        let ghost mut emitted: Seq<ScriptV> = Seq::empty();
        let n = self.pipeline.len();
        let mut i: usize = 0;
        proof {
            assert(appv.pipeline.skip(0) =~= appv.pipeline);
            assert(loaded_names.deep_view() =~= Seq::<Seq<char>>::empty());
            assert(out@ =~= spec_load_section(emitted));
            assert(emitted + spec_load_scripts(appv.scripts, appv.pipeline, Seq::empty())
                =~= spec_load_scripts(appv.scripts, appv.pipeline, Seq::empty()));
        }
        while i < n
            invariant
                i <= n,
                n == appv.pipeline.len(),
                out@ == spec_load_section(emitted),
                spec_load_scripts(appv.scripts, appv.pipeline, Seq::empty())
                    == emitted + spec_load_scripts(
                    appv.scripts,
                    appv.pipeline.skip(i as int),
                    loaded_names.deep_view(),
                ),
            decreases n - i,
        {
            let ghost rest = appv.pipeline.skip(i as int);
            let ghost lnames = loaded_names.deep_view();
            proof {
                assert(rest[0] == appv.pipeline[i as int]);
                assert(rest.drop_first() =~= appv.pipeline.skip(i + 1));
                assert(self.pipeline@[i as int].deep_view() == appv.pipeline[i as int]);
            }
            let already = contains_string(&loaded_names, &self.pipeline[i].script);
            if !already {
                match find_script(&self.scripts, &self.pipeline[i].script) {
                    Some(k) => {
                        out.append("    load::from_single_file(\"");
                        out.append(self.scripts[k].runtime.as_str());
                        out.append("\", \"");
                        out.append(self.scripts[k].path.as_str());
                        out.append("\")?;\n");
                        let name = self.pipeline[i].script.clone();
                        let ghost nv = name@;
                        loaded_names.push(name);
                        proof {
                            assert(loaded_names@.last().deep_view() =~= nv);
                            assert(loaded_names.deep_view() =~= lnames.push(nv));
                            let scr = appv.scripts[k as int];
                            assert(self.scripts@[k as int].deep_view() == scr);
                            lemma_load_section_push(emitted, scr);
                            assert(out@ =~= spec_load_section(emitted) + spec_load_line(scr));
                            emitted = emitted.push(scr);
                            assert(out@ == spec_load_section(emitted));
                            assert(spec_load_scripts(appv.scripts, rest, lnames) == seq![scr]
                                + spec_load_scripts(appv.scripts, rest.drop_first(), lnames.push(
                                nv,
                            )));
                            assert(emitted.drop_last().push(scr) =~= emitted);
                            assert(emitted + spec_load_scripts(
                                appv.scripts,
                                appv.pipeline.skip(i + 1),
                                loaded_names.deep_view(),
                            ) =~= emitted.drop_last() + (seq![scr] + spec_load_scripts(
                                appv.scripts,
                                appv.pipeline.skip(i + 1),
                                loaded_names.deep_view(),
                            )));
                        }
                    },
                    None => {
                        proof {
                            assert(spec_load_scripts(appv.scripts, rest, lnames)
                                == spec_load_scripts(appv.scripts, rest.drop_first(), lnames));
                        }
                    },
                }
            } else {
                proof {
                    assert(spec_load_scripts(appv.scripts, rest, lnames) == spec_load_scripts(
                        appv.scripts,
                        rest.drop_first(),
                        lnames,
                    ));
                }
            }
            i = i + 1;
        }
        proof {
            assert(appv.pipeline.skip(n as int) =~= Seq::<PipelineStepV>::empty());
            assert(spec_load_scripts(
                appv.scripts,
                Seq::<PipelineStepV>::empty(),
                loaded_names.deep_view(),
            ) =~= Seq::<ScriptV>::empty());
            assert(emitted + Seq::<ScriptV>::empty() =~= emitted);
        }
        out
    }

    /// The generated call blocks of the export, one per step in order.
    #[verifier::loop_isolation(false)]
    fn build_step_section(&self) -> (r: String)
        ensures
            r@ == spec_step_section(self@.pipeline, 0),
    {
        let ghost appv = self@;
        let mut out = String::new();
        let n = self.pipeline.len();
        let mut i: usize = 0;
        proof {
            assert(out@ + spec_step_section(appv.pipeline, 0) =~= spec_step_section(
                appv.pipeline,
                0,
            ));
        }
        while i < n
            invariant
                i <= n,
                n == appv.pipeline.len(),
                out@ + spec_step_section(appv.pipeline, i as int) == spec_step_section(
                    appv.pipeline,
                    0,
                ),
            decreases n - i,
        {
            proof {
                assert(self.pipeline@[i as int].deep_view() == appv.pipeline[i as int]);
            }
            let block = step_block(&self.pipeline[i], i + 1);
            out.append(block.as_str());
            i = i + 1;
        }
        proof {
            assert(spec_step_section(appv.pipeline, n as int) =~= Seq::<char>::empty());
            assert(out@ + Seq::<char>::empty() =~= out@);
        }
        out
    }

    /// Render the exported artifact, dated with the given clock label and
    /// carrying the host-rendered `dump` of the raw steps.
    pub fn export_with_clock(&self, clock: &str, dump: &str) -> (r: String)
        ensures
            r@ == spec_export(self@, clock@, dump@),
    {
        let mut out = "// Generated MetaCall Pipeline\n".to_owned();
        out.append("// Export Date: ");
        out.append(clock);
        out.append("\n\n");
        out.append("// === Rust Implementation ===\n");
        out.append("use metacall::{initialize, load, metacall};\n\n");
        out.append("fn execute_pipeline() -> Result<(), String> {\n");
        out.append("    let _metacall = initialize()?;\n\n");
        let loads = self.build_load_section();
        out.append(loads.as_str());
        out.append("\n");
        let steps = self.build_step_section();
        out.append(steps.as_str());
        out.append("    Ok(())\n");
        out.append("}\n\n");
        out.append("// === JSON Configuration ===\n");
        out.append("/*\n");
        out.append(dump);
        out.append("\n*/\n");
        proof {
            assert(out@ =~= spec_export(self@, clock@, dump@));
        }
        out
    }

    /// Render the exported artifact, dated at this moment.
    pub fn export_pipeline(&self, dump: &str) -> (r: String)
        ensures
            exists|ts: Seq<char>|
                #[trigger] spec_is_clock(ts) && r@ == spec_export(self@, ts, dump@),
    {
        let clock = Self::timestamp();
        let r = self.export_with_clock(clock.as_str(), dump);
        proof {
            assert(spec_is_clock(clock@) && r@ == spec_export(self@, clock@, dump@));
        }
        r
    }
}

/// The generated block for one step, numbered one-based.
fn step_block(step: &PipelineStep, num: usize) -> (r: String)
    requires
        num >= 1,
    ensures
        r@ == spec_step_block(step@, num as int),
{
    let digits = u64_to_string(num as u64);
    let mut out = "    // Step ".to_owned();
    out.append(digits.as_str());
    out.append(": ");
    out.append(step.description.as_str());
    out.append("\n");
    out.append("    let result_");
    out.append(digits.as_str());
    out.append(": String = metacall(\"");
    out.append(step.function.as_str());
    out.append("\", vec![");
    let rendered = render_args(&step.args);
    out.append(rendered.as_str());
    out.append("])?;\n");
    out.append("    println!(\"Step ");
    out.append(digits.as_str());
    out.append(": {}\", result_");
    out.append(digits.as_str());
    out.append(");\n");
    out.append("\n");
    proof {
        assert(out@ =~= spec_step_block(step@, num as int));
    }
    out
}

/// Render an argument list for a generated call.
#[verifier::loop_isolation(false)]
fn render_args(args: &Vec<String>) -> (r: String)
    ensures
        r@ == spec_rendered_args(args.deep_view()),
{
    proof {
        crate::text::lemma_strings_deep_view(*args);
    }
    let mut rendered: Vec<String> = Vec::new();
    let n = args.len();
    let mut i: usize = 0;
    while i < n
        invariant
            i <= n,
            rendered.deep_view() == args.deep_view().take(i as int).map_values(
                |a: Seq<char>| spec_rendered_arg(a),
            ),
        decreases n - i,
    {
        let cs = chars_of(args[i].as_str());
        let piece = match parse_i64(&cs) {
            Some(_) => args[i].clone(),
            None => {
                let mut q = "\"".to_owned();
                q.append(args[i].as_str());
                q.append("\".to_string()");
                q
            },
        };
        proof {
            reveal_strlit("\"");
            assert(piece@ =~= spec_rendered_arg(args@[i as int]@));
        }
        let ghost pv = piece@;
        rendered.push(piece);
        proof {
            assert(rendered@.last().deep_view() =~= pv);
            let dv = args.deep_view();
            assert(rendered.deep_view() =~= dv.take(i as int).map_values(
                |a: Seq<char>| spec_rendered_arg(a),
            ).push(pv));
            assert(dv.take(i as int).map_values(|a: Seq<char>| spec_rendered_arg(a)).push(
                spec_rendered_arg(dv[i as int]),
            ) =~= dv.take(i + 1).map_values(|a: Seq<char>| spec_rendered_arg(a)));
        }
        i = i + 1;
    }
    proof {
        assert(args.deep_view().take(n as int) =~= args.deep_view());
    }
    join_strings(&rendered, ", ")
}

} // verus!
