//! The function-name extractor: a heuristic, line-oriented scanner that
//! guesses probable top-level function names from raw source text, keyed by a
//! language tag. It is deliberately not a parser; nested definitions are
//! captured too, and nothing is deduplicated.

use vstd::prelude::*;
use crate::text::{
    chars_of, contains_sub, first_token, has_prefix, spec_contains_seq, spec_first_token,
    spec_has_prefix, spec_lines, spec_take_before, spec_trim, split_lines, string_from_chars,
    take_before, trimmed, vec_subrange,
};

verus! {

/// The probable function name declared on `line`, under the rules of
/// `language`; `None` when the line declares none.
///
/// Python-like: a trimmed line starting with `def ` names the text up to the
/// first parenthesis, except names starting with an underscore. C-family:
/// either `function name(...)`, or a `const`/`let` binding whose right-hand
/// side looks like a function expression, naming the binding. Ruby-like:
/// `def ` followed by the first whitespace-delimited token before any
/// parenthesis. Any other tag declares nothing.
pub open spec fn spec_line_name(line: Seq<char>, language: Seq<char>) -> Option<Seq<char>> {
    let t = spec_trim(line);
    if language == "Python"@ {
        if spec_has_prefix(t, "def "@) && !spec_has_prefix(t, "def _"@) {
            Some(spec_take_before(t.skip(4), '('))
        } else {
            None
        }
    } else if language == "JavaScript"@ || language == "TypeScript"@ {
        if spec_has_prefix(t, "function "@) {
            Some(spec_take_before(t.skip(9), '('))
        } else if (spec_has_prefix(t, "const "@) || spec_has_prefix(t, "let "@))
            && spec_contains_seq(t, " = "@) && (spec_contains_seq(t, "=>"@)
            || spec_contains_seq(t, "function"@)) {
            let rest = if spec_has_prefix(t, "const "@) {
                t.skip(6)
            } else {
                t.skip(4)
            };
            Some(spec_trim(spec_take_before(spec_first_token(rest), '=')))
        } else {
            None
        }
    } else if language == "Ruby"@ {
        if spec_has_prefix(t, "def "@) {
            Some(spec_first_token(spec_take_before(t.skip(4), '(')))
        } else {
            None
        }
    } else {
        None
    }
}

/// The names contributed by each line of `lines`, in order.
pub open spec fn spec_collect_names(lines: Seq<Seq<char>>, language: Seq<char>) -> Seq<
    Seq<char>,
>
    decreases lines.len(),
{
    if lines.len() == 0 {
        Seq::empty()
    } else {
        (match spec_line_name(lines[0], language) {
            Some(n) => seq![n],
            None => Seq::empty(),
        }) + spec_collect_names(lines.drop_first(), language)
    }
}

/// The probable function names of `content` under `language`: the names its
/// lines declare, in line order.
pub open spec fn spec_extract(content: Seq<char>, language: Seq<char>) -> Seq<Seq<char>> {
    spec_collect_names(spec_lines(content), language)
}

/// Extraction is pure and deterministic: the names depend on the source text
/// and the language tag alone, so equal inputs always yield the same ordered
/// list.
pub proof fn lemma_extract_deterministic(
    text1: Seq<char>,
    language1: Seq<char>,
    text2: Seq<char>,
    language2: Seq<char>,
)
    requires
        text1 == text2,
        language1 == language2,
    ensures
        spec_extract(text1, language1) == spec_extract(text2, language2),
{
}

/// A language tag outside the recognized set never yields a name.
///
/// Law: for every source text, extraction under an unrecognized language tag
/// returns the empty list.
pub proof fn lemma_extract_unknown_language(content: Seq<char>, language: Seq<char>)
    requires
        language != "Python"@,
        language != "JavaScript"@,
        language != "TypeScript"@,
        language != "Ruby"@,
    ensures
        spec_extract(content, language) == Seq::<Seq<char>>::empty(),
{
    lemma_collect_unknown_language(spec_lines(content), language);
}

proof fn lemma_collect_unknown_language(lines: Seq<Seq<char>>, language: Seq<char>)
    requires
        language != "Python"@,
        language != "JavaScript"@,
        language != "TypeScript"@,
        language != "Ruby"@,
    ensures
        spec_collect_names(lines, language) == Seq::<Seq<char>>::empty(),
    decreases lines.len(),
{
    if lines.len() > 0 {
        lemma_collect_unknown_language(lines.drop_first(), language);
        assert(spec_collect_names(lines, language) =~= Seq::<Seq<char>>::empty());
    }
}

/// Executable form of `spec_line_name`.
#[verifier::loop_isolation(false)]
pub fn line_name(line: &Vec<char>, language: &str) -> (r: Option<String>)
    ensures
        match r {
            Some(n) => spec_line_name(line@, language@) == Some(n@),
            None => spec_line_name(line@, language@) is None,
        },
{
    let t = trimmed(line);
    if crate::text::str_eq(language, "Python") {
        if has_prefix(&t, "def ") && !has_prefix(&t, "def _") {
            proof {
                reveal_strlit("def ");
            }
            let rest = vec_subrange(&t, 4, t.len());
            proof {
                assert(rest@ =~= spec_trim(line@).skip(4));
            }
            let name = take_before(&rest, '(');
            Some(string_from_chars(&name))
        } else {
            None
        }
    } else if crate::text::str_eq(language, "JavaScript") || crate::text::str_eq(
        language,
        "TypeScript",
    ) {
        if has_prefix(&t, "function ") {
            proof {
                reveal_strlit("function ");
            }
            let rest = vec_subrange(&t, 9, t.len());
            proof {
                assert(rest@ =~= spec_trim(line@).skip(9));
            }
            let name = take_before(&rest, '(');
            Some(string_from_chars(&name))
        } else {
            let is_const = has_prefix(&t, "const ");
            let is_let = has_prefix(&t, "let ");
            if (is_const || is_let) && contains_sub(&t, " = ") && (contains_sub(&t, "=>")
                || contains_sub(&t, "function")) {
                proof {
                    reveal_strlit("const ");
                    reveal_strlit("let ");
                }
                let rest = if is_const {
                    vec_subrange(&t, 6, t.len())
                } else {
                    vec_subrange(&t, 4, t.len())
                };
                proof {
                    if is_const {
                        assert(rest@ =~= spec_trim(line@).skip(6));
                    } else {
                        assert(rest@ =~= spec_trim(line@).skip(4));
                    }
                }
                let tok = first_token(&rest);
                let piece = take_before(&tok, '=');
                let name = trimmed(&piece);
                Some(string_from_chars(&name))
            } else {
                None
            }
        }
    } else if crate::text::str_eq(language, "Ruby") {
        if has_prefix(&t, "def ") {
            proof {
                reveal_strlit("def ");
            }
            let rest = vec_subrange(&t, 4, t.len());
            proof {
                assert(rest@ =~= spec_trim(line@).skip(4));
            }
            let before = take_before(&rest, '(');
            let name = first_token(&before);
            Some(string_from_chars(&name))
        } else {
            None
        }
    } else {
        None
    }
}

/// Extract the probable function names of `content` under `language`.
#[verifier::loop_isolation(false)]
pub fn extract_names(content: &str, language: &str) -> (r: Vec<String>)
    ensures
        r.deep_view() == spec_extract(content@, language@),
{
    let chars = chars_of(content);
    let lines = split_lines(&chars);
    let ghost lines_dv = lines.deep_view();
    let mut r: Vec<String> = Vec::new();
    let n = lines.len();
    proof {
        assert(lines_dv.len() == lines@.len());
        assert(lines_dv.skip(0) =~= lines_dv);
        assert(r.deep_view() + spec_collect_names(lines_dv, language@) =~= spec_collect_names(
            lines_dv,
            language@,
        ));
    }
    let mut i: usize = 0;
    while i < n
        invariant
            i <= n,
            spec_extract(content@, language@) == r.deep_view() + spec_collect_names(
                lines_dv.skip(i as int),
                language@,
            ),
        decreases n - i,
    {
        let ghost r_old = r.deep_view();
        let ghost rest = lines_dv.skip(i as int);
        proof {
            assert(lines@[i as int].deep_view() == lines_dv[i as int]);
            assert(lines@[i as int].deep_view() =~= lines@[i as int]@);
            assert(rest[0] == lines_dv[i as int]);
            assert(rest.drop_first() =~= lines_dv.skip(i + 1));
        }
        match line_name(&lines[i], language) {
            Some(name) => {
                let ghost nv = name@;
                r.push(name);
                proof {
                    assert(r@.last().deep_view() =~= nv);
                    assert(r.deep_view() =~= r_old.push(nv));
                    assert(spec_collect_names(rest, language@) == seq![nv]
                        + spec_collect_names(lines_dv.skip(i + 1), language@));
                    assert(r_old.push(nv) + spec_collect_names(lines_dv.skip(i + 1), language@)
                        =~= r_old + (seq![nv] + spec_collect_names(
                        lines_dv.skip(i + 1),
                        language@,
                    )));
                }
            },
            None => {
                proof {
                    assert(spec_collect_names(rest, language@) == Seq::<Seq<char>>::empty()
                        + spec_collect_names(lines_dv.skip(i + 1), language@));
                    assert(r_old + (Seq::<Seq<char>>::empty() + spec_collect_names(
                        lines_dv.skip(i + 1),
                        language@,
                    )) =~= r_old + spec_collect_names(lines_dv.skip(i + 1), language@));
                }
            },
        }
        i = i + 1;
    }
    proof {
        assert(lines_dv.skip(n as int) =~= Seq::<Seq<char>>::empty());
        assert(r.deep_view() + spec_collect_names(
            Seq::<Seq<char>>::empty(),
            language@,
        ) =~= r.deep_view());
    }
    r
}

} // verus!
