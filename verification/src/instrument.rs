//! Statement instrumentation and rendering.
//!
//! The code buffer is rendered into one compilable program: the whole buffer
//! is wrapped in a `main` body, each line is re-indented by re-scanning brace
//! depth from the top, and the final line is rewritten so that its effect
//! becomes printed output — a temporary binding whose debug form is printed,
//! an acknowledgment of an import, the debug form of an assigned name, or an
//! echo of the signature of a declaration whose scope just closed.

use vstd::prelude::*;
use vstd::string::*;

use crate::text::{
    find_char_at, first_token, is_space_char, last_char, last_char_or, last_token, scan_find_char,
    scan_skip_spaces, scan_token_end, scan_token_start, scan_trim_end, second_token,
    spec_starts_with, str_eq, str_starts_with, lemma_skip_spaces, lemma_skip_spaces_bounded,
    lemma_trim_end,
};

verus! {

/// Whether the instrumenter can rewrite `l` as a final line: a line ending
/// in `;` that contains `=` must have a token before the first `=` to name
/// in the printed acknowledgment.
pub open spec fn adjustable(l: Seq<char>) -> bool {
    last_char_or(l, ' ') == ';' && find_char_at(l, '=', 0) is Some ==> last_token(
        l.take(find_char_at(l, '=', 0).unwrap()),
    ) is Some
}

/// The opening line of a scope with its trailing character removed: the
/// declaration signature echoed when the scope closes.
pub open spec fn scope_head(scope: Seq<char>) -> Seq<char> {
    if scope.len() > 0 {
        scope.take(scope.len() - 1)
    } else {
        scope
    }
}

/// Whether `scope` opens with one of the declaration keywords whose
/// signature is echoed instead of a value.
pub open spec fn is_declaration_opener(scope: Seq<char>) -> bool {
    spec_starts_with(scope, "fn "@) || spec_starts_with(scope, "impl "@) || spec_starts_with(
        scope,
        "trait "@,
    ) || spec_starts_with(scope, "struct "@)
}

/// The final buffered line `l` rewritten so its effect is printed, given the
/// opening line `scope` of the scope it stands in:
/// - ends in `;`, holds a `=`: the line, then a print of the debug form of
///   the last token before the first `=`;
/// - ends in `;`, starts with the token `use`: the line, then a print of a
///   fixed acknowledgment naming the second token;
/// - ends in `;` otherwise: the line bound to a temporary, then a print of
///   the temporary's debug form;
/// - otherwise, when `scope` opens a declaration: a closing brace, then a
///   print of the opener minus its trailing brace;
/// - otherwise: the line unchanged.
pub open spec fn spec_adjust(l: Seq<char>, scope: Seq<char>) -> Seq<char> {
    let lc = last_char_or(l, ' ');
    if lc == ';' {
        match find_char_at(l, '=', 0) {
            Option::Some(e) => ((l + "\n\tprint!(\"{:?}\", "@) + last_token(
                l.take(e),
            ).unwrap()) + ");"@,
            Option::None => {
                if first_token(l) == Option::Some("use"@) {
                    ((l + "\nprint!(\"Using "@) + second_token(l).unwrap()) + "\");"@
                } else {
                    ("let __ares_tmp = "@ + l) + "\n\tprint!(\"{:?}\", __ares_tmp);"@
                }
            },
        }
    } else if is_declaration_opener(scope) {
        ("}\n\tprint!(\""@ + scope_head(scope)) + "\");"@
    } else {
        l
    }
}

/// Whether the instrumenter accepts `l` as a final line; the surrounding
/// program checks this before asking for a rendering.
pub fn line_adjustable(l: &str) -> (r: bool)
    ensures
        r == adjustable(l@),
{
    let lc = last_char(l);
    if lc != ';' {
        return true;
    }
    match scan_find_char(l, '=', 0) {
        Option::None => true,
        Option::Some(e) => {
            let prefix = l.substring_char(0, e);
            let te = scan_trim_end(prefix, e);
            proof {
                assert(prefix@ =~= l@.take(e as int));
            }
            te > 0
        },
    }
}

/// Rewrites the final buffered line `l`, in the scope opened by `scope`, so
/// that its effect becomes printed output.
pub fn adjust_last_line(l: &str, scope: &str) -> (r: String)
    requires
        adjustable(l@),
    ensures
        r@ == spec_adjust(l@, scope@),
{
    let n: usize = l.unicode_len();
    let lc = last_char(l);
    if lc == ';' {
        match scan_find_char(l, '=', 0) {
            Option::Some(e) => {
                let prefix = l.substring_char(0, e);
                proof {
                    assert(prefix@ =~= l@.take(e as int));
                }
                let te = scan_trim_end(prefix, e);
                let ts = scan_token_start(prefix, te);
                proof {
                    lemma_trim_end(prefix@, e as int);
                }
                let name = prefix.substring_char(ts, te);
                proof {
                    assert(last_token(prefix@) == Option::Some(name@));
                }
                let mut out = String::from_str(l);
                out.append("\n\tprint!(\"{:?}\", ");
                out.append(name);
                out.append(");");
                out
            },
            Option::None => {
                proof {
                    assert(l@[n - 1] == ';');
                    assert(!is_space_char(l@[n - 1]));
                    lemma_skip_spaces_bounded(l@, 0, n - 1);
                    lemma_skip_spaces(l@, 0);
                }
                let b = scan_skip_spaces(l, 0);
                let e1 = scan_token_end(l, b);
                let tok = l.substring_char(b, e1);
                if str_eq(tok, "use") {
                    proof {
                        reveal_strlit("use");
                        assert("use"@.len() == 3);
                        assert(tok@ == "use"@);
                        assert(l@.subrange(b as int, e1 as int).len() == e1 - b);
                        assert(e1 - b == 3);
                        if e1 == n {
                            assert(l@[n - 1] == tok@[2]);
                        }
                        assert(e1 < n);
                        lemma_skip_spaces_bounded(l@, e1 as int, n - 1);
                        lemma_skip_spaces(l@, e1 as int);
                    }
                    let b2 = scan_skip_spaces(l, e1);
                    let e2 = scan_token_end(l, b2);
                    let used = l.substring_char(b2, e2);
                    proof {
                        assert(second_token(l@) == Option::Some(used@));
                    }
                    let mut out = String::from_str(l);
                    out.append("\nprint!(\"Using ");
                    out.append(used);
                    out.append("\");");
                    out
                } else {
                    proof {
                        assert(first_token(l@) == Option::Some(tok@));
                    }
                    let mut out = String::from_str("let __ares_tmp = ");
                    out.append(l);
                    out.append("\n\tprint!(\"{:?}\", __ares_tmp);");
                    out
                }
            },
        }
    } else if str_starts_with(scope, "fn ") || str_starts_with(scope, "impl ") || str_starts_with(
        scope,
        "trait ",
    ) || str_starts_with(scope, "struct ") {
        let m: usize = scope.unicode_len();
        let head: &str = if m > 0 {
            scope.substring_char(0, m - 1)
        } else {
            scope
        };
        proof {
            assert(head@ =~= scope_head(scope@));
        }
        let mut out = String::from_str("}\n\tprint!(\"");
        out.append(head);
        out.append("\");");
        out
    } else {
        String::from_str(l)
    }
}

/// A run of `k` tab characters.
pub open spec fn tabs(k: nat) -> Seq<char>
    decreases k,
{
    if k == 0 {
        Seq::empty()
    } else {
        tabs((k - 1) as nat).push('\t')
    }
}

/// Builds a run of `k` tab characters.
fn make_tabs(k: usize) -> (r: String)
    ensures
        r@ == tabs(k as nat),
    decreases k,
{
    if k == 0 {
        String::new()
    } else {
        let mut s = make_tabs(k - 1);
        s.append("\t");
        proof {
            reveal_strlit("\t");
            assert(s@ =~= tabs(k as nat));
        }
        s
    }
}

/// The body of the rendered program from line `i` on: each line indented by
/// one tab per enclosing scope (plus one for the `main` wrapper, floored at
/// none), the final line rewritten by the instrumenter, with `indent` open
/// scopes so far and `scope` the opening line of the outermost one.
pub open spec fn render_body(lines: Seq<Seq<char>>, i: int, indent: int, scope: Seq<char>) -> Seq<
    char,
>
    decreases lines.len() - i,
{
    if i < 0 || i >= lines.len() {
        Seq::empty()
    } else {
        let l = lines[i];
        let lc = last_char_or(l, ' ');
        let scope1 = if lc == '{' && indent == 0 {
            l
        } else {
            scope
        };
        let l1 = if i == lines.len() - 1 {
            spec_adjust(l, scope1)
        } else {
            l
        };
        let indent1 = if lc == '}' {
            indent - 1
        } else {
            indent
        };
        let t = if indent1 + 1 >= 0 {
            (indent1 + 1) as nat
        } else {
            0
        };
        let indent2 = if lc == '{' {
            indent1 + 1
        } else {
            indent1
        };
        (((tabs(t) + l1) + "\n"@) + render_body(lines, i + 1, indent2, scope1))
    }
}

/// The whole rendered program: the buffer wrapped in a `main` body, with the
/// final line instrumented.
pub open spec fn spec_render(lines: Seq<Seq<char>>) -> Seq<char> {
    ("fn main() {\n"@ + render_body(lines, 0, 0, lines[0])) + "}"@
}

/// The buffer that `lines.take(n)` followed by `last` denotes.
pub open spec fn staged_lines(lines: Seq<Seq<char>>, n: int, last: Seq<char>) -> Seq<Seq<char>> {
    lines.take(n).push(last)
}

/// Renders the body for the buffer made of the first `n` entries of `lines`
/// followed by `last`, starting at entry `i`.
fn render_body_exec(
    lines: &Vec<String>,
    n: usize,
    last: &String,
    i: usize,
    indent: i64,
    scope: &str,
) -> (r: String)
    requires
        n <= lines@.len(),
        i <= n,
        n < 0x40000000,
        -(i as int) <= indent as int <= i as int,
        adjustable(last@),
    ensures
        r@ == render_body(
            staged_lines(lines.deep_view(), n as int, last@),
            i as int,
            indent as int,
            scope@,
        ),
    decreases n - i,
{
    let ghost fullv = staged_lines(lines.deep_view(), n as int, last@);
    proof {
        assert(fullv.len() == n + 1);
    }
    let l: &str = if i == n {
        last.as_str()
    } else {
        lines[i].as_str()
    };
    proof {
        if i < n {
            assert(fullv[i as int] == lines.deep_view()[i as int]);
        }
        assert(fullv[i as int] == l@);
    }
    let lc = last_char(l);
    let scope1: &str = if lc == '{' && indent == 0 {
        l
    } else {
        scope
    };
    let indent1: i64 = if lc == '}' {
        indent - 1
    } else {
        indent
    };
    let t: usize = if indent1 + 1 >= 0 {
        proof {
            assert(indent1 + 1 <= i + 1 < 0x40000001);
        }
        (indent1 + 1) as usize
    } else {
        0
    };
    let mut out = make_tabs(t);
    if i == n {
        let adj = adjust_last_line(l, scope1);
        out.append(adj.as_str());
    } else {
        out.append(l);
    }
    out.append("\n");
    let indent2: i64 = if lc == '{' {
        indent1 + 1
    } else {
        indent1
    };
    if i < n {
        let rest = render_body_exec(lines, n, last, i + 1, indent2, scope1);
        out.append(rest.as_str());
    } else {
        proof {
            assert(render_body(fullv, i + 1, indent2 as int, scope1@) =~= Seq::<char>::empty());
            assert(out@ + Seq::<char>::empty() =~= out@);
        }
    }
    out
}

/// Renders the program for the buffer made of the first `n` entries of
/// `lines` followed by `last`.
pub fn render_staged(lines: &Vec<String>, n: usize, last: &String) -> (r: String)
    requires
        n <= lines@.len(),
        n < 0x40000000,
        adjustable(last@),
    ensures
        r@ == spec_render(staged_lines(lines.deep_view(), n as int, last@)),
{
    let ghost fullv = staged_lines(lines.deep_view(), n as int, last@);
    let scope0: &str = if n > 0 {
        lines[0].as_str()
    } else {
        last.as_str()
    };
    proof {
        if n > 0 {
            assert(fullv[0] == lines.deep_view()[0]);
        }
        assert(fullv[0] == scope0@);
    }
    let body = render_body_exec(lines, n, last, 0, 0, scope0);
    let mut out = String::from_str("fn main() {\n");
    out.append(body.as_str());
    out.append("}");
    out
}

} // verus!
