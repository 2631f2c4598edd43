use ares::instrument::{adjust_last_line, line_adjustable};
use ares::runner::{extract_diagnostic, RunReport, Runner, RunnerError};
use ares::session::{Ares, Classification, PromptSuffix, ReplError};

fn runner_with(lines: &[&str]) -> Runner {
    let mut r = Runner::new();
    for l in lines {
        r.push_line((*l).to_string());
    }
    r
}

#[test]
fn new_runner_is_empty() {
    let r = Runner::new();
    assert_eq!(r.loc(), 0);
    assert!(r.code_lines.is_empty());
}

#[test]
fn loc_counts_buffered_lines() {
    let r = runner_with(&["fn f() {", "}"]);
    assert_eq!(r.loc(), 2);
}

#[test]
fn render_wraps_expression_statement_in_debug_print() {
    let r = runner_with(&[]);
    let rendered = r.render_with(&"5;".to_string());
    assert_eq!(
        rendered,
        "fn main() {\n\tlet __ares_tmp = 5;\n\tprint!(\"{:?}\", __ares_tmp);\n}"
    );
}

#[test]
fn render_prints_bound_name_of_assignment() {
    let r = runner_with(&[]);
    let rendered = r.render_with(&"let x = 5;".to_string());
    assert_eq!(
        rendered,
        "fn main() {\n\tlet x = 5;\n\tprint!(\"{:?}\", x);\n}"
    );
}

#[test]
fn render_acknowledges_import() {
    let r = runner_with(&[]);
    let rendered = r.render_with(&"use std::collections::HashMap;".to_string());
    assert_eq!(
        rendered,
        "fn main() {\n\tuse std::collections::HashMap;\nprint!(\"Using std::collections::HashMap;\");\n}"
    );
}

#[test]
fn render_echoes_declaration_signature_on_scope_close() {
    let r = runner_with(&["fn add(a: i32, b: i32) -> i32 {", "a + b"]);
    let rendered = r.render_with(&"}".to_string());
    assert_eq!(
        rendered,
        "fn main() {\n\tfn add(a: i32, b: i32) -> i32 {\n\t\ta + b\n\t}\n\tprint!(\"fn add(a: i32, b: i32) -> i32 \");\n}"
    );
}

#[test]
fn render_splits_at_first_equals_sign() {
    let r = runner_with(&[]);
    let rendered = r.render_with(&"let eq = a == b;".to_string());
    assert_eq!(
        rendered,
        "fn main() {\n\tlet eq = a == b;\n\tprint!(\"{:?}\", eq);\n}"
    );
}

#[test]
fn render_acknowledges_import_after_extra_spaces() {
    let r = runner_with(&[]);
    let rendered = r.render_with(&"use   foo;".to_string());
    assert_eq!(
        rendered,
        "fn main() {\n\tuse   foo;\nprint!(\"Using foo;\");\n}"
    );
}

#[test]
fn render_tolerates_stray_close_brace() {
    let r = runner_with(&[]);
    let rendered = r.render_with(&"}".to_string());
    assert_eq!(rendered, "fn main() {\n}\n}");
}

#[test]
fn render_leaves_plain_scope_close_alone() {
    let r = runner_with(&["loop {", "break;"]);
    let rendered = r.render_with(&"}".to_string());
    assert_eq!(rendered, "fn main() {\n\tloop {\n\t\tbreak;\n\t}\n}");
}

#[test]
fn render_of_whole_buffer_matches_staged_render() {
    let r = runner_with(&["let y = 1;"]);
    let staged = runner_with(&[]).render_with(&"let y = 1;".to_string());
    assert_eq!(r.render(), staged);
}

#[test]
fn adjust_keeps_statement_inside_nonkeyword_scope() {
    let adjusted = adjust_last_line("}", "loop {");
    assert_eq!(adjusted, "}");
}

#[test]
fn adjust_echoes_impl_opener() {
    let adjusted = adjust_last_line("}", "impl Foo {");
    assert_eq!(adjusted, "}\n\tprint!(\"impl Foo \");");
}

#[test]
fn line_adjustable_rejects_assignment_without_name() {
    assert!(!line_adjustable("= 5;"));
    assert!(!line_adjustable("  = 5;"));
    assert!(line_adjustable("let x = 5;"));
    assert!(line_adjustable("5;"));
    assert!(line_adjustable("fn f() {"));
}

// Scenario: a successful attempt keeps the line and hands the captured
// output through.
#[test]
fn execute_success_keeps_line_and_returns_output() {
    let mut r = Runner::new();
    let result = r.execute("let x = 5;".to_string(), RunReport::Output("5".to_string()));
    assert_eq!(result, Ok("5".to_string()));
    assert_eq!(r.loc(), 1);
    assert_eq!(r.code_lines[0], "let x = 5;");
}

// Scenario: a failed compilation surfaces the diagnostic and leaves the
// buffer as it was — here, still empty.
#[test]
fn execute_compile_failure_rolls_back() {
    let mut r = Runner::new();
    let stderr = "error: expected one of `:`\nerror: aborting due to 1 previous error\n";
    let result = r.execute("fn broken(".to_string(), RunReport::CompileFailed(stderr.to_string()));
    assert_eq!(
        result,
        Err(RunnerError::Compilation("error: expected one of `:`".to_string()))
    );
    assert_eq!(r.loc(), 0);
}

#[test]
fn execute_compile_failure_restores_longer_buffer() {
    let mut r = runner_with(&["fn f() {", "}"]);
    let result = r.execute("oops;".to_string(), RunReport::CompileFailed("bad".to_string()));
    assert_eq!(result, Err(RunnerError::Compilation("bad".to_string())));
    assert_eq!(r.code_lines, vec!["fn f() {".to_string(), "}".to_string()]);
}

#[test]
fn execute_io_failure_keeps_line() {
    let mut r = Runner::new();
    let result = r.execute("let x = 5;".to_string(), RunReport::IoFailed("disk full".to_string()));
    assert_eq!(result, Err(RunnerError::Io("disk full".to_string())));
    assert_eq!(r.loc(), 1);
}

#[test]
fn diagnostic_is_cut_at_abort_marker() {
    let d = extract_diagnostic("error[E0425]: cannot find value\nerror: aborting due to 1 previous error\nmore");
    assert_eq!(d, "error[E0425]: cannot find value");
}

#[test]
fn diagnostic_without_marker_is_whole_stream() {
    let d = extract_diagnostic("warning: unused variable\n");
    assert_eq!(d, "warning: unused variable\n");
}

#[test]
fn runner_error_message_returns_inner_text() {
    assert_eq!(RunnerError::Compilation("boom".to_string()).message(), "boom");
    assert_eq!(RunnerError::Io("gone".to_string()).message(), "gone");
}

#[test]
fn repl_error_wraps_runner_error() {
    let e = ReplError::from(RunnerError::Io("gone".to_string()));
    assert!(matches!(e, ReplError::Runner(RunnerError::Io(m)) if m == "gone"));
}

#[test]
fn new_session_starts_at_line_one() {
    let s = Ares::new();
    assert_eq!(s.line_number, 1);
    assert_eq!(s.indent_level, 0);
    assert!(!s.interrupted);
    assert_eq!(s.prompt_suffix, PromptSuffix::Standard);
}

// A line whose last character is outside `;`, `{`, `}` is rejected and
// the session keeps its scope count and suffix.
#[test]
fn rejected_line_changes_no_scope_state() {
    let mut s = Ares::new();
    s.handle_line("fn f() {");
    let before_indent = s.indent_level;
    let before_suffix = s.prompt_suffix;
    let c = s.handle_line("a + b");
    assert_eq!(c, Classification::Rejected);
    assert_eq!(s.indent_level, before_indent);
    assert_eq!(s.prompt_suffix, before_suffix);
}

#[test]
fn rejected_line_still_advances_line_number_and_clears_debounce() {
    let mut s = Ares::new();
    s.interrupted = true;
    let c = s.handle_line("fn broken(");
    assert_eq!(c, Classification::Rejected);
    assert_eq!(s.line_number, 2);
    assert!(!s.interrupted);
}

// Scope balance: the scope count follows the net unmatched `{` at line
// ends, floored at zero, and execution happens only when it is zero.
#[test]
fn scope_tracking_balances_braces() {
    let mut s = Ares::new();
    assert_eq!(s.handle_line("fn f() {"), Classification::Continuation);
    assert_eq!(s.indent_level, 1);
    assert_eq!(s.handle_line("let a = 1;"), Classification::Continuation);
    assert_eq!(s.indent_level, 1);
    assert_eq!(s.handle_line("if a > 0 {"), Classification::Continuation);
    assert_eq!(s.indent_level, 2);
    assert_eq!(s.handle_line("}"), Classification::Continuation);
    assert_eq!(s.indent_level, 1);
    assert_eq!(s.handle_line("}"), Classification::ReadyToExecute);
    assert_eq!(s.indent_level, 0);
    assert_eq!(s.prompt_suffix, PromptSuffix::Standard);
}

#[test]
fn scope_close_at_top_level_is_floored() {
    let mut s = Ares::new();
    let c = s.handle_line("}");
    assert_eq!(c, Classification::ReadyToExecute);
    assert_eq!(s.indent_level, 0);
}

#[test]
fn statement_at_top_level_executes() {
    let mut s = Ares::new();
    assert_eq!(s.handle_line("let x = 5;"), Classification::ReadyToExecute);
    assert_eq!(s.indent_level, 0);
}

#[test]
fn prompt_pads_small_line_numbers_to_three_digits() {
    let s = Ares::new();
    assert_eq!(s.prompt(), " ares:001:0-> ");
}

#[test]
fn prompt_shows_pending_suffix_and_indent() {
    let mut s = Ares::new();
    s.handle_line("fn f() {");
    assert_eq!(s.prompt(), " ares:002:1-* ");
}

#[test]
fn prompt_keeps_three_digit_numbers_unpadded() {
    let mut s = Ares::new();
    s.line_number = 999;
    assert_eq!(s.prompt(), " ares:999:0-> ");
}

#[test]
fn prompt_drops_padding_from_one_thousand_on() {
    let mut s = Ares::new();
    s.line_number = 1000;
    assert_eq!(s.prompt(), " ares:1000:0-> ");
    s.line_number = 12345;
    assert_eq!(s.prompt(), " ares:12345:0-> ");
}

// End-of-input unwind: one signal per open scope, then one more ends the
// session with status 0; at the top level a single signal ends it.
#[test]
fn eof_unwinds_one_scope_per_signal() {
    let mut s = Ares::new();
    s.handle_line("fn f() {");
    s.handle_line("if true {");
    assert_eq!(s.indent_level, 2);
    assert_eq!(s.eof_handler(), None);
    assert_eq!(s.indent_level, 1);
    assert_eq!(s.eof_handler(), None);
    assert_eq!(s.indent_level, 0);
    assert_eq!(s.eof_handler(), Some(0));
}

#[test]
fn eof_at_top_level_exits_immediately() {
    let mut s = Ares::new();
    assert_eq!(s.eof_handler(), Some(0));
}

// Double interrupt: the first warns and continues, the second in a row
// exits with status 2; a successfully read line resets the debounce.
#[test]
fn double_interrupt_exits_with_status_two() {
    let mut s = Ares::new();
    assert_eq!(s.interrupt_handler(), None);
    assert!(s.interrupted);
    assert_eq!(s.interrupt_handler(), Some(2));
}

#[test]
fn read_line_resets_interrupt_debounce() {
    let mut s = Ares::new();
    assert_eq!(s.interrupt_handler(), None);
    s.handle_line("let x = 1;");
    assert!(!s.interrupted);
    assert_eq!(s.interrupt_handler(), None);
    assert_eq!(s.interrupt_handler(), Some(2));
}

#[test]
fn should_execute_only_at_top_level() {
    let mut s = Ares::new();
    assert!(s.should_execute_line(';'));
    assert!(s.should_execute_line('}'));
    assert!(!s.should_execute_line('{'));
    s.indent_level = 1;
    assert!(!s.should_execute_line(';'));
    assert!(!s.should_execute_line('}'));
}
