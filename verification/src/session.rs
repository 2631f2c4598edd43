//! The session state machine of the read-eval-print loop.
//!
//! The driver reads one line at a time and feeds it, or an interrupt or
//! end-of-input signal, to the state held here. Each line is classified by
//! its last character: rejected outright, buffered as a continuation of an
//! open scope, or declared ready to execute. The surrounding program
//! performs the I/O each classification calls for — printing the hint,
//! buffering the line, or driving the toolchain — and feeds the next event
//! back in.

use vstd::prelude::*;
use vstd::string::*;

use crate::digits::{dec_digits, lemma_dec_digits_len, padded3, u32_decimal, u32_padded3};
use crate::runner::RunnerError;
use crate::text::{last_char, last_char_or};

verus! {

/// The prompt's trailing marker: standard, or awaiting the rest of an open
/// scope.
#[derive(Clone, Copy, Debug, PartialEq, Eq, Structural)]
pub enum PromptSuffix {
    Standard,
    Pending,
}

/// How the session classified one submitted line.
#[derive(Clone, Copy, Debug, PartialEq, Eq, Structural)]
pub enum Classification {
    /// The line's last character is not `;`, `{` or `}`: it is dropped and
    /// the session state is left alone.
    Rejected,
    /// The line belongs to an open scope (or opens one): it is buffered and
    /// nothing runs yet.
    Continuation,
    /// The line completes a statement at the top level: the execution
    /// pipeline runs now.
    ReadyToExecute,
}

/// A session-level failure: the line reader failed fatally, or the runner
/// did.
#[derive(Debug)]
pub enum ReplError {
    Reader(String),
    Runner(RunnerError),
}

impl From<RunnerError> for ReplError {
    /// Wraps a runner failure as a session failure.
    fn from(source: RunnerError) -> (r: ReplError) {
        ReplError::Runner(source)
    }
}

impl vstd::std_specs::convert::FromSpecImpl<RunnerError> for ReplError {
    open spec fn obeys_from_spec() -> bool {
        true
    }

    open spec fn from_spec(source: RunnerError) -> ReplError {
        ReplError::Runner(source)
    }
}

/// The driver's state between two events.
pub struct Ares {
    /// Count of lines read so far plus one; shown in the prompt.
    pub line_number: u32,
    /// How many scopes are currently open.
    pub indent_level: u32,
    /// Whether the last event was an interrupt (the debounce flag).
    pub interrupted: bool,
    /// The marker the next prompt ends with.
    pub prompt_suffix: PromptSuffix,
}

/// Whether a line ending in `c` is accepted at all.
pub open spec fn acceptable_last(c: char) -> bool {
    c == ';' || c == '{' || c == '}'
}

/// The open-scope count after a line ending in `c`: one more after `{`, one
/// less (floored at none) after `}`, unchanged otherwise.
pub open spec fn indent_step(indent: nat, c: char) -> nat {
    if c == '{' {
        indent + 1
    } else if c == '}' {
        if indent == 0 {
            0
        } else {
            (indent - 1) as nat
        }
    } else {
        indent
    }
}

/// How a line is classified when it arrives with `indent` scopes open: by
/// its last character, with execution only when the count of open scopes
/// has returned to zero.
pub open spec fn spec_classify(indent: nat, l: Seq<char>) -> Classification {
    let c = last_char_or(l, ' ');
    if !acceptable_last(c) {
        Classification::Rejected
    } else if (c == ';' || c == '}') && indent_step(indent, c) == 0 {
        Classification::ReadyToExecute
    } else {
        Classification::Continuation
    }
}

/// The interrupt transition: a set debounce flag means the session ends
/// with status 2; otherwise the flag is set and the session continues.
pub open spec fn spec_interrupt(interrupted: bool) -> (bool, Option<i32>) {
    if interrupted {
        (true, Option::Some(2i32))
    } else {
        (true, Option::None)
    }
}

/// The end-of-input transition on the open-scope count: at the top level
/// the session ends with status 0; otherwise one scope is unwound.
pub open spec fn spec_eof(indent: nat) -> (nat, Option<i32>) {
    if indent == 0 {
        (0, Option::Some(0i32))
    } else {
        ((indent - 1) as nat, Option::None)
    }
}

/// The number segment the prompt shows for line number `n`: zero-padded to
/// three digits below 1000, plain decimal from 1000 on.
pub open spec fn prompt_number(n: nat) -> Seq<char> {
    if n < 1000 {
        padded3(n)
    } else {
        dec_digits(n)
    }
}

/// The characters of the suffix marker.
pub open spec fn suffix_chars(s: PromptSuffix) -> Seq<char> {
    match s {
        PromptSuffix::Standard => "->"@,
        PromptSuffix::Pending => "-*"@,
    }
}

/// The full prompt for a session state: the session name, the line number,
/// the open-scope count and the suffix marker.
pub open spec fn spec_prompt(ln: nat, indent: nat, s: PromptSuffix) -> Seq<char> {
    (((((" ares:"@ + prompt_number(ln)) + ":"@) + dec_digits(indent)) + suffix_chars(s)) + " "@)
}

impl Ares {
    /// A fresh session: at line one, no scopes open, no pending interrupt.
    pub fn new() -> (r: Ares)
        ensures
            r.line_number == 1,
            r.indent_level == 0,
            !r.interrupted,
            r.prompt_suffix == PromptSuffix::Standard,
    {
        Ares {
            line_number: 1,
            indent_level: 0,
            interrupted: false,
            prompt_suffix: PromptSuffix::Standard,
        }
    }

    /// The prompt to show before the next line is read.
    pub fn prompt(&self) -> (r: String)
        ensures
            r@ == spec_prompt(self.line_number as nat, self.indent_level as nat, self.prompt_suffix),
    {
        proof {
            reveal_strlit(" ares:");
            reveal_strlit(":");
            reveal_strlit("->");
            reveal_strlit("-*");
            reveal_strlit(" ");
        }
        let number = if self.line_number < 1000 {
            u32_padded3(self.line_number)
        } else {
            u32_decimal(self.line_number)
        };
        let indent = u32_decimal(self.indent_level);
        let mut out = String::from_str(" ares:");
        out.append(number.as_str());
        out.append(":");
        out.append(indent.as_str());
        out.append(match self.prompt_suffix {
            PromptSuffix::Standard => "->",
            PromptSuffix::Pending => "-*",
        });
        out.append(" ");
        out
    }

    /// Whether a line ending in `last` completes a statement to run now:
    /// only a terminator or a scope close, and only with no scope left open.
    pub fn should_execute_line(&self, last: char) -> (r: bool)
        ensures
            r == ((last == ';' || last == '}') && self.indent_level == 0),
    {
        (last == ';' || last == '}') && self.indent_level == 0
    }

    /// Bookkeeping for every line read, rejected ones included: the
    /// interrupt debounce is cleared, the line number advances, and a scope
    /// is opened or closed according to the line's last character.
    pub fn update_ares_state(&mut self, last: char)
        requires
            old(self).line_number < u32::MAX,
            old(self).indent_level < u32::MAX,
        ensures
            final(self).line_number == old(self).line_number + 1,
            !final(self).interrupted,
            final(self).indent_level as nat == indent_step(old(self).indent_level as nat, last),
            final(self).prompt_suffix == old(self).prompt_suffix,
    {
        self.interrupted = false;
        self.line_number = self.line_number + 1;
        if last == '}' {
            self.indent_level = if self.indent_level == 0 {
                0
            } else {
                self.indent_level - 1
            };
        } else if last == '{' {
            self.indent_level = self.indent_level + 1;
        }
    }

    /// Takes one submitted line: updates the session bookkeeping and says
    /// what the driver must do with the line — drop it with a hint, buffer
    /// it, or run the execution pipeline on it.
    pub fn handle_line(&mut self, line: &str) -> (r: Classification)
        requires
            line@.len() > 0,
            old(self).line_number < u32::MAX,
            old(self).indent_level < u32::MAX,
        ensures
            r == spec_classify(old(self).indent_level as nat, line@),
            final(self).line_number == old(self).line_number + 1,
            !final(self).interrupted,
            final(self).indent_level as nat == indent_step(
                old(self).indent_level as nat,
                last_char_or(line@, ' '),
            ),
            r is Rejected ==> final(self).indent_level == old(self).indent_level
                && final(self).prompt_suffix == old(self).prompt_suffix,
            r is ReadyToExecute ==> final(self).indent_level == 0 && final(self).prompt_suffix
                == PromptSuffix::Standard,
            r is Continuation ==> final(self).prompt_suffix == PromptSuffix::Pending,
    {
        let last = last_char(line);
        self.update_ares_state(last);
        if !(last == ';' || last == '{' || last == '}') {
            return Classification::Rejected;
        }
        if self.should_execute_line(last) {
            self.prompt_suffix = PromptSuffix::Standard;
            Classification::ReadyToExecute
        } else {
            self.prompt_suffix = PromptSuffix::Pending;
            Classification::Continuation
        }
    }

    /// Takes an end-of-input signal: ends the session with status 0 at the
    /// top level, otherwise unwinds one open scope and continues.
    pub fn eof_handler(&mut self) -> (r: Option<i32>)
        ensures
            (final(self).indent_level as nat, r) == spec_eof(old(self).indent_level as nat),
            final(self).line_number == old(self).line_number,
            final(self).interrupted == old(self).interrupted,
            final(self).prompt_suffix == old(self).prompt_suffix,
    {
        if self.indent_level == 0 {
            Option::Some(0)
        } else {
            self.indent_level = self.indent_level - 1;
            Option::None
        }
    }

    /// Takes an interrupt signal: warns and continues the first time, ends
    /// the session with status 2 when it arrives twice with no successfully
    /// read line in between.
    pub fn interrupt_handler(&mut self) -> (r: Option<i32>)
        ensures
            (final(self).interrupted, r) == spec_interrupt(old(self).interrupted),
            final(self).line_number == old(self).line_number,
            final(self).indent_level == old(self).indent_level,
            final(self).prompt_suffix == old(self).prompt_suffix,
    {
        if self.interrupted {
            Option::Some(2)
        } else {
            self.interrupted = true;
            Option::None
        }
    }
}

/// Rejection is a no-op on the session: a line whose last character is
/// outside `;`, `{`, `}` is always classified `Rejected`, and the
/// open-scope count does not move. (`handle_line` takes no buffer at all,
/// so the code buffer cannot change either.)
pub proof fn lemma_rejection_no_op(indent: nat, l: Seq<char>)
    requires
        !acceptable_last(last_char_or(l, ' ')),
    ensures
        spec_classify(indent, l) == Classification::Rejected,
        indent_step(indent, last_char_or(l, ' ')) == indent,
{
}

/// The open-scope count after a whole history of lines: each line's last
/// character opens or closes one scope, closing floored at zero.
pub open spec fn net_open_scopes(lines: Seq<Seq<char>>) -> nat
    decreases lines.len(),
{
    if lines.len() == 0 {
        0
    } else {
        indent_step(net_open_scopes(lines.drop_last()), last_char_or(lines.last(), ' '))
    }
}

/// Scope balance: feeding one more line moves the net count of open scopes
/// exactly as `handle_line` moves `indent_level`, and a line is classified
/// ready to execute only when the count lands on zero. A session that
/// starts fresh and takes its lines through `handle_line` therefore always
/// shows `indent_level == net_open_scopes(lines taken so far)`.
pub proof fn lemma_scope_balance(lines: Seq<Seq<char>>, l: Seq<char>)
    ensures
        net_open_scopes(lines.push(l)) == indent_step(
            net_open_scopes(lines),
            last_char_or(l, ' '),
        ),
        spec_classify(net_open_scopes(lines), l) == Classification::ReadyToExecute
            ==> net_open_scopes(lines.push(l)) == 0,
{
    assert(lines.push(l).drop_last() =~= lines);
    assert(lines.push(l).last() == l);
}

/// Count of lines in `lines` whose last character is `c`.
pub open spec fn count_ending(lines: Seq<Seq<char>>, c: char) -> nat
    decreases lines.len(),
{
    if lines.len() == 0 {
        0
    } else {
        count_ending(lines.drop_last(), c) + (if last_char_or(lines.last(), ' ') == c {
            1nat
        } else {
            0nat
        })
    }
}

/// When no prefix of the history ever closes more scopes than it has
/// opened, the floor never bites: the net count of open scopes is exactly
/// the count of scope-opening line ends minus the count of scope-closing
/// ones.
pub proof fn lemma_net_open_scopes_counts(lines: Seq<Seq<char>>)
    requires
        forall|k: int|
            0 <= k <= lines.len() ==> count_ending(#[trigger] lines.take(k), '}') <= count_ending(
                lines.take(k),
                '{',
            ),
    ensures
        net_open_scopes(lines) == count_ending(lines, '{') - count_ending(lines, '}'),
    decreases lines.len(),
{
    if lines.len() > 0 {
        let prev = lines.drop_last();
        assert(lines.take(lines.len() as int) =~= lines);
        assert forall|k: int|
            0 <= k <= prev.len() implies count_ending(#[trigger] prev.take(k), '}')
            <= count_ending(prev.take(k), '{') by {
            assert(prev.take(k) =~= lines.take(k));
            assert(count_ending(lines.take(k), '}') <= count_ending(lines.take(k), '{'));
        }
        lemma_net_open_scopes_counts(prev);
        assert(lines.take(lines.len() - 1) =~= prev);
    }
}

/// The session state after `k` end-of-input signals arriving in a row at
/// `indent` open scopes: `Some` of the remaining count while the session
/// lives, `None` once a signal has ended it.
pub open spec fn eof_run(indent: nat, k: nat) -> Option<nat>
    decreases k,
{
    if k == 0 {
        Option::Some(indent)
    } else {
        match eof_run(indent, (k - 1) as nat) {
            Option::None => Option::None,
            Option::Some(j) => if j == 0 {
                Option::None
            } else {
                Option::Some((j - 1) as nat)
            },
        }
    }
}

/// End-of-input unwind: at `indent` open scopes, each of the first `indent`
/// signals unwinds exactly one scope and keeps the session alive, and the
/// next signal ends it — every such ending carries status 0 (`spec_eof`
/// returns a status only at the top level, and then it is 0). In
/// particular, at the top level a single signal ends the session at once.
pub proof fn lemma_eof_unwind(indent: nat, k: nat)
    ensures
        k <= indent ==> eof_run(indent, k) == Option::Some((indent - k) as nat),
        k > indent ==> eof_run(indent, k) is None,
        spec_eof(0).1 == Option::Some(0i32),
        indent > 0 ==> spec_eof(indent) == (((indent - 1) as nat, Option::<i32>::None)),
    decreases k,
{
    if k > 0 {
        lemma_eof_unwind(indent, (k - 1) as nat);
    }
}

/// Double interrupt: from a quiet state one interrupt only sets the
/// debounce flag and keeps the session alive, and a second interrupt with
/// no successfully read line in between ends the session with status 2.
/// (`handle_line` clears the flag on every line it takes, so a read line
/// starts the sequence over.)
pub proof fn lemma_double_interrupt()
    ensures
        spec_interrupt(false).1 is None,
        spec_interrupt(false).0 == true,
        spec_interrupt(spec_interrupt(false).0).1 == Option::Some(2i32),
{
}

/// Prompt padding: below 1000 the line number is shown zero-padded to
/// exactly three digits; from 1000 on it is shown plainly, in at least four
/// digits with nothing prepended.
pub proof fn lemma_prompt_padding(n: nat)
    ensures
        n < 1000 ==> prompt_number(n) == padded3(n) && prompt_number(n).len() == 3,
        n >= 1000 ==> prompt_number(n) == dec_digits(n) && prompt_number(n).len() >= 4,
{
    lemma_dec_digits_len(n);
}

} // verus!
