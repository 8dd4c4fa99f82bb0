//! Interpolated strings: holes, their balanced text, and the first-error rule.
use vstd::prelude::*;

use crate::backtickstringtype::BacktickStringType;
use crate::errors::errorcode::ErrorCode;
use crate::errors::lexerdiagnostics::lexer::{c_comment, comment, try_long};
use crate::errors::lexerdiagnostics::scanstate::{
    add_diag, at, at_pos, boff, diag, err_if, is_newline, is_nl, same_input, start_lexeme,
    with_only_sb, ScanState, Scanner, in_source, all_in_source, lemma_boff_step, lemma_char_width,
};
use crate::errors::lexerdiagnostics::shortstring::{escape, short_string};
use crate::errors::lexerdiagnostics::{LexDiag, LexerDiagnostic};
use crate::luasyntaxoptions::LuaSyntaxOptions;

verus! {

/// The first error of an interpolated string is kept; later ones are dropped.
pub open spec fn try_set(slot: Option<LexDiag>, d: LexDiag) -> Option<LexDiag> {
    match slot {
        Some(e) => Some(e),
        None => Some(d),
    }
}

pub open spec fn slot_view(slot: Option<LexerDiagnostic>) -> Option<LexDiag> {
    match slot {
        Some(d) => Some(d@),
        None => None,
    }
}

/// The kept diagnostic, if any, ends within the source's bytes.
pub open spec fn slot_ok(cs: Seq<char>, slot: Option<LexerDiagnostic>) -> bool {
    match slot {
        Some(d) => in_source(cs, d),
        None => true,
    }
}

/// The byte offset of the character before `i` (of the first one at 0).
pub open spec fn boff_before(cs: Seq<char>, i: int) -> nat {
    boff(cs, if i >= 1 {
        i - 1
    } else {
        0
    })
}

/// The end of an interpolated string: its first error (an unfinished string is
/// one, reported on the last byte), then the report where interpolated
/// strings are not accepted and the string is unfinished.
#[verifier::opaque]
pub open spec fn bt_finish(
    cs: Seq<char>,
    o: LuaSyntaxOptions,
    s2: ScanState,
    slot: Option<LexDiag>,
    unfinished: bool,
    start: int,
) -> ScanState {
    let b = boff(cs, s2.pos);
    let slot2 = if unfinished {
        try_set(
            slot,
            diag(ErrorCode::ErrUnfinishedString, if b >= 1 { b - 1 } else { 0 }, 1, seq![]),
        )
    } else {
        slot
    };
    let s3 = match slot2 {
        Some(e) => add_diag(s2, e),
        None => s2,
    };
    let s4 = err_if(
        cs,
        s3,
        unfinished && o.backtick_string_type == BacktickStringType::Disabled,
        start,
        ErrorCode::ErrInterpolatedStringsNotSupportedInVersion,
    );
    with_only_sb(s4, true)
}

/// An interpolated string; the backtick is at `pos`.
pub open spec fn bt(cs: Seq<char>, o: LuaSyntaxOptions, s: ScanState) -> ScanState
    decreases cs.len() - s.pos, 0nat,
{
    let start = s.pos;
    let s1 = at_pos(start_lexeme(s), start + 1);
    if 0 <= start && start + 1 <= cs.len() {
        let (s2, slot, unfinished) = bt_body(cs, o, s1, None);
        bt_finish(cs, o, s2, slot, unfinished, start)
    } else {
        s1
    }
}

/// One step in the body of an interpolated string: 0 to go on, 1 when the
/// closing backtick was read, 2 when a line break or the end leaves it
/// unfinished.
pub open spec fn bt_body_step(cs: Seq<char>, o: LuaSyntaxOptions, s: ScanState, slot: Option<LexDiag>) -> (
    nat,
    ScanState,
    Option<LexDiag>,
)
    decreases cs.len() - s.pos, 1nat,
{
    if !(0 <= s.pos < cs.len()) || is_nl(cs[s.pos]) {
        (2, s, slot)
    } else if cs[s.pos] == '`' {
        (1, at_pos(s, s.pos + 1), slot)
    } else if cs[s.pos] == '{' {
        let (s2, sl2) = hole(cs, o, s, slot);
        (0, s2, sl2)
    } else if cs[s.pos] == '\\' {
        (0, escape(cs, o, s), slot)
    } else {
        (0, at_pos(s, s.pos + 1), slot)
    }
}

/// The body of an interpolated string: the state, the first error, and
/// whether it is unfinished.
pub open spec fn bt_body(cs: Seq<char>, o: LuaSyntaxOptions, s: ScanState, slot: Option<LexDiag>) -> (
    ScanState,
    Option<LexDiag>,
    bool,
)
    decreases cs.len() - s.pos, 2nat,
{
    let (kind, s2, sl2) = bt_body_step(cs, o, s, slot);
    if kind == 1 {
        (s2, sl2, false)
    } else if kind == 2 {
        (s2, sl2, true)
    } else if s.pos < s2.pos <= cs.len() {
        bt_body(cs, o, s2, sl2)
    } else {
        (s2, sl2, false)
    }
}

/// After the balanced text of a hole: its closing `}`, or the unclosed-hole
/// error on the two bytes before the hole's `{`.
#[verifier::opaque]
pub open spec fn hole_close(cs: Seq<char>, s2: ScanState, sl2: Option<LexDiag>, hs: nat) -> (
    ScanState,
    Option<LexDiag>,
) {
    if at(cs, s2.pos) == Some('}') {
        (at_pos(s2, s2.pos + 1), sl2)
    } else {
        (s2, try_set(sl2, diag(ErrorCode::ErrUnclosedExpressionHole, hs as int, 2, seq![])))
    }
}

/// A hole of an interpolated string; the `{` is at `pos`. `{{` is an error.
pub open spec fn hole(cs: Seq<char>, o: LuaSyntaxOptions, s: ScanState, slot: Option<LexDiag>) -> (
    ScanState,
    Option<LexDiag>,
)
    decreases cs.len() - s.pos, 0nat,
{
    let ob = s.pos;
    let p = ob + 1;
    let hs = boff_before(cs, ob);
    if at(cs, p) == Some('{') {
        (at_pos(s, p + 1), try_set(slot, diag(ErrorCode::ErrDoubleBraceInInterpolation, hs as int, 2, seq![])))
    } else if 0 <= p <= cs.len() {
        let (s2, sl2) = bal(cs, o, at_pos(s, p), slot, '}');
        hole_close(cs, s2, sl2, hs)
    } else {
        (at_pos(s, p), slot)
    }
}

/// After the balanced text of a bracketed part: its closing character.
#[verifier::opaque]
pub open spec fn brk_close(cs: Seq<char>, s2: ScanState, sl2: Option<LexDiag>, close: char) -> (
    ScanState,
    Option<LexDiag>,
) {
    if at(cs, s2.pos) == Some(close) {
        (at_pos(s2, s2.pos + 1), sl2)
    } else {
        (s2, sl2)
    }
}

/// A bracketed part of a hole, closed by `close`; the opening bracket is at
/// `pos`.
pub open spec fn brk(cs: Seq<char>, o: LuaSyntaxOptions, s: ScanState, slot: Option<LexDiag>, close: char) -> (
    ScanState,
    Option<LexDiag>,
)
    decreases cs.len() - s.pos, 0nat,
{
    let p = s.pos + 1;
    if 0 <= p <= cs.len() {
        let (s2, sl2) = bal(cs, o, at_pos(s, p), slot, close);
        brk_close(cs, s2, sl2, close)
    } else {
        (at_pos(s, p), slot)
    }
}

/// One step of the balanced text of a hole, which ends before `ending`: whether
/// it ended, the state and the first error. A closing character other than
/// `ending` is an error (with `ending` as the argument) and is skipped; a
/// quote after an error ends the text.
pub open spec fn bal_step(
    cs: Seq<char>,
    o: LuaSyntaxOptions,
    s: ScanState,
    slot: Option<LexDiag>,
    ending: char,
) -> (bool, ScanState, Option<LexDiag>)
    decreases cs.len() - s.pos, 1nat,
{
    if !(0 <= s.pos < cs.len()) {
        (true, s, slot)
    } else {
        let c = cs[s.pos];
        let p = s.pos;
        if is_nl(c) {
            if p + 1 >= cs.len() {
                (true, s, slot)
            } else {
                (false, at_pos(s, p + 1), slot)
            }
        } else if c == '`' {
            (false, bt(cs, o, s), slot)
        } else if c == ending || c == '}' || c == ')' || c == ']' {
            if c == ending {
                (true, s, slot)
            } else {
                (
                    false,
                    at_pos(s, p + 1),
                    try_set(slot, diag(ErrorCode::ErrSyntaxError, boff(cs, p) as int, 1, seq![seq![ending]])),
                )
            }
        } else if c == '"' || c == '\'' {
            if slot is Some {
                (true, s, slot)
            } else {
                (false, short_string(cs, o, s), slot)
            }
        } else if c == '/' && o.accept_c_comment_syntax && at(cs, p + 1) == Some('*') {
            (false, c_comment(cs, o, s), slot)
        } else if c == '-' && at(cs, p + 1) == Some('-') {
            (false, comment(cs, o, s), slot)
        } else if c == '{' {
            let (s2, sl2) = brk(cs, o, s, slot, '}');
            (false, s2, sl2)
        } else if c == '(' {
            let (s2, sl2) = brk(cs, o, s, slot, ')');
            (false, s2, sl2)
        } else if c == '[' && (at(cs, p + 1) == Some('=') || at(cs, p + 1) == Some('[')) {
            (false, try_long(cs, o, s).1, slot)
        } else if c == '[' {
            let (s2, sl2) = brk(cs, o, s, slot, ']');
            (false, s2, sl2)
        } else {
            (false, at_pos(s, p + 1), slot)
        }
    }
}

/// The balanced text of a hole, which ends before `ending`.
pub open spec fn bal(cs: Seq<char>, o: LuaSyntaxOptions, s: ScanState, slot: Option<LexDiag>, ending: char) -> (
    ScanState,
    Option<LexDiag>,
)
    decreases cs.len() - s.pos, 2nat,
{
    let (done, s2, sl2) = bal_step(cs, o, s, slot, ending);
    if done {
        (s2, sl2)
    } else if s.pos < s2.pos <= cs.len() {
        bal(cs, o, s2, sl2, ending)
    } else {
        (s2, sl2)
    }
}

proof fn lemma_bal_unfold(cs: Seq<char>, o: LuaSyntaxOptions, s: ScanState, slot: Option<LexDiag>, ending: char)
    requires
        0 <= s.pos <= cs.len(),
    ensures
        bal(cs, o, s, slot, ending) == ({
            let (d, s2, sl2) = bal_step(cs, o, s, slot, ending);
            if d {
                (s2, sl2)
            } else if s.pos < s2.pos <= cs.len() {
                bal(cs, o, s2, sl2, ending)
            } else {
                (s2, sl2)
            }
        }),
{
    reveal(bal);
}

proof fn lemma_bt_body_unfold(cs: Seq<char>, o: LuaSyntaxOptions, s: ScanState, slot: Option<LexDiag>)
    requires
        0 <= s.pos <= cs.len(),
    ensures
        bt_body(cs, o, s, slot) == ({
            let (kind, s2, sl2) = bt_body_step(cs, o, s, slot);
            if kind == 1 {
                (s2, sl2, false)
            } else if kind == 2 {
                (s2, sl2, true)
            } else if s.pos < s2.pos <= cs.len() {
                bt_body(cs, o, s2, sl2)
            } else {
                (s2, sl2, false)
            }
        }),
{
    reveal_with_fuel(bt_body, 2);
}

/// Keeps `d` unless an error is already kept.
fn try_set_error(slot: &mut Option<LexerDiagnostic>, d: LexerDiagnostic)
    ensures
        slot_view(*final(slot)) == try_set(slot_view(*old(slot)), d@),
        *final(slot) == *old(slot) || *final(slot) == Some(d),
{
    if slot.is_none() {
        *slot = Some(d);
    }
}

/// A diagnostic record without arguments.
fn make_diag(code: ErrorCode, start: usize, width: usize) -> (r: LexerDiagnostic)
    ensures
        r@ == diag(code, start as int, width as int, seq![]),
{
    let arguments: Vec<String> = Vec::new();
    let r = LexerDiagnostic {
        code,
        start,
        width,
        arguments,
        is_warning: code == ErrorCode::WrnLineBreakMayAffectErrorReporting,
    };
    proof {
        assert(r@.arguments =~= seq![]);
    }
    r
}

impl Scanner {
    /// Records a kept diagnostic.
    fn push_record(&mut self, d: LexerDiagnostic)
        requires
            old(self).wf(),
            in_source(old(self).chars@, d),
        ensures
            final(self).wf(),
            same_input(*final(self), *old(self)),
            final(self).st() == add_diag(old(self).st(), d@),
    {
        self.diagnostics.push(d);
        proof {
            assert(self.st().diags =~= old(self).st().diags.push(d@));
            reveal(all_in_source);
            assert(forall|k: int|
                0 <= k < self.diagnostics@.len() - 1 ==> self.diagnostics@[k] == old(self).diagnostics@[k]);
        }
    }

    #[verifier::rlimit(40)]
    fn finish_backtick(&mut self, slot: Option<LexerDiagnostic>, unfinished: bool, start: usize)
        requires
            old(self).wf(),
            start < old(self).pos,
            slot_ok(old(self).chars@, slot),
        ensures
            final(self).wf(),
            same_input(*final(self), *old(self)),
            final(self).st() == bt_finish(
                old(self).chars@,
                old(self).options,
                old(self).st(),
                slot_view(slot),
                unfinished,
                start as int,
            ),
            final(self).pos == old(self).pos,
    {
        let ghost cs = self.chars@;
        let ghost s0 = self.st();
        let mut slot = slot;
        if unfinished {
            let b = self.byte_of[self.pos];
            let st = if b >= 1 {
                b - 1
            } else {
                0
            };
            proof {
                assert(self.byte_of@[start + 1] <= self.byte_of@[self.pos as int]);
                lemma_boff_step(self.chars@, start as int);
                lemma_char_width(self.chars@[start as int]);
                assert(self.byte_of@[self.pos as int] <= self.byte_of@[self.chars@.len() as int]);
                assert(self.byte_of@[self.chars@.len() as int] == boff(
                    self.chars@,
                    self.chars@.len() as int,
                ));
            }
            try_set_error(&mut slot, make_diag(ErrorCode::ErrUnfinishedString, st, 1));
        }
        match slot {
            Some(d) => {
                self.push_record(d);
            },
            None => {},
        }
        let gate = unfinished && self.options.backtick_string_type == BacktickStringType::Disabled;
        self.error_from_if(gate, start, ErrorCode::ErrInterpolatedStringsNotSupportedInVersion);
        self.only_sb = true;
        proof {
            reveal(bt_finish);
        }
    }

    /// Scans an interpolated string; the backtick is at the current position.
    pub fn scan_backtick_string(&mut self)
        requires
            old(self).wf(),
            old(self).pos < old(self).chars@.len(),
        ensures
            final(self).wf(),
            same_input(*final(self), *old(self)),
            final(self).st() == bt(old(self).chars@, old(self).options, old(self).st()),
            final(self).pos > old(self).pos,
        decreases old(self).chars@.len() - old(self).pos, 0nat,
    {
        let start = self.pos;
        self.lexeme_start = start;
        self.pos = self.pos + 1;
        let mut slot: Option<LexerDiagnostic> = None;
        let unfinished = self.scan_backtick_body(&mut slot);
        self.finish_backtick(slot, unfinished, start);
    }

    fn backtick_body_step(&mut self, slot: &mut Option<LexerDiagnostic>) -> (kind: u8)
        requires
            old(self).wf(),
            old(self).pos >= 1,
            slot_ok(old(self).chars@, *old(slot)),
        ensures
            final(self).wf(),
            slot_ok(final(self).chars@, *final(slot)),
            same_input(*final(self), *old(self)),
            (kind as nat, final(self).st(), slot_view(*final(slot))) == bt_body_step(
                old(self).chars@,
                old(self).options,
                old(self).st(),
                slot_view(*old(slot)),
            ),
            kind <= 2,
            kind == 0 ==> old(self).pos < final(self).pos,
            old(self).pos <= final(self).pos,
        decreases old(self).chars@.len() - old(self).pos, 1nat,
    {
        if self.pos >= self.chars.len() || is_newline(self.chars[self.pos]) {
            return 2;
        }
        let c = self.chars[self.pos];
        if c == '`' {
            self.pos = self.pos + 1;
            1
        } else if c == '{' {
            self.scan_backtick_hole(slot);
            0
        } else if c == '\\' {
            self.scan_escape_sequence();
            0
        } else {
            self.pos = self.pos + 1;
            0
        }
    }

    fn scan_backtick_body(&mut self, slot: &mut Option<LexerDiagnostic>) -> (unfinished: bool)
        requires
            old(self).wf(),
            old(self).pos >= 1,
            slot_ok(old(self).chars@, *old(slot)),
        ensures
            final(self).wf(),
            slot_ok(final(self).chars@, *final(slot)),
            same_input(*final(self), *old(self)),
            (final(self).st(), slot_view(*final(slot)), unfinished) == bt_body(
                old(self).chars@,
                old(self).options,
                old(self).st(),
                slot_view(*old(slot)),
            ),
            old(self).pos <= final(self).pos,
        decreases old(self).chars@.len() - old(self).pos, 2nat,
    {
        loop
            invariant
                self.wf(),
                slot_ok(self.chars@, *slot),
                same_input(*self, *old(self)),
                old(self).pos <= self.pos,
                self.pos >= 1,
                bt_body(self.chars@, self.options, self.st(), slot_view(*slot)) == bt_body(
                    old(self).chars@,
                    old(self).options,
                    old(self).st(),
                    slot_view(*old(slot)),
                ),
            decreases self.chars@.len() - self.pos,
        {
            let ghost s0 = self.st();
            let ghost sl0 = slot_view(*slot);
            proof {
                lemma_bt_body_unfold(self.chars@, self.options, s0, sl0);
            }
            let kind = self.backtick_body_step(slot);
            if kind == 1 {
                return false;
            }
            if kind == 2 {
                return true;
            }
        }
    }

    fn scan_backtick_hole(&mut self, slot: &mut Option<LexerDiagnostic>)
        requires
            old(self).wf(),
            old(self).pos >= 1,
            old(self).chars@[old(self).pos as int] == '{',
            slot_ok(old(self).chars@, *old(slot)),
            old(self).pos < old(self).chars@.len(),
        ensures
            final(self).wf(),
            slot_ok(final(self).chars@, *final(slot)),
            same_input(*final(self), *old(self)),
            (final(self).st(), slot_view(*final(slot))) == hole(
                old(self).chars@,
                old(self).options,
                old(self).st(),
                slot_view(*old(slot)),
            ),
            old(self).pos < final(self).pos,
        decreases old(self).chars@.len() - old(self).pos, 0nat,
    {
        let ob = self.pos;
        let hs = if ob >= 1 {
            self.byte_of[ob - 1]
        } else {
            self.byte_of[0]
        };
        proof {
            lemma_boff_step(self.chars@, ob - 1);
            lemma_boff_step(self.chars@, ob as int);
            lemma_char_width(self.chars@[ob - 1]);
            assert(self.byte_of@[ob + 1] <= self.byte_of@[self.chars@.len() as int]);
            assert(self.byte_of@[self.chars@.len() as int] == boff(
                self.chars@,
                self.chars@.len() as int,
            ));
            assert(hs + 2 <= boff(self.chars@, self.chars@.len() as int));
        }
        self.pos = self.pos + 1;
        if self.peek() == Some('{') {
            self.pos = self.pos + 1;
            try_set_error(slot, make_diag(ErrorCode::ErrDoubleBraceInInterpolation, hs, 2));
            return ;
        }
        self.scan_hole_balanced_text('}', slot);
        if self.peek() == Some('}') {
            self.pos = self.pos + 1;
        } else {
            try_set_error(slot, make_diag(ErrorCode::ErrUnclosedExpressionHole, hs, 2));
        }
        proof {
            reveal(hole_close);
        }
    }

    fn scan_hole_bracketed(&mut self, close: char, slot: &mut Option<LexerDiagnostic>)
        requires
            old(self).wf(),
            slot_ok(old(self).chars@, *old(slot)),
            old(self).pos < old(self).chars@.len(),
        ensures
            final(self).wf(),
            slot_ok(final(self).chars@, *final(slot)),
            same_input(*final(self), *old(self)),
            (final(self).st(), slot_view(*final(slot))) == brk(
                old(self).chars@,
                old(self).options,
                old(self).st(),
                slot_view(*old(slot)),
                close,
            ),
            old(self).pos < final(self).pos,
        decreases old(self).chars@.len() - old(self).pos, 0nat,
    {
        self.pos = self.pos + 1;
        self.scan_hole_balanced_text(close, slot);
        if self.peek() == Some(close) {
            self.pos = self.pos + 1;
        }
        proof {
            reveal(brk_close);
        }
    }

    /// Records a closing bracket that does not end the hole and moves past it.
    fn close_mismatch(&mut self, ending: char, slot: &mut Option<LexerDiagnostic>)
        requires
            old(self).wf(),
            slot_ok(old(self).chars@, *old(slot)),
            old(self).pos < old(self).chars@.len(),
            (old(self).chars@[old(self).pos as int] as u32) < 0x7F,
        ensures
            final(self).wf(),
            slot_ok(final(self).chars@, *final(slot)),
            same_input(*final(self), *old(self)),
            final(self).st() == at_pos(old(self).st(), old(self).pos + 1),
            slot_view(*final(slot)) == try_set(
                slot_view(*old(slot)),
                diag(
                    ErrorCode::ErrSyntaxError,
                    boff(old(self).chars@, old(self).pos as int) as int,
                    1,
                    seq![seq![ending]],
                ),
            ),
    {
        let p = self.pos;
        let start = self.byte_of[p];
        proof {
            lemma_boff_step(self.chars@, p as int);
            assert(self.byte_of@[p + 1] <= self.byte_of@[self.chars@.len() as int]);
            assert(self.byte_of@[self.chars@.len() as int] == boff(
                self.chars@,
                self.chars@.len() as int,
            ));
        }
        let ev = vec![ending];
        proof {
            assert(ev@ =~= seq![ending]);
        }
        let text = crate::text::string_from_chars(&ev);
        let args = vec![text];
        let d = LexerDiagnostic {
            code: ErrorCode::ErrSyntaxError,
            start,
            width: 1,
            arguments: args,
            is_warning: false,
        };
        proof {
            assert(d@.arguments =~= seq![seq![ending]]);
        }
        try_set_error(slot, d);
        self.pos = self.pos + 1;
    }

    #[verifier::rlimit(100)]
    fn balanced_step(&mut self, ending: char, slot: &mut Option<LexerDiagnostic>) -> (done: bool)
        requires
            old(self).wf(),
            slot_ok(old(self).chars@, *old(slot)),
        ensures
            final(self).wf(),
            slot_ok(final(self).chars@, *final(slot)),
            same_input(*final(self), *old(self)),
            (done, final(self).st(), slot_view(*final(slot))) == bal_step(
                old(self).chars@,
                old(self).options,
                old(self).st(),
                slot_view(*old(slot)),
                ending,
            ),
            !done ==> old(self).pos < final(self).pos,
            old(self).pos <= final(self).pos,
        decreases old(self).chars@.len() - old(self).pos, 1nat,
    {
        if self.pos >= self.chars.len() {
            return true;
        }
        let c = self.chars[self.pos];
        let p = self.pos;
        if is_newline(c) {
            if p + 1 >= self.chars.len() {
            return true;
            }
            self.pos = self.pos + 1;
            return false;
        }
        if c == '`' {
            self.scan_backtick_string();
            return false;
        }
        if c == ending || c == '}' || c == ')' || c == ']' {
            if c == ending {
            return true;
            }
            self.close_mismatch(ending, slot);
            return false;
        }
        if c == '"' || c == '\'' {
            if slot.is_some() {
            return true;
            }
            self.scan_short_string();
            return false;
        }
        if c == '/' && self.options.accept_c_comment_syntax && self.peek_at(1) == Some('*') {
            self.scan_c_comment();
            return false;
        }
        if c == '-' && self.peek_at(1) == Some('-') {
            self.scan_comment();
            return false;
        }
        if c == '{' {
            self.scan_hole_bracketed('}', slot);
            return false;
        }
        if c == '(' {
            self.scan_hole_bracketed(')', slot);
            return false;
        }
        if c == '[' {
            let n1 = self.peek_at(1);
            if n1 == Some('=') || n1 == Some('[') {
                let _ = self.try_scan_long_string();
            } else {
                self.scan_hole_bracketed(']', slot);
            }
            return false;
        }
        self.pos = self.pos + 1;
        false
    }

    fn scan_hole_balanced_text(&mut self, ending: char, slot: &mut Option<LexerDiagnostic>)
        requires
            old(self).wf(),
            slot_ok(old(self).chars@, *old(slot)),
        ensures
            final(self).wf(),
            slot_ok(final(self).chars@, *final(slot)),
            same_input(*final(self), *old(self)),
            (final(self).st(), slot_view(*final(slot))) == bal(
                old(self).chars@,
                old(self).options,
                old(self).st(),
                slot_view(*old(slot)),
                ending,
            ),
            old(self).pos <= final(self).pos,
        decreases old(self).chars@.len() - old(self).pos, 2nat,
    {
        loop
            invariant
                self.wf(),
                slot_ok(self.chars@, *slot),
                same_input(*self, *old(self)),
                old(self).pos <= self.pos,
                bal(self.chars@, self.options, self.st(), slot_view(*slot), ending) == bal(
                    old(self).chars@,
                    old(self).options,
                    old(self).st(),
                    slot_view(*old(slot)),
                    ending,
                ),
            decreases self.chars@.len() - self.pos,
        {
            let ghost s0 = self.st();
            let ghost sl0 = slot_view(*slot);
            let ghost p0 = self.pos;
            let ghost s0 = self.st();
            let ghost sl0 = slot_view(*slot);
            proof {
                lemma_bal_unfold(self.chars@, self.options, s0, sl0, ending);
            }
            let done = self.balanced_step(ending, slot);
            if done {
                return ;
            }
        }
    }
}

} // verus!
