//! Trivia (comments, long brackets, shebangs), bad characters and the token
//! dispatch.
use vstd::prelude::*;

use crate::errors::errorcode::ErrorCode;
use crate::errors::lexerdiagnostics::backtick::bt;
use crate::errors::lexerdiagnostics::identifiers::identifier;
use crate::errors::lexerdiagnostics::numbers::number;
use crate::errors::lexerdiagnostics::shortstring::short_string;
use crate::errors::lexerdiagnostics::{LexDiag, LexerDiagnostic};
use crate::errors::lexerdiagnostics::scanstate::{is_alpha, is_dec, end_of_line, is_newline, is_ascii_alpha, is_decimal,
    add_diag, at, at_pos, boff, diag, equals_end, err_cur, err_from, is_nl, line_end, same_input,
    start_lexeme, utf8_len, with_only_sb, ScanState, Scanner, lemma_boff_end, lemma_boff_step,
    lemma_char_width, all_in_source, in_source, lemma_utf8_len_encode,
};
use vstd::utf8::encode_utf8;
use crate::luasyntaxoptions::LuaSyntaxOptions;

verus! {

pub proof fn lemma_line_end(cs: Seq<char>, p: int)
    requires
        0 <= p <= cs.len(),
    ensures
        p <= line_end(cs, p) <= cs.len(),
    decreases cs.len() - p,
{
    if p < cs.len() && !is_nl(cs[p]) {
        lemma_line_end(cs, p + 1);
    }
}

pub proof fn lemma_equals_end(cs: Seq<char>, p: int)
    requires
        0 <= p <= cs.len(),
    ensures
        p <= equals_end(cs, p) <= cs.len(),
    decreases cs.len() - p,
{
    if p < cs.len() && cs[p] == '=' {
        lemma_equals_end(cs, p + 1);
    }
}

/// One step in the body of a long bracket with `n` equal signs: whether the
/// body ended, and the state after the step. Without nesting support, an inner
/// `[[` is reported.
#[verifier::opaque]
pub open spec fn long_step(cs: Seq<char>, o: LuaSyntaxOptions, s: ScanState, n: int) -> (bool, ScanState) {
    if !(0 <= s.pos < cs.len()) {
        (true, ScanState { long_term: false, ..s })
    } else {
        let c = cs[s.pos];
        let p = s.pos + 1;
        if c == '[' && !o.accept_nesting_of_long_strings {
            if at(cs, p) == Some('[') {
                (false, err_cur(cs, at_pos(s, p + 1), ErrorCode::ErrLua51NestingInLongString))
            } else {
                (false, at_pos(s, p))
            }
        } else if c == ']' {
            let p2 = equals_end(cs, p);
            if p2 - p != n || at(cs, p2) != Some(']') {
                (false, at_pos(s, p2))
            } else {
                (true, ScanState { pos: p2 + 1, long_term: true, ..s })
            }
        } else {
            (false, at_pos(s, p))
        }
    }
}

/// The body of a long bracket with `n` equal signs: it ends after the
/// matching closing bracket (closed) or at the end of the input (not closed).
pub open spec fn long_body(cs: Seq<char>, o: LuaSyntaxOptions, s: ScanState, n: int) -> ScanState
    decreases cs.len() - s.pos,
{
    let (done, s2) = long_step(cs, o, s, n);
    if done {
        s2
    } else if s.pos < s2.pos <= cs.len() {
        long_body(cs, o, s2, n)
    } else {
        s2
    }
}

/// After a long bracket opener, one line break (`\n`, `\r`, `\r\n` or `\n\r`)
/// is skipped.
#[verifier::opaque]
pub open spec fn skip_leading_newline(cs: Seq<char>, p: int) -> int {
    if at(cs, p) == Some('\n') || at(cs, p) == Some('\r') {
        let c = at(cs, p + 1);
        if (c == Some('\n') || c == Some('\r')) && c != at(cs, p) {
            p + 2
        } else {
            p + 1
        }
    } else {
        p
    }
}

/// A long bracket at `pos`: the character at `pos` is taken as the opening
/// `[`, then `=`* and `[` must follow. Answers whether a long bracket was
/// scanned; `long_term` of the result then says whether it was closed.
#[verifier::opaque]
pub open spec fn try_long(cs: Seq<char>, o: LuaSyntaxOptions, s: ScanState) -> (bool, ScanState) {
    if !(at(cs, s.pos + 1) == Some('=') || at(cs, s.pos + 1) == Some('[')) {
        (false, s)
    } else {
        let p1 = s.pos + 1;
        let p2 = equals_end(cs, p1);
        if at(cs, p2) != Some('[') {
            (false, at_pos(s, p2))
        } else {
            let p3 = skip_leading_newline(cs, p2 + 1);
            (true, long_body(cs, o, at_pos(s, p3), p2 - p1))
        }
    }
}

/// A long bracket right at `pos` (`[`, `=`*, `[`), as `try_long` scans
/// it; anything else there is no long bracket.
#[verifier::opaque]
pub open spec fn try_comment_long(cs: Seq<char>, o: LuaSyntaxOptions, s: ScanState) -> (bool, ScanState) {
    if at(cs, s.pos) == Some('[') {
        try_long(cs, o, s)
    } else {
        (false, s)
    }
}

/// A `--` comment: a long comment when a long bracket (`[`, `=`*, `[`)
/// follows the `--` directly, which is reported when not closed; otherwise
/// the rest of the line.
#[verifier::opaque]
pub open spec fn comment(cs: Seq<char>, o: LuaSyntaxOptions, s: ScanState) -> ScanState {
    let start = s.pos;
    let (is_long, s2) = try_comment_long(cs, o, at_pos(start_lexeme(s), start + 2));
    let s3 = if is_long {
        if !s2.long_term {
            err_from(cs, s2, start, ErrorCode::ErrUnfinishedLongComment)
        } else {
            s2
        }
    } else {
        at_pos(s2, line_end(cs, s2.pos))
    };
    with_only_sb(s3, false)
}

/// The end of a `/* */` comment body starting at `p`, and whether it closed.
pub open spec fn c_comment_end(cs: Seq<char>, p: int) -> (int, bool)
    decreases cs.len() - p,
{
    if !(0 <= p < cs.len()) {
        (p, false)
    } else if cs[p] == '*' && at(cs, p + 1) == Some('/') {
        (p + 2, true)
    } else {
        c_comment_end(cs, p + 1)
    }
}

/// A `/* */` comment; an unclosed one is reported.
#[verifier::opaque]
pub open spec fn c_comment(cs: Seq<char>, o: LuaSyntaxOptions, s: ScanState) -> ScanState {
    let start = s.pos;
    let (p, closed) = c_comment_end(cs, start + 2);
    let s1 = at_pos(start_lexeme(s), p);
    let s2 = if !closed {
        err_from(cs, s1, start, ErrorCode::ErrUnfinishedLongComment)
    } else {
        s1
    };
    with_only_sb(s2, false)
}

/// A long string token; an unclosed one is reported.
#[verifier::opaque]
pub open spec fn long_string_token(cs: Seq<char>, o: LuaSyntaxOptions, s: ScanState) -> ScanState {
    let (is_long, s2) = try_long(cs, o, start_lexeme(s));
    let s3 = if is_long && !s2.long_term {
        err_cur(cs, s2, ErrorCode::ErrUnfinishedString)
    } else {
        s2
    };
    with_only_sb(s3, true)
}

/// A shebang line, reported where shebangs are not accepted.
#[verifier::opaque]
pub open spec fn shebang(cs: Seq<char>, o: LuaSyntaxOptions, s: ScanState) -> ScanState {
    let start = s.pos;
    let s1 = at_pos(start_lexeme(s), line_end(cs, start));
    if !o.accept_shebang {
        err_from(cs, s1, start, ErrorCode::ErrShebangNotSupportedInLuaVersion)
    } else {
        s1
    }
}

/// Past 200 bad characters: the rest of the input is one bad token.
#[verifier::opaque]
pub open spec fn bad_rest(cs: Seq<char>, s: ScanState) -> ScanState {
    let start = s.pos;
    let sb = boff(cs, start);
    let w = utf8_len(cs) - sb;
    add_diag(
        add_diag(
            ScanState { pos: cs.len() as int, bad: s.bad + 1, ..s },
            diag(ErrorCode::ErrBadCharacter, sb as int, w, seq![cs.subrange(start, cs.len() as int)]),
        ),
        diag(ErrorCode::ErrInvalidStatement, sb as int, w, seq![]),
    )
}

/// One bad character: reported one byte wide.
#[verifier::opaque]
pub open spec fn bad_one(cs: Seq<char>, s: ScanState) -> ScanState {
    let start = s.pos;
    let sb = boff(cs, start);
    add_diag(
        add_diag(
            ScanState { pos: start + 1, bad: s.bad + 1, ..s },
            diag(ErrorCode::ErrBadCharacter, sb as int, 1, seq![seq![cs[start]]]),
        ),
        diag(ErrorCode::ErrInvalidStatement, sb as int, 1, seq![]),
    )
}

/// A character no token starts with: a bad character and an invalid
/// statement. Past 200 bad characters, the rest of the input is one bad token.
#[verifier::opaque]
pub open spec fn bad_char(cs: Seq<char>, o: LuaSyntaxOptions, s: ScanState) -> ScanState {
    let s2 = if s.bad > 200 {
        bad_rest(cs, s)
    } else {
        bad_one(cs, s)
    };
    with_only_sb(s2, true)
}

proof fn lemma_c_comment_end(cs: Seq<char>, p: int)
    requires
        0 <= p <= cs.len(),
    ensures
        p <= c_comment_end(cs, p).0 <= cs.len(),
    decreases cs.len() - p,
{
    if p < cs.len() && !(cs[p] == '*' && at(cs, p + 1) == Some('/')) {
        lemma_c_comment_end(cs, p + 1);
    }
}

impl Scanner {
    /// The step of a long bracket body at a `]`.
    fn long_step_close(&mut self, n: usize) -> (done: bool)
        requires
            old(self).wf(),
            at(old(self).chars@, old(self).pos as int) == Some(']'),
        ensures
            final(self).wf(),
            same_input(*final(self), *old(self)),
            (done, final(self).st()) == long_step(
                old(self).chars@,
                old(self).options,
                old(self).st(),
                n as int,
            ),
            !done ==> old(self).pos < final(self).pos,
            old(self).pos <= final(self).pos,
    {
        proof {
            reveal(long_step);
        }
        self.pos = self.pos + 1;
        let ghost p = self.pos as int;
        let count = self.consume_equals();
        let ghost p2 = self.pos as int;
        assert(p2 == equals_end(self.chars@, p));
        if count != n || self.peek() != Some(']') {
            false
        } else {
            self.pos = self.pos + 1;
            self.long_term = true;
            true
        }
    }

    /// The step of a long bracket body at a `[` when nesting is not accepted.
    fn long_step_nested(&mut self, n: usize) -> (done: bool)
        requires
            old(self).wf(),
            at(old(self).chars@, old(self).pos as int) == Some('['),
            !old(self).options.accept_nesting_of_long_strings,
        ensures
            final(self).wf(),
            same_input(*final(self), *old(self)),
            (done, final(self).st()) == long_step(
                old(self).chars@,
                old(self).options,
                old(self).st(),
                n as int,
            ),
            !done ==> old(self).pos < final(self).pos,
            old(self).pos <= final(self).pos,
    {
        proof {
            reveal(long_step);
        }
        self.pos = self.pos + 1;
        if self.peek() == Some('[') {
            self.pos = self.pos + 1;
            self.error_current(ErrorCode::ErrLua51NestingInLongString);
        }
        false
    }

    /// One step of a long bracket body.
    fn long_step_exec(&mut self, n: usize) -> (done: bool)
        requires
            old(self).wf(),
        ensures
            final(self).wf(),
            same_input(*final(self), *old(self)),
            (done, final(self).st()) == long_step(
                old(self).chars@,
                old(self).options,
                old(self).st(),
                n as int,
            ),
            !done ==> old(self).pos < final(self).pos,
            old(self).pos <= final(self).pos,
    {
        let c = self.peek();
        match c {
            None => {
                self.long_term = false;
                proof {
                    reveal(long_step);
                }
                true
            },
            Some(ch) => {
                if ch == '[' && !self.options.accept_nesting_of_long_strings {
                    self.long_step_nested(n)
                } else if ch == ']' {
                    self.long_step_close(n)
                } else {
                    self.pos = self.pos + 1;
                    proof {
                        reveal(long_step);
                    }
                    false
                }
            },
        }
    }

    /// Scans a long bracket body with `n` equal signs.
    fn scan_long_body(&mut self, n: usize)
        requires
            old(self).wf(),
        ensures
            final(self).wf(),
            same_input(*final(self), *old(self)),
            final(self).st() == long_body(
                old(self).chars@,
                old(self).options,
                old(self).st(),
                n as int,
            ),
            final(self).pos >= old(self).pos,
    {
        loop
            invariant
                self.wf(),
                same_input(*self, *old(self)),
                self.pos >= old(self).pos,
                long_body(self.chars@, self.options, self.st(), n as int) == long_body(
                    old(self).chars@,
                    old(self).options,
                    old(self).st(),
                    n as int,
                ),
            decreases self.chars@.len() - self.pos,
        {
            let ghost s0 = self.st();
            let done = self.long_step_exec(n);
            if done {
                return ;
            }
        }
    }

    /// Skips one line break after a long bracket opener.
    fn skip_leading_newline(&mut self)
        requires
            old(self).wf(),
        ensures
            final(self).wf(),
            same_input(*final(self), *old(self)),
            final(self).st() == at_pos(
                old(self).st(),
                skip_leading_newline(old(self).chars@, old(self).pos as int),
            ),
            final(self).pos >= old(self).pos,
    {
        proof {
            reveal(skip_leading_newline);
        }
        let c = self.peek();
        if c == Some('\n') || c == Some('\r') {
            self.pos = self.pos + 1;
            let d = self.peek();
            if (d == Some('\n') || d == Some('\r')) && d != c {
                self.pos = self.pos + 1;
            }
        }
    }

    /// Scans a long bracket whose first `[` is at the current position.
    pub fn try_scan_long_string(&mut self) -> (r: bool)
        requires
            old(self).wf(),
        ensures
            final(self).wf(),
            same_input(*final(self), *old(self)),
            (r, final(self).st()) == try_long(old(self).chars@, old(self).options, old(self).st()),
            final(self).pos >= old(self).pos,
            (at(old(self).chars@, old(self).pos + 1) == Some('=') || at(
                old(self).chars@,
                old(self).pos + 1,
            ) == Some('[')) ==> final(self).pos > old(self).pos,
    {
        proof {
            reveal(try_long);
        }
        let ghost cs = self.chars@;
        let ghost s0 = self.st();
        let c1 = self.peek_at(1);
        if !(c1 == Some('=') || c1 == Some('[')) {
            return false;
        }
        self.pos = self.pos + 1;
        let ghost p1 = self.pos as int;
        let n = self.consume_equals();
        proof {
            lemma_equals_end(cs, p1);
        }
        let ghost p2 = self.pos as int;
        assert(p2 == equals_end(cs, p1));
        if self.peek() != Some('[') {
            assert(self.st() == at_pos(s0, p2));
            return false;
        }
        self.pos = self.pos + 1;
        self.skip_leading_newline();
        let ghost s3 = self.st();
        assert(s3 == at_pos(s0, skip_leading_newline(cs, p2 + 1)));
        self.scan_long_body(n);
        assert(n == p2 - p1);
        true
    }

    /// Scans a long bracket when one starts at the current position.
    pub fn try_scan_comment_long(&mut self) -> (r: bool)
        requires
            old(self).wf(),
        ensures
            final(self).wf(),
            same_input(*final(self), *old(self)),
            (r, final(self).st()) == try_comment_long(old(self).chars@, old(self).options, old(self).st()),
            final(self).pos >= old(self).pos,
    {
        proof {
            reveal(try_comment_long);
        }
        if self.peek() == Some('[') {
            self.try_scan_long_string()
        } else {
            false
        }
    }

    /// Scans a `--` comment.
    pub fn scan_comment(&mut self)
        requires
            old(self).wf(),
            at(old(self).chars@, old(self).pos as int) == Some('-'),
            at(old(self).chars@, old(self).pos + 1) == Some('-'),
        ensures
            final(self).wf(),
            same_input(*final(self), *old(self)),
            final(self).st() == comment(old(self).chars@, old(self).options, old(self).st()),
            final(self).pos > old(self).pos,
    {
        proof {
            reveal(comment);
        }
        let start = self.pos;
        self.lexeme_start = start;
        self.pos = self.pos + 2;
        let is_long = self.try_scan_comment_long();
        if is_long {
            if !self.long_term {
                self.error_from(start, ErrorCode::ErrUnfinishedLongComment);
            }
        } else {
            self.skip_to_line_end();
        }
        self.only_sb = false;
    }

    /// Scans a `/* */` comment.
    pub fn scan_c_comment(&mut self)
        requires
            old(self).wf(),
            at(old(self).chars@, old(self).pos as int) == Some('/'),
            at(old(self).chars@, old(self).pos + 1) == Some('*'),
        ensures
            final(self).wf(),
            same_input(*final(self), *old(self)),
            final(self).st() == c_comment(old(self).chars@, old(self).options, old(self).st()),
            final(self).pos > old(self).pos,
    {
        proof {
            reveal(c_comment);
        }
        let start = self.pos;
        self.lexeme_start = start;
        self.pos = self.pos + 2;
        let mut closed = false;
        while !closed && self.pos < self.chars.len()
            invariant
                self.wf(),
                same_input(*self, *old(self)),
                start == old(self).pos,
                self.pos >= start + 2,
                self.lexeme_start == start,
                self.st() == at_pos(start_lexeme(old(self).st()), self.pos as int),
                closed ==> c_comment_end(self.chars@, start + 2) == (self.pos as int, true),
                !closed ==> c_comment_end(self.chars@, self.pos as int) == c_comment_end(
                    self.chars@,
                    start + 2,
                ),
            decreases self.chars@.len() - self.pos,
        {
            if self.chars[self.pos] == '*' && self.peek_at(1) == Some('/') {
                self.pos = self.pos + 2;
                closed = true;
            } else {
                self.pos = self.pos + 1;
            }
        }
        if !closed {
            self.error_from(start, ErrorCode::ErrUnfinishedLongComment);
        }
        self.only_sb = false;
    }

    /// Scans a long string token.
    pub fn scan_long_string_token(&mut self)
        requires
            old(self).wf(),
            at(old(self).chars@, old(self).pos + 1) == Some('=') || at(
                old(self).chars@,
                old(self).pos + 1,
            ) == Some('['),
        ensures
            final(self).wf(),
            same_input(*final(self), *old(self)),
            final(self).st() == long_string_token(
                old(self).chars@,
                old(self).options,
                old(self).st(),
            ),
            final(self).pos > old(self).pos,
    {
        proof {
            reveal(long_string_token);
        }
        self.lexeme_start = self.pos;
        if self.try_scan_long_string() && !self.long_term {
            self.error_current(ErrorCode::ErrUnfinishedString);
        }
        self.only_sb = true;
    }

    /// Scans a shebang line.
    pub fn scan_shebang(&mut self)
        requires
            old(self).wf(),
            at(old(self).chars@, old(self).pos as int) == Some('#'),
        ensures
            final(self).wf(),
            same_input(*final(self), *old(self)),
            final(self).st() == shebang(old(self).chars@, old(self).options, old(self).st()),
            final(self).pos > old(self).pos,
    {
        proof {
            reveal(shebang);
        }
        let start = self.pos;
        self.lexeme_start = start;
        self.skip_to_line_end();
        if !self.options.accept_shebang {
            self.error_from(start, ErrorCode::ErrShebangNotSupportedInLuaVersion);
        }
    }

    /// The characters from `start` to the end, as a string.
    fn rest_from(&self, start: usize) -> (r: String)
        requires
            self.wf(),
            start <= self.chars@.len(),
        ensures
            r@ == self.chars@.subrange(start as int, self.chars@.len() as int),
    {
        let mut v: Vec<char> = Vec::new();
        let mut i: usize = start;
        while i < self.chars.len()
            invariant
                start <= i <= self.chars@.len(),
                v@ == self.chars@.subrange(start as int, i as int),
            decreases self.chars@.len() - i,
        {
            v.push(self.chars[i]);
            i = i + 1;
            proof {
                assert(v@ =~= self.chars@.subrange(start as int, i as int));
            }
        }
        crate::text::string_from_chars(&v)
    }

    /// Reports the rest of the input as one bad token.
    fn scan_bad_rest(&mut self)
        requires
            old(self).wf(),
            old(self).pos < old(self).chars@.len(),
            old(self).bad <= old(self).pos,
        ensures
            final(self).wf(),
            same_input(*final(self), *old(self)),
            final(self).st() == bad_rest(old(self).chars@, old(self).st()),
            final(self).pos > old(self).pos,
    {
        proof {
            reveal(bad_rest);
        }
        let start = self.pos;
        let start_byte = self.byte_of[start];
        let text = self.rest_from(start);
        let len = self.chars.len();
        proof {
            lemma_boff_end(self.chars@);
        }
        let width = self.byte_of[len] - start_byte;
        proof {
            assert(self.byte_of@[len as int] == boff(self.chars@, len as int));
        }
        self.pos = len;
        self.bad = self.bad + 1;
        let args = vec![text];
        proof {
            assert(args@.map_values(|a: String| a@) =~= seq![
                self.chars@.subrange(start as int, len as int),
            ]);
        }
        self.error_at(ErrorCode::ErrBadCharacter, start_byte, width, args);
        let none: Vec<String> = Vec::new();
        proof {
            assert(none@.map_values(|a: String| a@) =~= seq![]);
        }
        self.error_at(ErrorCode::ErrInvalidStatement, start_byte, width, none);
    }

    /// Reports one bad character.
    fn scan_bad_one(&mut self)
        requires
            old(self).wf(),
            old(self).pos < old(self).chars@.len(),
        ensures
            final(self).wf(),
            same_input(*final(self), *old(self)),
            final(self).st() == bad_one(old(self).chars@, old(self).st()),
            final(self).pos > old(self).pos,
    {
        proof {
            reveal(bad_one);
        }
        let start = self.pos;
        let start_byte = self.byte_of[start];
        let c = self.chars[start];
        proof {
            lemma_boff_step(self.chars@, start as int);
            lemma_char_width(c);
            assert(self.byte_of@[start + 1] <= self.byte_of@[self.chars@.len() as int]);
            assert(self.byte_of@[self.chars@.len() as int] == boff(
                self.chars@,
                self.chars@.len() as int,
            ));
        }
        self.pos = self.pos + 1;
        self.bad = self.bad + 1;
        let cv = vec![c];
        proof {
            assert(cv@ =~= seq![c]);
        }
        let text = crate::text::string_from_chars(&cv);
        let args = vec![text];
        proof {
            assert(args@.map_values(|a: String| a@) =~= seq![seq![c]]);
        }
        self.error_at(ErrorCode::ErrBadCharacter, start_byte, 1, args);
        let none: Vec<String> = Vec::new();
        proof {
            assert(none@.map_values(|a: String| a@) =~= seq![]);
        }
        self.error_at(ErrorCode::ErrInvalidStatement, start_byte, 1, none);
    }

    /// Scans a bad character.
    pub fn scan_other(&mut self)
        requires
            old(self).wf(),
            old(self).pos < old(self).chars@.len(),
        ensures
            final(self).wf(),
            same_input(*final(self), *old(self)),
            final(self).st() == bad_char(old(self).chars@, old(self).options, old(self).st()),
            final(self).pos > old(self).pos,
    {
        proof {
            reveal(bad_char);
        }
        if self.bad > 200 {
            self.scan_bad_rest();
        } else {
            self.scan_bad_one();
        }
        self.only_sb = true;
    }

    /// Scans `<`, or `<<`, which is reported where bitwise operators are not
    /// accepted.
    fn scan_less_than(&mut self)
        requires
            old(self).wf(),
            old(self).pos < old(self).chars@.len(),
        ensures
            final(self).wf(),
            same_input(*final(self), *old(self)),
            final(self).st() == less_than(old(self).chars@, old(self).options, old(self).st()),
            final(self).pos > old(self).pos,
    {
        let p = self.pos;
        self.pos = self.pos + 1;
        if self.peek() == Some('<') {
            self.pos = self.pos + 1;
            if !self.options.accept_bitwise_operators {
                let start = self.byte_of[p];
                proof {
                    lemma_boff_step(self.chars@, p as int);
                    lemma_boff_step(self.chars@, p + 1);
                    assert(self.byte_of@[p + 2] <= self.byte_of@[self.chars@.len() as int]);
                    assert(self.byte_of@[self.chars@.len() as int] == boff(
                        self.chars@,
                        self.chars@.len() as int,
                    ));
                }
                let none: Vec<String> = Vec::new();
                proof {
                    assert(none@.map_values(|a: String| a@) =~= seq![]);
                }
                self.error_at(ErrorCode::ErrBitwiseOperatorsNotSupportedInVersion, start, 2, none);
            }
        }
        self.only_sb = true;
        proof {
            reveal(less_than);
        }
    }

    /// Scans trivia, a long string or a shebang at the current position.
    fn trivia_step_exec(&mut self)
        requires
            old(self).wf(),
            old(self).pos < old(self).chars@.len(),
            starts_trivia(old(self).chars@, old(self).options, old(self).st()),
        ensures
            final(self).wf(),
            same_input(*final(self), *old(self)),
            final(self).st() == trivia_step(old(self).chars@, old(self).options, old(self).st()),
            final(self).pos > old(self).pos,
    {
        let c = self.chars[self.pos];
        let n1 = self.peek_at(1);
        if c == ' ' || c == '\t' {
            self.pos = self.pos + 1;
        } else if c == '\u{0B}' || c == '\u{0C}' {
            self.pos = self.pos + 1;
            self.only_sb = false;
        } else if is_newline(c) {
            self.scan_end_of_line();
        } else if c == '-' && n1 == Some('-') {
            self.scan_comment();
        } else if c == '/' && n1 == Some('*') && self.options.accept_c_comment_syntax {
            self.scan_c_comment();
        } else if c == '[' && (n1 == Some('=') || n1 == Some('[')) {
            self.scan_long_string_token();
        } else {
            proof {
                reveal(starts_trivia);
            }
            self.scan_shebang();
        }
        proof {
            reveal(trivia_step);
        }
    }

    /// Scans a token at the current position.
    fn token_step_exec(&mut self)
        requires
            old(self).wf(),
            old(self).pos < old(self).chars@.len(),
        ensures
            final(self).wf(),
            same_input(*final(self), *old(self)),
            final(self).st() == token_step(old(self).chars@, old(self).options, old(self).st()),
            final(self).pos > old(self).pos,
    {
        let c = self.chars[self.pos];
        if c == '"' || c == '\'' {
            self.scan_short_string();
        } else if c == '`' {
            self.scan_backtick_string();
        } else if is_decimal(c) {
            self.scan_number();
        } else if is_ascii_alpha(c) || c == '_' || (c as u32) >= 0x7F {
            self.scan_identifier();
        } else if c == '&' || c == '|' || c == '#' || c == '+' || c == '-' || c == '*' || c == '/'
            || c == '^' || c == '=' || c == '~' || c == '%' || c == ',' || c == '.' || c == ':'
            || c == ';' || c == '?' || c == '!' || c == '(' || c == ')' || c == '[' || c == ']'
            || c == '{' || c == '}' || c == '>' {
            self.pos = self.pos + 1;
            self.only_sb = true;
        } else if c == '<' {
            self.scan_less_than();
        } else {
            self.scan_other();
        }
        proof {
            reveal(token_step);
        }
    }

    /// Scans what starts at the current position.
    fn lex_step_exec(&mut self)
        requires
            old(self).wf(),
            old(self).pos < old(self).chars@.len(),
        ensures
            final(self).wf(),
            same_input(*final(self), *old(self)),
            final(self).st() == lex_step(old(self).chars@, old(self).options, old(self).st()),
            final(self).pos > old(self).pos,
    {
        let c = self.chars[self.pos];
        let n1 = self.peek_at(1);
        let trivia = c == ' ' || c == '\t' || c == '\u{0B}' || c == '\u{0C}' || is_newline(c) || (c
            == '-' && n1 == Some('-')) || (c == '/' && n1 == Some('*')
            && self.options.accept_c_comment_syntax) || (c == '[' && (n1 == Some('=') || n1 == Some(
            '[',
        ))) || (c == '#' && self.only_sb && n1 == Some('!'));
        proof {
            reveal(starts_trivia);
        }
        if trivia {
            self.trivia_step_exec();
        } else {
            self.token_step_exec();
        }
        proof {
            reveal(lex_step);
        }
    }
}

/// `<` or `<<`; the latter is reported, over its two bytes, where bitwise
/// operators are not accepted.
#[verifier::opaque]
pub open spec fn less_than(cs: Seq<char>, o: LuaSyntaxOptions, s: ScanState) -> ScanState {
    let p = s.pos;
    let s1 = if at(cs, p + 1) == Some('<') {
        if !o.accept_bitwise_operators {
            add_diag(
                at_pos(s, p + 2),
                diag(ErrorCode::ErrBitwiseOperatorsNotSupportedInVersion, boff(cs, p) as int, 2, seq![]),
            )
        } else {
            at_pos(s, p + 2)
        }
    } else {
        at_pos(s, p + 1)
    };
    with_only_sb(s1, true)
}

/// Whether trivia, a long string or a shebang starts at `pos`: spaces, tabs,
/// vertical tabs, form feeds, line breaks, `--`, `/*` where C comments are
/// accepted, a long bracket opener, or `#!` where only shebangs and line
/// breaks were seen.
#[verifier::opaque]
pub open spec fn starts_trivia(cs: Seq<char>, o: LuaSyntaxOptions, s: ScanState) -> bool {
    let c = cs[s.pos];
    let n1 = at(cs, s.pos + 1);
    c == ' ' || c == '\t' || c == '\u{0B}' || c == '\u{0C}' || is_nl(c) || (c == '-' && n1 == Some('-'))
        || (c == '/' && n1 == Some('*') && o.accept_c_comment_syntax) || (c == '[' && (n1 == Some('=')
        || n1 == Some('['))) || (c == '#' && s.only_sb && n1 == Some('!'))
}

/// Trivia, a long string or a shebang. Spaces and tabs keep the shebang
/// guard; vertical tabs and form feeds clear it.
#[verifier::opaque]
pub open spec fn trivia_step(cs: Seq<char>, o: LuaSyntaxOptions, s: ScanState) -> ScanState {
    let p = s.pos;
    let c = cs[p];
    let n1 = at(cs, p + 1);
    if c == ' ' || c == '\t' {
        at_pos(s, p + 1)
    } else if c == '\u{0B}' || c == '\u{0C}' {
        with_only_sb(at_pos(s, p + 1), false)
    } else if is_nl(c) {
        end_of_line(cs, s)
    } else if c == '-' && n1 == Some('-') {
        comment(cs, o, s)
    } else if c == '/' && n1 == Some('*') && o.accept_c_comment_syntax {
        c_comment(cs, o, s)
    } else if c == '[' && (n1 == Some('=') || n1 == Some('[')) {
        long_string_token(cs, o, s)
    } else {
        shebang(cs, o, s)
    }
}

/// The characters that make a token on their own (`<` aside).
pub open spec fn is_symbol(c: char) -> bool {
    c == '&' || c == '|' || c == '#' || c == '+' || c == '-' || c == '*' || c == '/' || c == '^'
        || c == '=' || c == '~' || c == '%' || c == ',' || c == '.' || c == ':' || c == ';' || c
        == '?' || c == '!' || c == '(' || c == ')' || c == '[' || c == ']' || c == '{' || c == '}'
        || c == '>'
}

/// A token: a string, an interpolated string, a number, an identifier, a
/// symbol, `<`/`<<`, or a bad character. Every token re-arms the shebang guard.
#[verifier::opaque]
pub open spec fn token_step(cs: Seq<char>, o: LuaSyntaxOptions, s: ScanState) -> ScanState {
    let c = cs[s.pos];
    if c == '"' || c == '\'' {
        short_string(cs, o, s)
    } else if c == '`' {
        bt(cs, o, s)
    } else if is_dec(c) {
        number(cs, o, s)
    } else if is_alpha(c) || c == '_' || (c as u32) >= 0x7F {
        identifier(cs, o, s)
    } else if is_symbol(c) {
        with_only_sb(at_pos(s, s.pos + 1), true)
    } else if c == '<' {
        less_than(cs, o, s)
    } else {
        bad_char(cs, o, s)
    }
}

/// What starts at `pos`.
#[verifier::opaque]
pub open spec fn lex_step(cs: Seq<char>, o: LuaSyntaxOptions, s: ScanState) -> ScanState {
    if starts_trivia(cs, o, s) {
        trivia_step(cs, o, s)
    } else {
        token_step(cs, o, s)
    }
}

/// The scan from `s` to the end of the input.
pub open spec fn lex_from(cs: Seq<char>, o: LuaSyntaxOptions, s: ScanState) -> ScanState
    decreases cs.len() - s.pos,
{
    if 0 <= s.pos < cs.len() {
        let s2 = lex_step(cs, o, s);
        if s.pos < s2.pos <= cs.len() {
            lex_from(cs, o, s2)
        } else {
            s2
        }
    } else {
        s
    }
}

/// The state at the start of the input.
pub open spec fn initial_scan() -> ScanState {
    ScanState { pos: 0, lexeme_start: 0, diags: seq![], only_sb: true, bad: 0, long_term: false }
}

/// The lexer diagnostics of `cs` under `o`, in the order they are reported.
pub open spec fn lexer_diagnostics_spec(cs: Seq<char>, o: LuaSyntaxOptions) -> Seq<LexDiag> {
    lex_from(cs, o, initial_scan()).diags
}

/// Scans the source and produces the lexer diagnostics for the options.
/// Every diagnostic's span ends within the source's bytes, a diagnostic is
/// a warning exactly when its code is the line-break warning, and the empty
/// source has none.
pub fn lexer_diagnostics(source: &str, options: &LuaSyntaxOptions) -> (r: Vec<LexerDiagnostic>)
    ensures
        r@.map_values(|d: LexerDiagnostic| d@) == lexer_diagnostics_spec(source@, *options),
        forall|k: int|
            0 <= k < r@.len() ==> #[trigger] r@[k].start + r@[k].width <= encode_utf8(source@).len(),
        forall|k: int|
            0 <= k < r@.len() ==> #[trigger] r@[k].is_warning == (r@[k].code
                == ErrorCode::WrnLineBreakMayAffectErrorReporting),
        source@.len() == 0 ==> r@.len() == 0,
{
    let mut s = Scanner::new(source, *options);
    let ghost cs = source@;
    let ghost o = *options;
    while s.pos < s.chars.len()
        invariant
            s.wf(),
            s.chars@ == cs,
            s.options == o,
            lex_from(cs, o, s.st()) == lex_from(cs, o, initial_scan()),
            cs.len() == 0 ==> s.st().diags.len() == 0,
        decreases s.chars@.len() - s.pos,
    {
        s.lex_step_exec();
    }
    proof {
        reveal(all_in_source);
        lemma_boff_end(cs);
        lemma_utf8_len_encode(cs);
        assert forall|k: int| 0 <= k < s.diagnostics@.len() implies #[trigger] s.diagnostics@[k].start
            + s.diagnostics@[k].width <= encode_utf8(source@).len() by {
            assert(in_source(cs, s.diagnostics@[k]));
        }
        assert forall|k: int| 0 <= k < s.diagnostics@.len() implies #[trigger] s.diagnostics@[k].is_warning
            == (s.diagnostics@[k].code == ErrorCode::WrnLineBreakMayAffectErrorReporting) by {
            assert(in_source(cs, s.diagnostics@[k]));
        }
        assert(s.st().diags.len() == s.diagnostics@.len());
    }
    s.diagnostics
}

} // verus!
