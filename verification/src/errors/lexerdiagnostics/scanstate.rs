use vstd::prelude::*;
use vstd::utf8::*;

use crate::errors::errorcode::ErrorCode;
use crate::errors::lexerdiagnostics::{LexDiag, LexerDiagnostic};
use crate::luasyntaxoptions::LuaSyntaxOptions;

verus! {

/// The mathematical state of a scan over a sequence of characters.
pub struct ScanState {
    /// The current character index.
    pub pos: int,
    /// The character index where the current lexeme started.
    pub lexeme_start: int,
    /// The diagnostics produced so far, in order.
    pub diags: Seq<LexDiag>,
    /// Whether only shebangs and line breaks were seen in the current trivia run.
    pub only_sb: bool,
    /// The number of bad characters seen so far.
    pub bad: nat,
    /// Whether the last long bracket scanned was closed.
    pub long_term: bool,
}

/// The number of bytes of the UTF-8 encoding of `c`.
pub open spec fn char_width(c: char) -> nat {
    let u = c as u32;
    if u <= 0x7F {
        1
    } else if u <= 0x7FF {
        2
    } else if u <= 0xFFFF {
        3
    } else {
        4
    }
}

/// The number of bytes of the UTF-8 encoding of `cs`.
#[verifier::opaque]
pub open spec fn utf8_len(cs: Seq<char>) -> nat
    decreases cs.len(),
{
    if cs.len() == 0 {
        0
    } else {
        char_width(cs[0]) + utf8_len(cs.drop_first())
    }
}

/// The byte offset of the character at index `i` (the byte length when `i` is
/// at or past the end).
#[verifier::opaque]
pub open spec fn boff(cs: Seq<char>, i: int) -> nat {
    if i <= 0 {
        0
    } else if i >= cs.len() {
        utf8_len(cs)
    } else {
        utf8_len(cs.take(i))
    }
}

/// The character at index `p`, if any.
pub open spec fn at(cs: Seq<char>, p: int) -> Option<char> {
    if 0 <= p < cs.len() {
        Some(cs[p])
    } else {
        None
    }
}

pub open spec fn is_dec(c: char) -> bool {
    48 <= (c as u32) <= 57
}

pub open spec fn is_hex(c: char) -> bool {
    is_dec(c) || (97 <= (c as u32) <= 102) || (65 <= (c as u32) <= 70)
}

pub open spec fn is_nl(c: char) -> bool {
    c == '\n' || c == '\r'
}

/// Space, tab, line feed, vertical tab, form feed or carriage return.
pub open spec fn is_ws(c: char) -> bool {
    c == ' ' || (9 <= (c as u32) <= 13)
}

pub open spec fn is_alpha(c: char) -> bool {
    (65 <= (c as u32) <= 90) || (97 <= (c as u32) <= 122)
}

/// The value of a decimal digit.
pub open spec fn dec_val(c: char) -> nat {
    ((c as u32) - 48) as nat
}

/// The value of a hexadecimal digit.
pub open spec fn hex_val(c: char) -> nat {
    if is_dec(c) {
        dec_val(c)
    } else if 97 <= (c as u32) <= 102 {
        ((c as u32) - 87) as nat
    } else {
        ((c as u32) - 55) as nat
    }
}

/// A diagnostic record; the line-break code is the only warning.
pub open spec fn diag(code: ErrorCode, start: int, width: int, args: Seq<Seq<char>>) -> LexDiag {
    LexDiag {
        code,
        start: start as nat,
        width: width as nat,
        arguments: args,
        is_warning: code == ErrorCode::WrnLineBreakMayAffectErrorReporting,
    }
}

pub open spec fn add_diag(s: ScanState, d: LexDiag) -> ScanState {
    ScanState { diags: s.diags.push(d), ..s }
}

/// An error spanning from character `from` to the current position.
pub open spec fn err_from(cs: Seq<char>, s: ScanState, from: int, code: ErrorCode) -> ScanState {
    add_diag(s, diag(code, boff(cs, from) as int, boff(cs, s.pos) - boff(cs, from), seq![]))
}

/// An error spanning the current lexeme.
pub open spec fn err_cur(cs: Seq<char>, s: ScanState, code: ErrorCode) -> ScanState {
    err_from(cs, s, s.lexeme_start, code)
}

/// An error spanning from character `from` to the current position, when
/// `cond` holds.
#[verifier::opaque]
pub open spec fn err_if(cs: Seq<char>, s: ScanState, cond: bool, from: int, code: ErrorCode) -> ScanState {
    if cond {
        err_from(cs, s, from, code)
    } else {
        s
    }
}

pub open spec fn at_pos(s: ScanState, p: int) -> ScanState {
    ScanState { pos: p, ..s }
}

pub open spec fn start_lexeme(s: ScanState) -> ScanState {
    ScanState { lexeme_start: s.pos, ..s }
}

pub open spec fn with_only_sb(s: ScanState, b: bool) -> ScanState {
    ScanState { only_sb: b, ..s }
}

/// The index of the first line break (or the end) at or after `p`.
pub open spec fn line_end(cs: Seq<char>, p: int) -> int
    decreases cs.len() - p,
{
    if 0 <= p < cs.len() && !is_nl(cs[p]) {
        line_end(cs, p + 1)
    } else {
        p
    }
}

/// The end of the run of `=` starting at `p`.
pub open spec fn equals_end(cs: Seq<char>, p: int) -> int
    decreases cs.len() - p,
{
    if 0 <= p < cs.len() && cs[p] == '=' {
        equals_end(cs, p + 1)
    } else {
        p
    }
}

/// The end of the run of whitespace starting at `p`.
pub open spec fn ws_end(cs: Seq<char>, p: int) -> int
    decreases cs.len() - p,
{
    if 0 <= p < cs.len() && is_ws(cs[p]) {
        ws_end(cs, p + 1)
    } else {
        p
    }
}

/// A line break: `\n`, `\r`, `\r\n` or `\n\r`; the last one is reported as a
/// warning spanning both characters.
#[verifier::opaque]
pub open spec fn end_of_line(cs: Seq<char>, s: ScanState) -> ScanState {
    let p = s.pos;
    let s1 = start_lexeme(s);
    if at(cs, p) == Some('\n') {
        if at(cs, p + 1) == Some('\r') {
            err_cur(cs, at_pos(s1, p + 2), ErrorCode::WrnLineBreakMayAffectErrorReporting)
        } else {
            at_pos(s1, p + 1)
        }
    } else if at(cs, p) == Some('\r') {
        if at(cs, p + 1) == Some('\n') {
            at_pos(s1, p + 2)
        } else {
            at_pos(s1, p + 1)
        }
    } else {
        s1
    }
}

pub proof fn lemma_char_width(c: char)
    ensures
        encode_scalar(c as u32).len() == char_width(c),
        1 <= char_width(c) <= 4,
{
    char_is_scalar(c);
}

pub proof fn lemma_utf8_len_encode(cs: Seq<char>)
    ensures
        utf8_len(cs) == encode_utf8(cs).len(),
    decreases cs.len(),
{
    reveal(utf8_len);
    if cs.len() > 0 {
        lemma_utf8_len_encode(cs.drop_first());
        lemma_char_width(cs[0]);
    }
}

pub proof fn lemma_utf8_len_append(a: Seq<char>, b: Seq<char>)
    ensures
        utf8_len(a + b) == utf8_len(a) + utf8_len(b),
    decreases a.len(),
{
    reveal(utf8_len);
    if a.len() == 0 {
        assert(a + b =~= b);
    } else {
        assert((a + b).drop_first() =~= a.drop_first() + b);
        assert((a + b)[0] == a[0]);
        lemma_utf8_len_append(a.drop_first(), b);
    }
}

/// The offset of the next character adds the width of this one.
pub proof fn lemma_boff_step(cs: Seq<char>, i: int)
    requires
        0 <= i < cs.len(),
    ensures
        boff(cs, i + 1) == boff(cs, i) + char_width(cs[i]),
{
    reveal(utf8_len);
    reveal(boff);
    assert(cs.take(i + 1) =~= cs.take(i) + seq![cs[i]]);
    lemma_utf8_len_append(cs.take(i), seq![cs[i]]);
    assert(seq![cs[i]].drop_first() =~= Seq::<char>::empty());
    assert(utf8_len(Seq::<char>::empty()) == 0);
    assert(utf8_len(seq![cs[i]]) == char_width(cs[i]));
    assert(cs.take(cs.len() as int) =~= cs);
    assert(cs.take(0) =~= Seq::<char>::empty());
    if i + 1 == cs.len() {
        assert(boff(cs, i + 1) == utf8_len(cs.take(i + 1)));
    }
    if i == 0 {
        assert(boff(cs, i) == utf8_len(cs.take(i)));
    }
}

/// The offset past the last character is the byte length.
pub proof fn lemma_boff_end(cs: Seq<char>)
    ensures
        boff(cs, cs.len() as int) == utf8_len(cs),
        boff(cs, 0) == 0,
{
    reveal(boff);
    reveal(utf8_len);
}

/// Offsets grow with the index.
pub proof fn lemma_boff_mono(cs: Seq<char>, i: int, j: int)
    requires
        0 <= i <= j <= cs.len(),
    ensures
        boff(cs, i) <= boff(cs, j),
{
    reveal(utf8_len);
    reveal(boff);
    assert(cs.take(j) =~= cs.take(i) + cs.subrange(i, j));
    lemma_utf8_len_append(cs.take(i), cs.subrange(i, j));
    assert(cs.take(cs.len() as int) =~= cs);
    assert(cs.take(0) =~= Seq::<char>::empty());
}

pub fn is_decimal(c: char) -> (r: bool)
    ensures
        r == is_dec(c),
{
    let u = c as u32;
    48 <= u && u <= 57
}

pub fn is_hexadecimal(c: char) -> (r: bool)
    ensures
        r == is_hex(c),
{
    let u = c as u32;
    (48 <= u && u <= 57) || (97 <= u && u <= 102) || (65 <= u && u <= 70)
}

pub fn is_newline(c: char) -> (r: bool)
    ensures
        r == is_nl(c),
{
    c == '\n' || c == '\r'
}

pub fn is_whitespace(c: char) -> (r: bool)
    ensures
        r == is_ws(c),
{
    let u = c as u32;
    c == ' ' || (9 <= u && u <= 13)
}

pub fn is_ascii_alpha(c: char) -> (r: bool)
    ensures
        r == is_alpha(c),
{
    let u = c as u32;
    (65 <= u && u <= 90) || (97 <= u && u <= 122)
}

pub fn decimal_value(c: char) -> (r: u64)
    requires
        is_dec(c),
    ensures
        r == dec_val(c),
{
    (c as u32 - 48) as u64
}

pub fn hexadecimal_value(c: char) -> (r: u64)
    requires
        is_hex(c),
    ensures
        r == hex_val(c),
        r < 16,
{
    let u = c as u32;
    if 48 <= u && u <= 57 {
        (u - 48) as u64
    } else if 97 <= u && u <= 102 {
        (u - 87) as u64
    } else {
        (u - 55) as u64
    }
}

/// The number of UTF-8 bytes of `c`.
pub fn utf8_width(c: char) -> (r: usize)
    ensures
        r == char_width(c),
{
    let u = c as u32;
    if u <= 0x7F {
        1
    } else if u <= 0x7FF {
        2
    } else if u <= 0xFFFF {
        3
    } else {
        4
    }
}

/// The scanner: the input, the byte offset of every character, and the state.
pub struct Scanner {
    pub chars: Vec<char>,
    pub byte_of: Vec<usize>,
    pub pos: usize,
    pub lexeme_start: usize,
    pub diagnostics: Vec<LexerDiagnostic>,
    pub options: LuaSyntaxOptions,
    pub only_sb: bool,
    pub bad: usize,
    pub long_term: bool,
}

/// The input of two scanners is the same.
/// The diagnostic's span ends within the source's bytes, and it is a
/// warning exactly when its code is the line-break warning.
pub open spec fn in_source(cs: Seq<char>, d: LexerDiagnostic) -> bool {
    &&& d.start + d.width <= boff(cs, cs.len() as int)
    &&& d.is_warning == (d.code == ErrorCode::WrnLineBreakMayAffectErrorReporting)
}

/// Every diagnostic's span ends within the source's bytes.
#[verifier::opaque]
pub open spec fn all_in_source(cs: Seq<char>, ds: Seq<LexerDiagnostic>) -> bool {
    forall|k: int| 0 <= k < ds.len() ==> #[trigger] in_source(cs, ds[k])
}

pub open spec fn same_input(a: Scanner, b: Scanner) -> bool {
    &&& a.chars@ == b.chars@
    &&& a.byte_of@ == b.byte_of@
    &&& a.options == b.options
}

impl Scanner {
    pub open spec fn wf(&self) -> bool {
        &&& self.byte_of@.len() == self.chars@.len() + 1
        &&& forall|i: int|
            0 <= i <= self.chars@.len() ==> #[trigger] self.byte_of@[i] == boff(self.chars@, i)
        &&& forall|i: int, j: int|
            0 <= i <= j <= self.chars@.len() ==> #[trigger] self.byte_of@[i]
                <= #[trigger] self.byte_of@[j]
        &&& self.chars@.len() <= usize::MAX
        &&& all_in_source(self.chars@, self.diagnostics@)
        &&& self.pos <= self.chars@.len()
        &&& self.lexeme_start <= self.pos
        &&& self.bad <= self.pos
    }

    pub open spec fn st(&self) -> ScanState {
        ScanState {
            pos: self.pos as int,
            lexeme_start: self.lexeme_start as int,
            diags: self.diagnostics@.map_values(|d: LexerDiagnostic| d@),
            only_sb: self.only_sb,
            bad: self.bad as nat,
            long_term: self.long_term,
        }
    }

    /// A scanner at the start of `source`.
    pub fn new(source: &str, options: LuaSyntaxOptions) -> (r: Scanner)
        ensures
            r.wf(),
            r.chars@ == source@,
            r.options == options,
            r.st() == (ScanState {
                pos: 0,
                lexeme_start: 0,
                diags: seq![],
                only_sb: true,
                bad: 0,
                long_term: false,
            }),
    {
        let chars = crate::text::str_chars(source);
        let total: usize = source.as_bytes().len();
        proof {
            reveal(boff);
            assert(total == encode_utf8(source@).len());
            lemma_utf8_len_encode(source@);
            assert(chars@.take(chars@.len() as int) =~= chars@);
        }
        let mut byte_of: Vec<usize> = Vec::new();
        let mut offset: usize = 0;
        let mut i: usize = 0;
        while i < chars.len()
            invariant
                i <= chars@.len(),
                chars@ == source@,
                total == utf8_len(chars@),
                byte_of@.len() == i,
                forall|k: int| 0 <= k < i ==> #[trigger] byte_of@[k] == boff(chars@, k),
                offset == boff(chars@, i as int),
            decreases chars@.len() - i,
        {
            byte_of.push(offset);
            proof {
                lemma_boff_step(chars@, i as int);
                lemma_boff_mono(chars@, i + 1, chars@.len() as int);
            lemma_boff_end(chars@);
                lemma_char_width(chars@[i as int]);
            }
            offset = offset + utf8_width(chars[i]);
            i = i + 1;
        }
        byte_of.push(offset);
        let r = Scanner {
            chars,
            byte_of,
            pos: 0,
            lexeme_start: 0,
            diagnostics: Vec::new(),
            options,
            only_sb: true,
            bad: 0,
            long_term: false,
        };
        proof {
            assert forall|a: int, b: int|
                0 <= a <= b <= r.chars@.len() implies #[trigger] r.byte_of@[a]
                <= #[trigger] r.byte_of@[b] by {
                lemma_boff_mono(r.chars@, a, b);
            }
            assert(r.st().diags =~= seq![]);
            reveal(all_in_source);
        }
        r
    }

    pub fn peek(&self) -> (r: Option<char>)
        requires
            self.wf(),
        ensures
            r == at(self.chars@, self.pos as int),
    {
        if self.pos < self.chars.len() {
            Some(self.chars[self.pos])
        } else {
            None
        }
    }

    pub fn peek_at(&self, delta: usize) -> (r: Option<char>)
        requires
            self.wf(),
        ensures
            r == at(self.chars@, self.pos + delta),
    {
        if delta < self.chars.len() - self.pos {
            Some(self.chars[self.pos + delta])
        } else {
            None
        }
    }

    pub fn at_end(&self) -> (r: bool)
        requires
            self.wf(),
        ensures
            r == (self.pos >= self.chars@.len()),
    {
        self.pos >= self.chars.len()
    }

    /// The byte offset of the character at `index`.
    pub fn byte_of_char(&self, index: usize) -> (r: usize)
        requires
            self.wf(),
            index <= self.chars@.len(),
        ensures
            r == boff(self.chars@, index as int),
    {
        self.byte_of[index]
    }

    /// Records a diagnostic.
    pub fn error_at(&mut self, code: ErrorCode, start: usize, width: usize, args: Vec<String>)
        requires
            old(self).wf(),
            start + width <= boff(old(self).chars@, old(self).chars@.len() as int),
        ensures
            final(self).wf(),
            same_input(*final(self), *old(self)),
            final(self).st() == add_diag(
                old(self).st(),
                diag(code, start as int, width as int, args@.map_values(|a: String| a@)),
            ),
    {
        let is_warning = code == ErrorCode::WrnLineBreakMayAffectErrorReporting;
        let d = LexerDiagnostic { code, start, width, arguments: args, is_warning };
        self.diagnostics.push(d);
        proof {
            assert(self.st().diags =~= old(self).st().diags.push(d@));
            reveal(all_in_source);
            assert(forall|k: int|
                0 <= k < self.diagnostics@.len() - 1 ==> self.diagnostics@[k] == old(self).diagnostics@[k]);
        }
    }

    /// Records an error spanning from character `from` to the current position.
    pub fn error_from(&mut self, from: usize, code: ErrorCode)
        requires
            old(self).wf(),
            from <= old(self).pos,
        ensures
            final(self).wf(),
            same_input(*final(self), *old(self)),
            final(self).st() == err_from(old(self).chars@, old(self).st(), from as int, code),
    {
        let start = self.byte_of[from];
        let end = self.byte_of[self.pos];
        let args: Vec<String> = Vec::new();
        proof {
            assert(args@.map_values(|a: String| a@) =~= seq![]);
            assert(self.byte_of@[self.pos as int] <= self.byte_of@[self.chars@.len() as int]);
            assert(self.byte_of@[self.chars@.len() as int] == boff(self.chars@, self.chars@.len() as int));
        }
        self.error_at(code, start, end - start, args);
    }

    /// Records an error spanning from character `from` to the current
    /// position, when `cond` holds.
    pub fn error_from_if(&mut self, cond: bool, from: usize, code: ErrorCode)
        requires
            old(self).wf(),
            from <= old(self).pos,
        ensures
            final(self).wf(),
            same_input(*final(self), *old(self)),
            final(self).st() == err_if(old(self).chars@, old(self).st(), cond, from as int, code),
            final(self).pos == old(self).pos,
            final(self).lexeme_start == old(self).lexeme_start,
    {
        proof {
            reveal(err_if);
        }
        if cond {
            self.error_from(from, code);
        }
    }

    /// Records an error spanning the current lexeme.
    pub fn error_current(&mut self, code: ErrorCode)
        requires
            old(self).wf(),
        ensures
            final(self).wf(),
            same_input(*final(self), *old(self)),
            final(self).st() == err_cur(old(self).chars@, old(self).st(), code),
    {
        let from = self.lexeme_start;
        self.error_from(from, code);
    }

    /// Scans one line break.
    pub fn scan_end_of_line(&mut self)
        requires
            old(self).wf(),
        ensures
            final(self).wf(),
            same_input(*final(self), *old(self)),
            final(self).st() == end_of_line(old(self).chars@, old(self).st()),
            (old(self).pos < old(self).chars@.len() && is_nl(old(self).chars@[old(self).pos as int])) ==> final(self).pos > old(self).pos,
    {
        self.lexeme_start = self.pos;
        match self.peek() {
            Some('\n') => {
                self.pos = self.pos + 1;
                if self.peek() == Some('\r') {
                    self.pos = self.pos + 1;
                    self.error_current(ErrorCode::WrnLineBreakMayAffectErrorReporting);
                }
            },
            Some('\r') => {
                self.pos = self.pos + 1;
                if self.peek() == Some('\n') {
                    self.pos = self.pos + 1;
                }
            },
            _ => {},
        }
        proof {
            reveal(end_of_line);
        }
    }

    /// Moves past the line's remaining characters.
    pub fn skip_to_line_end(&mut self)
        requires
            old(self).wf(),
        ensures
            final(self).wf(),
            same_input(*final(self), *old(self)),
            final(self).st() == at_pos(old(self).st(), line_end(old(self).chars@, old(self).pos as int)),
            final(self).pos >= old(self).pos,
            (old(self).pos < old(self).chars@.len() && !is_nl(old(self).chars@[old(self).pos as int]))
                ==> final(self).pos > old(self).pos,
    {
        while self.pos < self.chars.len() && !is_newline(self.chars[self.pos])
            invariant
                self.wf(),
                self.pos >= old(self).pos,
                same_input(*self, *old(self)),
                self.st() == at_pos(old(self).st(), self.pos as int),
                line_end(self.chars@, self.pos as int) == line_end(old(self).chars@, old(self).pos as int),
            decreases self.chars@.len() - self.pos,
        {
            self.pos = self.pos + 1;
        }
    }

    /// Moves past a run of `=` and returns its length.
    pub fn consume_equals(&mut self) -> (n: usize)
        requires
            old(self).wf(),
        ensures
            final(self).wf(),
            same_input(*final(self), *old(self)),
            final(self).st() == at_pos(old(self).st(), equals_end(old(self).chars@, old(self).pos as int)),
            n == final(self).pos - old(self).pos,
            final(self).pos >= old(self).pos,
    {
        let start = self.pos;
        while self.pos < self.chars.len() && self.chars[self.pos] == '='
            invariant
                self.wf(),
                same_input(*self, *old(self)),
                start == old(self).pos,
                start <= self.pos,
                self.st() == at_pos(old(self).st(), self.pos as int),
                equals_end(self.chars@, self.pos as int) == equals_end(old(self).chars@, old(self).pos as int),
            decreases self.chars@.len() - self.pos,
        {
            self.pos = self.pos + 1;
        }
        self.pos - start
    }
}

} // verus!
