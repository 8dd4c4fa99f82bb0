//! The text rules of the statement diagnostics: where a statement's span
//! ends when a semicolon (after trivia) belongs to it, and the ordering of
//! the diagnostics by position.
use vstd::prelude::*;
use vstd::string::StringSliceAdditionalSpecFns;

use crate::errors::errorcode::ErrorCode;
use crate::errors::lexerdiagnostics::{LexDiag, LexerDiagnostic};
use crate::continuetype::ContinueType;
use crate::luasyntaxoptions::LuaSyntaxOptions;

verus! {

/// The byte at `i`, if there is one.
pub open spec fn byte_at(b: Seq<u8>, i: int) -> Option<u8> {
    if 0 <= i < b.len() {
        Some(b[i])
    } else {
        None
    }
}

/// Space, tab, carriage return, line feed, vertical tab or form feed.
pub open spec fn is_space_byte(x: u8) -> bool {
    x == 32 || x == 9 || x == 13 || x == 10 || x == 11 || x == 12
}

/// The first index from `i` that is not a space byte.
pub open spec fn space_end(b: Seq<u8>, i: int) -> int
    decreases b.len() - i,
{
    if 0 <= i < b.len() && is_space_byte(b[i]) {
        space_end(b, i + 1)
    } else {
        i
    }
}

/// The first index from `i` that is not `=`.
pub open spec fn equals_run_end(b: Seq<u8>, i: int) -> int
    decreases b.len() - i,
{
    if 0 <= i < b.len() && b[i] == 61 {
        equals_run_end(b, i + 1)
    } else {
        i
    }
}

/// The first index from `i` that is a line break, or the end.
pub open spec fn line_stop(b: Seq<u8>, i: int) -> int
    decreases b.len() - i,
{
    if 0 <= i < b.len() && b[i] != 10 && b[i] != 13 {
        line_stop(b, i + 1)
    } else {
        i
    }
}

/// How many `=` follow from `m`, up to `n`.
pub open spec fn equals_upto(b: Seq<u8>, m: int, n: nat) -> nat
    decreases n,
{
    if n > 0 && byte_at(b, m) == Some(61u8) {
        1 + equals_upto(b, m + 1, (n - 1) as nat)
    } else {
        0
    }
}

/// The index after the first `]`, `eq` times `=`, `]` from `k` on.
pub open spec fn long_close_from(b: Seq<u8>, k: int, eq: nat) -> Option<int>
    decreases b.len() - k,
{
    if k < 0 || k >= b.len() {
        None
    } else if b[k] == 93 && equals_upto(b, k + 1, eq) == eq && byte_at(b, k + 1 + eq) == Some(
        93u8,
    ) {
        Some(k + 2 + eq)
    } else {
        long_close_from(b, k + 1, eq)
    }
}

pub proof fn lemma_space_end(b: Seq<u8>, i: int)
    requires
        0 <= i <= b.len(),
    ensures
        i <= space_end(b, i) <= b.len(),
    decreases b.len() - i,
{
    if i < b.len() && is_space_byte(b[i]) {
        lemma_space_end(b, i + 1);
    }
}

pub proof fn lemma_equals_run_end(b: Seq<u8>, i: int)
    requires
        0 <= i <= b.len(),
    ensures
        i <= equals_run_end(b, i) <= b.len(),
    decreases b.len() - i,
{
    if i < b.len() && b[i] == 61 {
        lemma_equals_run_end(b, i + 1);
    }
}

pub proof fn lemma_line_stop(b: Seq<u8>, i: int)
    requires
        0 <= i <= b.len(),
    ensures
        i <= line_stop(b, i) <= b.len(),
    decreases b.len() - i,
{
    if i < b.len() && b[i] != 10 && b[i] != 13 {
        lemma_line_stop(b, i + 1);
    }
}

pub proof fn lemma_long_close_from(b: Seq<u8>, k: int, eq: nat)
    requires
        0 <= k,
    ensures
        long_close_from(b, k, eq) matches Some(m) ==> k < m <= b.len(),
    decreases b.len() - k,
{
    if 0 <= k < b.len() && !(b[k] == 93 && equals_upto(b, k + 1, eq) == eq && byte_at(
        b,
        k + 1 + eq,
    ) == Some(93u8)) {
        lemma_long_close_from(b, k + 1, eq);
    }
}

/// Where the trivia (spaces, line comments and long comments) from `i`
/// ends; an unclosed long comment ends the trivia at its bracket.
pub open spec fn trivia_end(b: Seq<u8>, i: int) -> int
    decreases b.len() - i,
{
    if i < 0 || i > b.len() {
        i
    } else {
        let w = space_end(b, i);
        proof {
            lemma_space_end(b, i);
        }
        if byte_at(b, w) == Some(45u8) && byte_at(b, w + 1) == Some(45u8) {
            let i2 = w + 2;
            if byte_at(b, i2) == Some(91u8) && byte_at(b, equals_run_end(b, i2 + 1)) == Some(91u8) {
                let j = equals_run_end(b, i2 + 1);
                proof {
                    lemma_equals_run_end(b, i2 + 1);
                    lemma_long_close_from(b, j + 1, (j - (i2 + 1)) as nat);
                }
                match long_close_from(b, j + 1, (j - (i2 + 1)) as nat) {
                    Some(m) => trivia_end(b, m),
                    None => trivia_end(b, i2),
                }
            } else {
                proof {
                    lemma_line_stop(b, i2);
                }
                trivia_end(b, line_stop(b, i2))
            }
        } else {
            w
        }
    }
}

/// The end of a statement whose last token ends at `cursor`: past the
/// following trivia and `;` when a semicolon follows, else `cursor` itself.
pub open spec fn statement_end(b: Seq<u8>, cursor: int) -> int {
    let e = trivia_end(b, cursor);
    if byte_at(b, e) == Some(59u8) {
        e + 1
    } else {
        cursor
    }
}

fn skip_spaces(b: &[u8], i: usize) -> (r: usize)
    requires
        i <= b@.len(),
    ensures
        r == space_end(b@, i as int),
    decreases b@.len() - i,
{
    if i < b.len() {
        let x = b[i];
        if x == 32 || x == 9 || x == 13 || x == 10 || x == 11 || x == 12 {
            return skip_spaces(b, i + 1);
        }
    }
    i
}

fn skip_equals(b: &[u8], i: usize) -> (r: usize)
    requires
        i <= b@.len(),
    ensures
        r == equals_run_end(b@, i as int),
    decreases b@.len() - i,
{
    if i < b.len() && b[i] == 61 {
        return skip_equals(b, i + 1);
    }
    i
}

fn skip_to_line_break(b: &[u8], i: usize) -> (r: usize)
    requires
        i <= b@.len(),
    ensures
        r == line_stop(b@, i as int),
    decreases b@.len() - i,
{
    if i < b.len() && b[i] != 10 && b[i] != 13 {
        return skip_to_line_break(b, i + 1);
    }
    i
}

fn count_equals(b: &[u8], m: usize, n: usize) -> (r: usize)
    requires
        m <= b@.len(),
    ensures
        r == equals_upto(b@, m as int, n as nat),
        r <= n,
        r <= b@.len() - m,
    decreases n,
{
    if n > 0 && m < b.len() && b[m] == 61 {
        1 + count_equals(b, m + 1, n - 1)
    } else {
        0
    }
}

fn find_long_close(b: &[u8], k: usize, eq: usize) -> (r: Option<usize>)
    requires
        k <= b@.len(),
    ensures
        match long_close_from(b@, k as int, eq as nat) {
            Some(m) => r == Some(m as usize),
            None => r is None,
        },
    decreases b@.len() - k,
{
    if k >= b.len() {
        return None;
    }
    if b[k] == 93 {
        let e2 = count_equals(b, k + 1, eq);
        let m = k + 1 + e2;
        if e2 == eq && m < b.len() && b[m] == 93 {
            return Some(m + 1);
        }
    }
    find_long_close(b, k + 1, eq)
}

/// Where the trivia from `i` ends.
fn skip_trivia(b: &[u8], i: usize) -> (r: usize)
    requires
        i <= b@.len(),
    ensures
        r == trivia_end(b@, i as int),
        r <= b@.len(),
    decreases b@.len() - i,
{
    let w = skip_spaces(b, i);
    proof {
        lemma_space_end(b@, i as int);
    }
    if w < b.len() && b.len() - w >= 2 && b[w] == 45 && b[w + 1] == 45 {
        let i2 = w + 2;
        if i2 < b.len() && b[i2] == 91 {
            let j = skip_equals(b, i2 + 1);
            proof {
                lemma_equals_run_end(b@, i2 + 1);
            }
            if j < b.len() && b[j] == 91 {
                let found = find_long_close(b, j + 1, j - (i2 + 1));
                proof {
                    lemma_long_close_from(b@, j + 1, (j - (i2 + 1)) as nat);
                }
                match found {
                    Some(m) => {
                        return skip_trivia(b, m);
                    },
                    None => {
                        return skip_trivia(b, i2);
                    },
                }
            }
        }
        let e = skip_to_line_break(b, i2);
        proof {
            lemma_line_stop(b@, i2 as int);
        }
        return skip_trivia(b, e);
    }
    w
}

/// The end of a statement whose last token ends at byte `cursor`: past the
/// following spaces, comments and `;` when a semicolon follows, else
/// `cursor` itself.
pub fn skip_trivia_to_optional_semicolon(source: &str, cursor: usize) -> (r: usize)
    requires
        cursor <= source.spec_bytes().len(),
    ensures
        r == statement_end(source.spec_bytes(), cursor as int),
{
    let b = source.as_bytes();
    let e = skip_trivia(b, cursor);
    if e < b.len() && b[e] == 59 {
        e + 1
    } else {
        cursor
    }
}

/// A statement diagnostic over the bytes `[start, end)`, with no arguments,
/// never a warning.
pub fn node_diagnostic(code: ErrorCode, start: usize, end: usize) -> (r: LexerDiagnostic)
    requires
        start <= end,
    ensures
        r.code == code,
        r.start == start,
        r.width == end - start,
        r.arguments@.len() == 0,
        !r.is_warning,
        r@ == span_diag(code, start as int, end as int),
{
    let r = LexerDiagnostic { code, start, width: end - start, arguments: Vec::new(), is_warning: false };
    proof {
        assert(r@.arguments =~= Seq::<Seq<char>>::empty());
    }
    r
}

/// The starts of the diagnostics, in order.
pub open spec fn starts(ds: Seq<LexerDiagnostic>) -> Seq<usize> {
    ds.map_values(|d: LexerDiagnostic| d.start)
}

/// `d` put after every diagnostic of `s` that starts no later.
pub open spec fn insert_by_start(s: Seq<LexerDiagnostic>, d: LexerDiagnostic) -> Seq<LexerDiagnostic>
    decreases s.len(),
{
    if s.len() == 0 {
        seq![d]
    } else if s.last().start <= d.start {
        s.push(d)
    } else {
        insert_by_start(s.drop_last(), d).push(s.last())
    }
}

/// The diagnostics ordered by start; those with equal starts keep their order.
pub open spec fn sorted_by_start(s: Seq<LexerDiagnostic>) -> Seq<LexerDiagnostic>
    decreases s.len(),
{
    if s.len() == 0 {
        seq![]
    } else {
        insert_by_start(sorted_by_start(s.drop_last()), s.last())
    }
}

/// Every diagnostic starts no earlier than the one before.
pub open spec fn ordered_by_start(s: Seq<LexerDiagnostic>) -> bool {
    forall|i: int, j: int| 0 <= i < j < s.len() ==> s[i].start <= s[j].start
}

proof fn lemma_insert_by_start(s: Seq<LexerDiagnostic>, d: LexerDiagnostic)
    requires
        ordered_by_start(s),
    ensures
        ordered_by_start(insert_by_start(s, d)),
        insert_by_start(s, d).len() == s.len() + 1,
        insert_by_start(s, d).to_multiset() == s.to_multiset().insert(d),
    decreases s.len(),
{
    broadcast use vstd::seq_lib::group_to_multiset_ensures;
    if s.len() == 0 {
        assert(seq![d] =~= Seq::<LexerDiagnostic>::empty().push(d));
    } else if s.last().start <= d.start {
    } else {
        let t = s.drop_last();
        lemma_insert_by_start(t, d);
        let r = insert_by_start(t, d);
        assert(s =~= t.push(s.last()));
        assert forall|i: int, j: int|
            0 <= i < j < r.push(s.last()).len() implies r.push(s.last())[i].start <= r.push(
            s.last(),
        )[j].start by {
            if j == r.len() {
                lemma_insert_members(t, d, i);
            }
        }
    }
}

proof fn lemma_insert_members(s: Seq<LexerDiagnostic>, d: LexerDiagnostic, i: int)
    requires
        0 <= i < insert_by_start(s, d).len(),
    ensures
        insert_by_start(s, d)[i] == d || exists|k: int|
            0 <= k < s.len() && insert_by_start(s, d)[i] == #[trigger] s[k],
    decreases s.len(),
{
    if s.len() == 0 {
    } else if s.last().start <= d.start {
        if i < s.len() {
            assert(insert_by_start(s, d)[i] == s[i]);
        }
    } else {
        let t = s.drop_last();
        if i < insert_by_start(t, d).len() {
            lemma_insert_members(t, d, i);
            if insert_by_start(s, d)[i] != d {
                let k = choose|k: int| 0 <= k < t.len() && insert_by_start(t, d)[i] == #[trigger] t[k];
                assert(s[k] == t[k]);
            }
        } else {
            assert(insert_by_start(s, d)[i] == s[s.len() - 1]);
        }
    }
}

/// Sorting by start orders the diagnostics and keeps each of them.
pub proof fn law_sorted_diagnostics_are_ordered(s: Seq<LexerDiagnostic>)
    ensures
        ordered_by_start(sorted_by_start(s)),
        sorted_by_start(s).to_multiset() == s.to_multiset(),
    decreases s.len(),
{
    broadcast use vstd::seq_lib::group_to_multiset_ensures;
    if s.len() > 0 {
        law_sorted_diagnostics_are_ordered(s.drop_last());
        lemma_insert_by_start(sorted_by_start(s.drop_last()), s.last());
        assert(s =~= s.drop_last().push(s.last()));
    }
}

/// Orders the diagnostics by start; those with equal starts keep their order.
pub fn sort_by_start(ds: Vec<LexerDiagnostic>) -> (r: Vec<LexerDiagnostic>)
    ensures
        r@ == sorted_by_start(ds@),
{
    let mut out: Vec<LexerDiagnostic> = Vec::new();
    let mut rest = ds;
    let ghost all = rest@;
    proof {
        assert(all.take(0) =~= Seq::<LexerDiagnostic>::empty());
        assert(all.skip(0) =~= all);
    }
    let n = rest.len();
    let mut i: usize = 0;
    while i < n
        invariant
            i <= n == all.len(),
            rest@ == all.skip(i as int),
            out@ == sorted_by_start(all.take(i as int)),
        decreases n - i,
    {
        let d = rest.remove(0);
        proof {
            assert(d == all[i as int]);
            assert(rest@ =~= all.skip(i + 1));
        }
        let ghost before = out@;
        let mut k = out.len();
        proof {
            assert(before.take(k as int) =~= before);
            assert(before.skip(k as int) =~= Seq::<LexerDiagnostic>::empty());
            assert(insert_by_start(before, d) =~= insert_by_start(before.take(k as int), d)
                + before.skip(k as int));
        }
        while k > 0 && out[k - 1].start > d.start
            invariant
                k <= out@.len(),
                out@ == before,
                insert_by_start(before, d) == insert_by_start(before.take(k as int), d) + before.skip(
                    k as int,
                ),
            decreases k,
        {
            proof {
                let t = before.take(k as int);
                assert(t.drop_last() =~= before.take(k - 1));
                assert(before.skip(k - 1) =~= seq![t.last()] + before.skip(k as int));
                assert(insert_by_start(t.drop_last(), d).push(t.last()) + before.skip(k as int)
                    =~= insert_by_start(t.drop_last(), d) + before.skip(k - 1));
            }
            k = k - 1;
        }
        out.insert(k, d);
        proof {
            let t = before.take(k as int);
            if k > 0 {
                assert(t.last().start <= d.start);
            }
            assert(insert_by_start(t, d) =~= t.push(d));
            assert(out@ =~= t.push(d) + before.skip(k as int));
            assert(all.take(i + 1).drop_last() =~= all.take(i as int));
            assert(all.take(i + 1).last() == all[i as int]);
        }
        i = i + 1;
    }
    proof {
        assert(all.take(n as int) =~= all);
    }
    out
}

/// Trivia from `i` ends between `i` and the end of the bytes.
pub proof fn lemma_trivia_end(b: Seq<u8>, i: int)
    requires
        0 <= i <= b.len(),
    ensures
        i <= trivia_end(b, i) <= b.len(),
    decreases b.len() - i,
{
    let w = space_end(b, i);
    lemma_space_end(b, i);
    if byte_at(b, w) == Some(45u8) && byte_at(b, w + 1) == Some(45u8) {
        let i2 = w + 2;
        if byte_at(b, i2) == Some(91u8) && byte_at(b, equals_run_end(b, i2 + 1)) == Some(91u8) {
            let j = equals_run_end(b, i2 + 1);
            lemma_equals_run_end(b, i2 + 1);
            lemma_long_close_from(b, j + 1, (j - (i2 + 1)) as nat);
            match long_close_from(b, j + 1, (j - (i2 + 1)) as nat) {
                Some(m) => lemma_trivia_end(b, m),
                None => lemma_trivia_end(b, i2),
            }
        } else {
            lemma_line_stop(b, i2);
            lemma_trivia_end(b, line_stop(b, i2));
        }
    }
}

/// A statement's end lies between `cursor` and the end of the bytes.
pub proof fn lemma_statement_end(b: Seq<u8>, cursor: int)
    requires
        0 <= cursor <= b.len(),
    ensures
        cursor <= statement_end(b, cursor) <= b.len(),
{
    lemma_trivia_end(b, cursor);
}

/// The compound assignment operators.
#[derive(Debug, Clone, Copy, PartialEq, Eq, Structural)]
pub enum CompoundOperator {
    PlusEqual,
    MinusEqual,
    StarEqual,
    SlashEqual,
    CaretEqual,
    DoubleSlashEqual,
    PercentEqual,
    TwoDotsEqual,
    DoubleLessThanEqual,
    DoubleGreaterThanEqual,
    AmpersandEqual,
    PipeEqual,
}

/// What the statement rules read of a statement: its kind and the byte
/// spans of its parts.
#[derive(Debug, Clone, Copy, PartialEq, Eq, Structural)]
pub enum StatementShape {
    /// `goto name`: the span of the `goto` and of the label name.
    Goto { goto_start: usize, goto_end: usize, label_start: usize, label_end: usize },
    /// `::name::`: from the first `::` to the last.
    Label { start: usize, end: usize },
    /// A compound assignment, its operator and its span.
    CompoundAssignment { operator: CompoundOperator, start: usize, end: usize },
    /// A type declaration or type function, exported or not, and its span
    /// (from `type` for a plain type declaration).
    TypeDeclaration { start: usize, end: usize },
    /// Any other statement.
    Other,
}

/// The spans of the statement are ordered and lie within `len` bytes.
pub open spec fn spans_within(stmt: StatementShape, len: int) -> bool {
    match stmt {
        StatementShape::Goto { goto_start, goto_end, label_start, label_end } => goto_start
            <= goto_end && label_start <= label_end <= len,
        StatementShape::Label { start, end } => start <= end <= len,
        StatementShape::CompoundAssignment { start, end, .. } => start <= end <= len,
        StatementShape::TypeDeclaration { start, end } => start <= end,
        StatementShape::Other => true,
    }
}

/// The operators of plain compound assignment, which the option gates.
pub open spec fn is_plain_compound(op: CompoundOperator) -> bool {
    op == CompoundOperator::PlusEqual || op == CompoundOperator::MinusEqual || op
        == CompoundOperator::StarEqual || op == CompoundOperator::SlashEqual || op
        == CompoundOperator::CaretEqual || op == CompoundOperator::PercentEqual || op
        == CompoundOperator::TwoDotsEqual
}

/// An error over the bytes from `start` to `end`, with no arguments.
pub open spec fn span_diag(code: ErrorCode, start: int, end: int) -> LexDiag {
    LexDiag {
        code,
        start: start as nat,
        width: (end - start) as nat,
        arguments: Seq::empty(),
        is_warning: false,
    }
}

/// The diagnostics of one statement under the options, over the source's
/// bytes: `goto` without goto support is two non-statement errors (the
/// keyword, and the label name up to an optional `;`); a label under typed
/// Lua without goto support is an unsupported-goto error up to an optional
/// `;`; a plain compound assignment without its support is an error up to
/// an optional `;`; a type declaration or type function without typed Lua
/// is an error over it.
pub open spec fn statement_diagnostics_spec(stmt: StatementShape, o: LuaSyntaxOptions, b: Seq<u8>) -> Seq<LexDiag> {
    match stmt {
        StatementShape::Goto { goto_start, goto_end, label_start, label_end } => if !o.accept_goto {
            seq![
                span_diag(ErrorCode::ErrNonFunctionCallBeingUsedAsStatement, goto_start as int, goto_end as int),
                span_diag(
                    ErrorCode::ErrNonFunctionCallBeingUsedAsStatement,
                    label_start as int,
                    statement_end(b, label_end as int),
                ),
            ]
        } else {
            seq![]
        },
        StatementShape::Label { start, end } => if !o.accept_goto && o.accept_typed_lua {
            seq![span_diag(ErrorCode::ErrGotoNotSupportedInLuaVersion, start as int, statement_end(b, end as int))]
        } else {
            seq![]
        },
        StatementShape::CompoundAssignment { operator, start, end } => if !o.accept_compound_assignment
            && is_plain_compound(operator) {
            seq![
                span_diag(
                    ErrorCode::ErrCompoundAssignmentNotSupportedInLuaVersion,
                    start as int,
                    statement_end(b, end as int),
                ),
            ]
        } else {
            seq![]
        },
        StatementShape::TypeDeclaration { start, end } => if !o.accept_typed_lua {
            seq![span_diag(ErrorCode::ErrTypedLuaNotSupportedInLuaVersion, start as int, end as int)]
        } else {
            seq![]
        },
        StatementShape::Other => seq![],
    }
}

fn is_plain(op: CompoundOperator) -> (r: bool)
    ensures
        r == is_plain_compound(op),
{
    match op {
        CompoundOperator::PlusEqual | CompoundOperator::MinusEqual | CompoundOperator::StarEqual
        | CompoundOperator::SlashEqual | CompoundOperator::CaretEqual
        | CompoundOperator::PercentEqual | CompoundOperator::TwoDotsEqual => true,
        _ => false,
    }
}

/// The diagnostics of one statement under the options (see
/// `statement_diagnostics_spec`).
pub fn statement_diagnostics(stmt: &StatementShape, options: &LuaSyntaxOptions, source: &str) -> (r:
    Vec<LexerDiagnostic>)
    requires
        spans_within(*stmt, source.spec_bytes().len() as int),
    ensures
        r@.map_values(|d: LexerDiagnostic| d@) == statement_diagnostics_spec(
            *stmt,
            *options,
            source.spec_bytes(),
        ),
{
    let ghost b = source.spec_bytes();
    let mut out: Vec<LexerDiagnostic> = Vec::new();
    match *stmt {
        StatementShape::Goto { goto_start, goto_end, label_start, label_end } => {
            if !options.accept_goto {
                out.push(node_diagnostic(ErrorCode::ErrNonFunctionCallBeingUsedAsStatement, goto_start, goto_end));
                let end = skip_trivia_to_optional_semicolon(source, label_end);
                proof {
                    lemma_statement_end(b, label_end as int);
                }
                out.push(node_diagnostic(ErrorCode::ErrNonFunctionCallBeingUsedAsStatement, label_start, end));
            }
        },
        StatementShape::Label { start, end } => {
            if !options.accept_goto && options.accept_typed_lua {
                let e = skip_trivia_to_optional_semicolon(source, end);
                proof {
                    lemma_statement_end(b, end as int);
                }
                out.push(node_diagnostic(ErrorCode::ErrGotoNotSupportedInLuaVersion, start, e));
            }
        },
        StatementShape::CompoundAssignment { operator, start, end } => {
            if !options.accept_compound_assignment && is_plain(operator) {
                let e = skip_trivia_to_optional_semicolon(source, end);
                proof {
                    lemma_statement_end(b, end as int);
                }
                out.push(node_diagnostic(ErrorCode::ErrCompoundAssignmentNotSupportedInLuaVersion, start, e));
            }
        },
        StatementShape::TypeDeclaration { start, end } => {
            if !options.accept_typed_lua {
                out.push(node_diagnostic(ErrorCode::ErrTypedLuaNotSupportedInLuaVersion, start, end));
            }
        },
        StatementShape::Other => {},
    }
    proof {
        assert(out@.map_values(|d: LexerDiagnostic| d@) =~= statement_diagnostics_spec(
            *stmt,
            *options,
            b,
        ));
    }
    out
}

/// A piece of syntax, other than a statement, that an option gates, with
/// its byte span.
#[derive(Debug, Clone, Copy, PartialEq, Eq, Structural)]
pub enum GatedSyntax {
    /// An `if` expression.
    IfExpression { start: usize, end: usize },
    /// A `&` or `|` operator.
    BitwiseOperator { start: usize, end: usize },
    /// Typed Lua: a type assertion, a type specifier of a local or a
    /// parameter, a return type, or the generics of a function.
    TypedLua { start: usize, end: usize },
    /// `continue` as the last statement of a block.
    Continue { start: usize, end: usize },
}

/// The span is ordered, and a `continue` ends within `len` bytes.
pub open spec fn gated_span_ok(g: GatedSyntax, len: int) -> bool {
    match g {
        GatedSyntax::IfExpression { start, end } => start <= end,
        GatedSyntax::BitwiseOperator { start, end } => start <= end,
        GatedSyntax::TypedLua { start, end } => start <= end,
        GatedSyntax::Continue { start, end } => start <= end <= len,
    }
}

/// The diagnostics of gated syntax under the options: an `if` expression
/// without their support, `&` or `|` without bitwise operators, typed Lua
/// without typed Lua, each an error over its span; and `continue` where
/// `continue` is an identifier, a non-statement error up to an optional `;`.
pub open spec fn gated_syntax_spec(g: GatedSyntax, o: LuaSyntaxOptions, b: Seq<u8>) -> Seq<LexDiag> {
    match g {
        GatedSyntax::IfExpression { start, end } => if !o.accept_if_expressions {
            seq![span_diag(ErrorCode::ErrIfExpressionsNotSupportedInLuaVersion, start as int, end as int)]
        } else {
            seq![]
        },
        GatedSyntax::BitwiseOperator { start, end } => if !o.accept_bitwise_operators {
            seq![span_diag(ErrorCode::ErrBitwiseOperatorsNotSupportedInVersion, start as int, end as int)]
        } else {
            seq![]
        },
        GatedSyntax::TypedLua { start, end } => if !o.accept_typed_lua {
            seq![span_diag(ErrorCode::ErrTypedLuaNotSupportedInLuaVersion, start as int, end as int)]
        } else {
            seq![]
        },
        GatedSyntax::Continue { start, end } => if o.continue_type == ContinueType::Disabled {
            seq![
                span_diag(
                    ErrorCode::ErrNonFunctionCallBeingUsedAsStatement,
                    start as int,
                    statement_end(b, end as int),
                ),
            ]
        } else {
            seq![]
        },
    }
}

/// The diagnostics of a piece of gated syntax (see `gated_syntax_spec`).
pub fn gated_syntax_diagnostics(g: &GatedSyntax, options: &LuaSyntaxOptions, source: &str) -> (r:
    Vec<LexerDiagnostic>)
    requires
        gated_span_ok(*g, source.spec_bytes().len() as int),
    ensures
        r@.map_values(|d: LexerDiagnostic| d@) == gated_syntax_spec(*g, *options, source.spec_bytes()),
{
    let ghost b = source.spec_bytes();
    let mut out: Vec<LexerDiagnostic> = Vec::new();
    match *g {
        GatedSyntax::IfExpression { start, end } => {
            if !options.accept_if_expressions {
                out.push(node_diagnostic(ErrorCode::ErrIfExpressionsNotSupportedInLuaVersion, start, end));
            }
        },
        GatedSyntax::BitwiseOperator { start, end } => {
            if !options.accept_bitwise_operators {
                out.push(node_diagnostic(ErrorCode::ErrBitwiseOperatorsNotSupportedInVersion, start, end));
            }
        },
        GatedSyntax::TypedLua { start, end } => {
            if !options.accept_typed_lua {
                out.push(node_diagnostic(ErrorCode::ErrTypedLuaNotSupportedInLuaVersion, start, end));
            }
        },
        GatedSyntax::Continue { start, end } => {
            if options.continue_type == ContinueType::Disabled {
                let e = skip_trivia_to_optional_semicolon(source, end);
                proof {
                    lemma_statement_end(b, end as int);
                }
                out.push(node_diagnostic(ErrorCode::ErrNonFunctionCallBeingUsedAsStatement, start, e));
            }
        },
    }
    proof {
        assert(out@.map_values(|d: LexerDiagnostic| d@) =~= gated_syntax_spec(*g, *options, b));
    }
    out
}

} // verus!
