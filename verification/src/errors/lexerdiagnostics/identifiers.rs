//! Identifiers: characters at or above U+007F follow the LuaJIT rules.
use vstd::prelude::*;

use crate::errors::errorcode::ErrorCode;
use crate::errors::lexerdiagnostics::scanstate::{
    at_pos, err_cur, is_alpha, is_ascii_alpha, is_dec, is_decimal, same_input, start_lexeme,
    with_only_sb, ScanState, Scanner,
};
use crate::luasyntaxoptions::LuaSyntaxOptions;

verus! {

/// The end of the identifier characters at `p`, and whether one of them is at
/// or above U+007F (`uni` says whether one was before `p`).
pub open spec fn ident_end(cs: Seq<char>, p: int, uni: bool) -> (int, bool)
    decreases cs.len() - p,
{
    if 0 <= p < cs.len() {
        let c = cs[p];
        if is_alpha(c) || c == '_' || is_dec(c) {
            ident_end(cs, p + 1, uni)
        } else if (c as u32) >= 0x7F {
            ident_end(cs, p + 1, true)
        } else {
            (p, uni)
        }
    } else {
        (p, uni)
    }
}

pub proof fn lemma_ident_end(cs: Seq<char>, p: int, uni: bool)
    requires
        0 <= p <= cs.len(),
    ensures
        p <= ident_end(cs, p, uni).0 <= cs.len(),
    decreases cs.len() - p,
{
    if p < cs.len() {
        let c = cs[p];
        if is_alpha(c) || c == '_' || is_dec(c) {
            lemma_ident_end(cs, p + 1, uni);
        } else if (c as u32) >= 0x7F {
            lemma_ident_end(cs, p + 1, true);
        }
    }
}

/// An identifier; one with characters at or above U+007F is reported where
/// the LuaJIT identifier rules are not in use.
#[verifier::opaque]
pub open spec fn identifier(cs: Seq<char>, o: LuaSyntaxOptions, s: ScanState) -> ScanState {
    let (p, uni) = ident_end(cs, s.pos, false);
    let s1 = at_pos(start_lexeme(s), p);
    let s2 = if uni && !o.use_lua_jit_identifier_rules {
        err_cur(cs, s1, ErrorCode::ErrLuajitIdentifierRulesNotSupportedInVersion)
    } else {
        s1
    };
    with_only_sb(s2, true)
}

impl Scanner {
    /// Scans an identifier.
    pub fn scan_identifier(&mut self)
        requires
            old(self).wf(),
            old(self).pos < old(self).chars@.len(),
            ({
                let c = old(self).chars@[old(self).pos as int];
                is_alpha(c) || c == '_' || (c as u32) >= 0x7F
            }),
        ensures
            final(self).wf(),
            same_input(*final(self), *old(self)),
            final(self).st() == identifier(old(self).chars@, old(self).options, old(self).st()),
            final(self).pos > old(self).pos,
    {
        proof {
            reveal(identifier);
        }
        let start = self.pos;
        self.lexeme_start = start;
        let mut has_unicode = false;
        while self.pos < self.chars.len()
            invariant
                self.wf(),
                same_input(*self, *old(self)),
                start == old(self).pos,
                self.pos >= start,
                self.lexeme_start == start,
                self.st() == at_pos(start_lexeme(old(self).st()), self.pos as int),
                ident_end(self.chars@, self.pos as int, has_unicode) == ident_end(
                    self.chars@,
                    start as int,
                    false,
                ),
                self.pos == start ==> !has_unicode,
            ensures
                ident_end(self.chars@, self.pos as int, has_unicode) == (self.pos as int, has_unicode),
                self.wf(),
                same_input(*self, *old(self)),
                self.lexeme_start == start,
                self.st() == at_pos(start_lexeme(old(self).st()), self.pos as int),
                ident_end(self.chars@, self.pos as int, has_unicode) == ident_end(
                    self.chars@,
                    start as int,
                    false,
                ),
            decreases self.chars@.len() - self.pos,
        {
            let c = self.chars[self.pos];
            if is_ascii_alpha(c) || c == '_' || is_decimal(c) {
                self.pos = self.pos + 1;
            } else if (c as u32) >= 0x7F {
                has_unicode = true;
                self.pos = self.pos + 1;
            } else {
                break;
            }
        }
        proof {
            let c0 = self.chars@[start as int];
            lemma_ident_end(self.chars@, start + 1, (c0 as u32) >= 0x7F);
        }
        if has_unicode && !self.options.use_lua_jit_identifier_rules {
            self.error_current(ErrorCode::ErrLuajitIdentifierRulesNotSupportedInVersion);
        }
        self.only_sb = true;
    }
}

} // verus!
