//! Turning a slot number into a variable name that is neither a keyword nor
//! taken.
use vstd::prelude::*;

use crate::experimental::minifying::minifyingutils::{
    contains_name, names_of, scopes_unavailable, MinifyingUtils,
};
use crate::scoping::ScopeTree;
use crate::text::{str_chars, str_eq, string_from_chars};

verus! {

/// The default naming strategies.
pub struct NamingStrategies;

impl NamingStrategies {
    /// Up to this many prefix characters are put in front of a name.
    pub const MAX_PREFIX_COUNT: usize = 5;
}

/// The Lua keywords, with the Luau words `continue`, `type`, `typeof` and
/// `export`.
pub open spec fn keyword_list() -> Seq<Seq<char>> {
    seq![
        "and"@,
        "break"@,
        "do"@,
        "else"@,
        "elseif"@,
        "end"@,
        "false"@,
        "for"@,
        "function"@,
        "goto"@,
        "if"@,
        "in"@,
        "local"@,
        "nil"@,
        "not"@,
        "or"@,
        "repeat"@,
        "return"@,
        "then"@,
        "true"@,
        "until"@,
        "while"@,
        "continue"@,
        "type"@,
        "typeof"@,
        "export"@,
    ]
}

/// Whether `name` is a keyword.
pub fn is_keyword(name: &str) -> (r: bool)
    ensures
        r == keyword_list().contains(name@),
{
    let kws: Vec<&str> = vec![
        "and",
        "break",
        "do",
        "else",
        "elseif",
        "end",
        "false",
        "for",
        "function",
        "goto",
        "if",
        "in",
        "local",
        "nil",
        "not",
        "or",
        "repeat",
        "return",
        "then",
        "true",
        "until",
        "while",
        "continue",
        "type",
        "typeof",
        "export",
    ];
    let ghost kv = kws@.map_values(|s: &str| s@);
    proof {
        assert(kv =~= keyword_list());
    }
    let mut i: usize = 0;
    while i < kws.len()
        invariant
            i <= kws@.len(),
            kv == kws@.map_values(|s: &str| s@),
            kv == keyword_list(),
            forall|k: int| 0 <= k < i ==> kws@[k]@ != name@,
        decreases kws@.len() - i,
    {
        if str_eq(kws[i], name) {
            proof {
                assert(kv[i as int] == name@);
            }
            return true;
        }
        i = i + 1;
    }
    proof {
        if keyword_list().contains(name@) {
            let k = choose|k: int| 0 <= k < kv.len() && #[trigger] kv[k] == name@;
            assert(kws@[k]@ == name@);
        }
    }
    false
}

/// `slot` written with the digits of `alphabet` (most significant first);
/// zero is the first digit.
pub open spec fn base_name(slot: nat, alphabet: Seq<char>) -> Seq<char>
    decreases slot,
{
    let l = alphabet.len();
    if l < 2 || slot < l {
        seq![alphabet[(slot % l) as int]]
    } else {
        proof {
            vstd::arithmetic::div_mod::lemma_div_decreases(slot as int, l as int);
        }
        base_name(slot / l, alphabet) + seq![alphabet[(slot % l) as int]]
    }
}

pub proof fn lemma_ceil_div_lt(x: nat, b: nat)
    requires
        x > 1,
        b >= 2,
    ensures
        (x + b - 1) / (b as int) < x,
        (x + b - 1) / (b as int) >= 1,
{
    let c = (x + b - 1) / (b as int);
    vstd::arithmetic::div_mod::lemma_fundamental_div_mod((x + b - 1) as int, b as int);
    vstd::arithmetic::div_mod::lemma_mod_pos_bound((x + b - 1) as int, b as int);
    assert(c < x && c >= 1) by (nonlinear_arith)
        requires
            x > 1,
            b >= 2,
            (x + b - 1) as int == (b as int) * c + (x + b - 1) % (b as int),
            0 <= (x + b - 1) % (b as int) < b,
    ;
}

/// The least `k` with `b^k >= x`.
pub open spec fn ceil_log(x: nat, b: nat) -> nat
    decreases x,
{
    if x <= 1 || b < 2 {
        0
    } else {
        proof {
            lemma_ceil_div_lt(x, b);
        }
        1 + ceil_log(((x + b - 1) / (b as int)) as nat, b)
    }
}

/// The digit count bound used for the prefix limit.
pub open spec fn max_digits(slot: int, b: nat) -> nat {
    if slot <= 1 {
        1
    } else {
        ceil_log(slot as nat, b) + 1
    }
}

/// `k` copies of `c`.
pub open spec fn repeat(c: char, k: nat) -> Seq<char> {
    Seq::new(k, |i: int| c)
}

/// A name can be used: it is not a keyword and not taken.
pub open spec fn available(name: Seq<char>, taken: Set<Seq<char>>) -> bool {
    !keyword_list().contains(name) && !taken.contains(name)
}

/// `name` with the fewest prefix characters, from `minp` to `maxp`, that can
/// be used, if there is one.
pub open spec fn first_available(
    base: Seq<char>,
    prefix: char,
    minp: nat,
    maxp: nat,
    taken: Set<Seq<char>>,
) -> Option<Seq<char>>
    decreases maxp + 1 - minp,
{
    if minp > maxp {
        None
    } else if available(repeat(prefix, minp) + base, taken) {
        Some(repeat(prefix, minp) + base)
    } else {
        first_available(base, prefix, minp + 1, maxp, taken)
    }
}

/// The most prefix characters tried for a slot written in `digits` digits.
pub open spec fn max_prefixes(slot: int, l: nat, digits: nat) -> nat {
    let m = max_digits(slot, l) + 5 - digits - 1;
    if m > 5 {
        5
    } else if m < 0 {
        0
    } else {
        m as nat
    }
}

/// The name for `slot`: the slot in the alphabet's digits, with the fewest
/// prefix characters (at least `minp`) that make it usable.
pub open spec fn sequential_core_name(
    slot: nat,
    taken: Set<Seq<char>>,
    prefix: char,
    alphabet: Seq<char>,
    minp: nat,
) -> Option<Seq<char>> {
    let b = base_name(slot, alphabet);
    first_available(b, prefix, minp, max_prefixes(slot as int, alphabet.len(), b.len()), taken)
}

/// `slot` written with the strings of `alphabet` as digits; zero has no digit.
pub open spec fn parts_name(slot: int, alphabet: Seq<Seq<char>>) -> Seq<char>
    decreases slot,
{
    let l = alphabet.len();
    if slot <= 0 || l < 2 {
        seq![]
    } else {
        proof {
            vstd::arithmetic::div_mod::lemma_div_decreases(slot, l as int);
        }
        parts_name(slot / (l as int), alphabet) + alphabet[slot % (l as int)]
    }
}

/// The first name from `minp` to `maxp` prefix characters that can be used;
/// one must exist.
fn first_free_name(
    base: &Vec<char>,
    prefix: char,
    minp: usize,
    maxp: usize,
    taken: &Vec<String>,
) -> (r: String)
    requires
        first_available(base@, prefix, minp as nat, maxp as nat, names_of(taken@)) is Some,
        maxp <= 5,
    ensures
        Some(r@) == first_available(base@, prefix, minp as nat, maxp as nat, names_of(taken@)),
{
    let mut k: usize = minp;
    while k <= maxp
        invariant
            maxp <= 5,
            minp <= k,
            first_available(base@, prefix, k as nat, maxp as nat, names_of(taken@))
                == first_available(base@, prefix, minp as nat, maxp as nat, names_of(taken@)),
            first_available(base@, prefix, minp as nat, maxp as nat, names_of(taken@)) is Some,
        decreases maxp + 1 - k,
    {
        let mut v: Vec<char> = Vec::new();
        let mut j: usize = 0;
        while j < k
            invariant
                j <= k,
                v@ == repeat(prefix, j as nat),
            decreases k - j,
        {
            v.push(prefix);
            j = j + 1;
            proof {
                assert(v@ =~= repeat(prefix, j as nat));
            }
        }
        let mut i: usize = 0;
        let ghost head = v@;
        while i < base.len()
            invariant
                i <= base@.len(),
                v@ == head + base@.take(i as int),
            decreases base@.len() - i,
        {
            v.push(base[i]);
            i = i + 1;
            proof {
                assert(v@ =~= head + base@.take(i as int));
            }
        }
        proof {
            assert(base@.take(base@.len() as int) =~= base@);
        }
        let name = string_from_chars(&v);
        if !is_keyword(name.as_str()) && !contains_name(taken, name.as_str()) {
            return name;
        }
        k = k + 1;
    }
    proof {
        assert(first_available(base@, prefix, k as nat, maxp as nat, names_of(taken@)) is None);
    }
    String::new()
}

proof fn lemma_ceil_log_bound(x: nat, b: nat)
    requires
        b >= 2,
    ensures
        ceil_log(x, b) <= x,
        x > 1 ==> ceil_log(x, b) >= 1,
    decreases x,
{
    if x > 1 {
        let c = ((x + b - 1) / (b as int)) as nat;
        lemma_ceil_div_lt(x, b);
        lemma_ceil_log_bound(c, b);
    }
}

/// The least `k` with `b^k >= x`, computed.
fn ceil_log_exec(x: u64, b: u64) -> (r: u64)
    requires
        2 <= b <= 64,
    ensures
        r == ceil_log(x as nat, b as nat),
{
    let mut k: u64 = 0;
    let mut y: u64 = x;
    proof {
        lemma_ceil_log_bound(x as nat, b as nat);
    }
    while y > 1
        invariant
            2 <= b <= 64,
            k + ceil_log(y as nat, b as nat) == ceil_log(x as nat, b as nat),
            ceil_log(x as nat, b as nat) <= x,
        decreases y,
    {
        proof {
            lemma_ceil_log_bound(y as nat, b as nat);
        }
        let q = y / b;
        proof {
            vstd::arithmetic::div_mod::lemma_fundamental_div_mod(y as int, b as int);
            vstd::arithmetic::div_mod::lemma_mod_pos_bound(y as int, b as int);
            assert(q < y) by (nonlinear_arith)
                requires
                    y as int == (b as int) * (q as int) + (y % b) as int,
                    y > 1,
                    b >= 2,
                    q == y / b,
            ;
        }
        let z = if y % b == 0 {
            q
        } else {
            q + 1
        };
        proof {
            vstd::arithmetic::div_mod::lemma_fundamental_div_mod(y as int, b as int);
            vstd::arithmetic::div_mod::lemma_mod_pos_bound(y as int, b as int);
            vstd::arithmetic::div_mod::lemma_fundamental_div_mod((y + b - 1) as int, b as int);
            vstd::arithmetic::div_mod::lemma_mod_pos_bound((y + b - 1) as int, b as int);
            assert((y + b - 1) / (b as int) == z) by (nonlinear_arith)
                requires
                    y == b * q + y % b,
                    0 <= y % b < b,
                    (y + b - 1) as int == (b as int) * ((y + b - 1) / (b as int)) + (y + b - 1) % (b as int),
                    0 <= (y + b - 1) % (b as int) < b,
                    z == (if y % b == 0 { q } else { (q + 1) as u64 }),
                    b >= 2,
            ;
            lemma_ceil_div_lt(y as nat, b as nat);
        }
        k = k + 1;
        y = z;
    }
    k
}

pub proof fn lemma_base_name_len(slot: nat, alphabet: Seq<char>)
    requires
        alphabet.len() >= 2,
    ensures
        1 <= base_name(slot, alphabet).len() <= slot + 1,
    decreases slot,
{
    let l = alphabet.len();
    if slot >= l {
        vstd::arithmetic::div_mod::lemma_div_decreases(slot as int, l as int);
        lemma_base_name_len(slot / l, alphabet);
    }
}

/// The digits of `slot` in `alphabet`.
fn base_digits(slot: i32, alphabet: &Vec<char>) -> (r: Vec<char>)
    requires
        slot >= 0,
        alphabet@.len() >= 2,
        alphabet@.len() <= 64,
    ensures
        r@ == base_name(slot as nat, alphabet@),
{
    let l = alphabet.len() as u64;
    let s0: u64 = slot as u64;
    proof {
        vstd::arithmetic::div_mod::lemma_mod_pos_bound(s0 as int, l as int);
    }
    let mut v: Vec<char> = vec![alphabet[(s0 % l) as usize]];
    let mut s: u64 = s0 / l;
    proof {
        if s0 < l {
            assert(s0 / l == 0) by (nonlinear_arith)
                requires
                    s0 < l,
                    l >= 2,
            ;
        } else {
            assert(s0 / l > 0) by (nonlinear_arith)
                requires
                    s0 >= l,
                    l >= 2,
            ;
        }
    }
    while s > 0
        invariant
            l == alphabet@.len(),
            2 <= l <= 64,
            s > 0 ==> base_name(slot as nat, alphabet@) == base_name(s as nat, alphabet@) + v@,
            s == 0 ==> base_name(slot as nat, alphabet@) == v@,
        decreases s,
    {
        let num = s % l;
        let t = s / l;
        proof {
            vstd::arithmetic::div_mod::lemma_mod_pos_bound(s as int, l as int);
            vstd::arithmetic::div_mod::lemma_div_decreases(s as int, l as int);
        }
        let c = alphabet[num as usize];
        let ghost old_v = v@;
        v.insert(0, c);
        proof {
            assert(v@ =~= seq![c] + old_v);
            if s < l {
                assert(t == 0) by (nonlinear_arith)
                    requires
                        s < l,
                        l >= 2,
                        t == s / l,
                ;
                assert(num == s) by (nonlinear_arith)
                    requires
                        s < l,
                        l >= 2,
                        num == s % l,
                ;
                assert(base_name(slot as nat, alphabet@) =~= v@);
            } else {
                assert(t > 0) by (nonlinear_arith)
                    requires
                        s >= l,
                        l >= 2,
                        t == s / l,
                ;
                assert(base_name(slot as nat, alphabet@) =~= base_name(t as nat, alphabet@) + v@);
            }
        }
        s = t;
    }
    v
}

/// The name for `slot` with the digits of `alphabet` and up to five
/// `prefix` characters (at least `minp`).
fn string_sequential_core(
    slot: i32,
    taken: &Vec<String>,
    prefix: char,
    alphabet: &Vec<char>,
    minp: usize,
) -> (r: String)
    requires
        slot >= 0,
        2 <= alphabet@.len() <= 64,
        minp <= 5,
        sequential_core_name(slot as nat, names_of(taken@), prefix, alphabet@, minp as nat) is Some,
    ensures
        Some(r@) == sequential_core_name(slot as nat, names_of(taken@), prefix, alphabet@, minp as nat),
{
    let base = base_digits(slot, alphabet);
    proof {
        lemma_base_name_len(slot as nat, alphabet@);
    }
    let md: i64 = if slot <= 1 {
        1
    } else {
        let c = ceil_log_exec(slot as u64, alphabet.len() as u64);
        proof {
            lemma_ceil_log_bound(slot as nat, alphabet@.len());
        }
        c as i64 + 1
    };
    let m: i64 = md + 5 - base.len() as i64 - 1;
    let maxp: usize = if m > 5 {
        5
    } else if m < 0 {
        0
    } else {
        m as usize
    };
    first_free_name(&base, prefix, minp, maxp, taken)
}

/// The lower-case ASCII letters.
pub open spec fn letters() -> Seq<char> {
    seq!['a', 'b', 'c', 'd', 'e', 'f', 'g', 'h', 'i', 'j', 'k', 'l', 'm', 'n', 'o', 'p', 'q', 'r', 's', 't', 'u', 'v', 'w', 'x', 'y', 'z']
}

/// The decimal digits.
pub open spec fn decimal_digits() -> Seq<char> {
    seq!['0', '1', '2', '3', '4', '5', '6', '7', '8', '9']
}

/// Zero width non-joiner, zero width joiner and zero width no-break space.
pub open spec fn zero_width_digits() -> Seq<char> {
    seq!['\u{200C}', '\u{200D}', '\u{FEFF}']
}

/// The strings of an alphabet.
pub open spec fn strings_of(v: Seq<String>) -> Seq<Seq<char>> {
    v.map_values(|s: String| s@)
}

impl NamingStrategies {
    /// The slot written with the strings of `alphabet` as digits, with the
    /// fewest `prefix` characters (up to five) that make it neither a keyword
    /// nor a name that cannot be renamed in `scopes`.
    pub fn sequential(prefix: char, alphabet: &[String], slot: i32, tree: &ScopeTree, scopes: &[usize]) -> (r: String)
        requires
            alphabet@.len() >= 2,
            tree.wf(),
            first_available(
                parts_name(slot as int, strings_of(alphabet@)),
                prefix,
                0,
                5,
                scopes_unavailable(*tree, scopes@),
            ) is Some,
        ensures
            Some(r@) == first_available(
                parts_name(slot as int, strings_of(alphabet@)),
                prefix,
                0,
                5,
                scopes_unavailable(*tree, scopes@),
            ),
    {
        let l = alphabet.len() as u64;
        let ghost al = strings_of(alphabet@);
        let mut s: u64 = if slot > 0 {
            slot as u64
        } else {
            0
        };
        let mut parts: Vec<char> = Vec::new();
        proof {
            if slot <= 0 {
                assert(parts_name(slot as int, al) == Seq::<char>::empty());
            }
            assert(parts_name(slot as int, al) =~= parts_name(s as int, al) + parts@);
        }
        while s > 0
            invariant
                l == alphabet@.len(),
                l >= 2,
                al == strings_of(alphabet@),
                parts_name(slot as int, al) == parts_name(s as int, al) + parts@,
            decreases s,
        {
            let num = s % l;
            let t = s / l;
            proof {
                vstd::arithmetic::div_mod::lemma_mod_pos_bound(s as int, l as int);
                vstd::arithmetic::div_mod::lemma_div_decreases(s as int, l as int);
            }
            let piece = str_chars(alphabet[num as usize].as_str());
            let mut joined: Vec<char> = Vec::new();
            let mut i: usize = 0;
            while i < piece.len()
                invariant
                    i <= piece@.len(),
                    joined@ == piece@.take(i as int),
                decreases piece@.len() - i,
            {
                joined.push(piece[i]);
                i = i + 1;
                proof {
                    assert(joined@ =~= piece@.take(i as int));
                }
            }
            let mut j: usize = 0;
            let ghost jp = joined@;
            while j < parts.len()
                invariant
                    j <= parts@.len(),
                    joined@ == jp + parts@.take(j as int),
                decreases parts@.len() - j,
            {
                joined.push(parts[j]);
                j = j + 1;
                proof {
                    assert(joined@ =~= jp + parts@.take(j as int));
                }
            }
            proof {
                assert(piece@.take(piece@.len() as int) =~= piece@);
                assert(parts@.take(parts@.len() as int) =~= parts@);
                assert(al[num as int] == alphabet@[num as int]@);
                assert(parts_name(s as int, al) == parts_name((s as int) / (l as int), al) + al[(s as int) % (l as int)]);
                assert(parts_name(t as int, al) + (al[num as int] + parts@) =~= parts_name(t as int, al) + al[num as int] + parts@);
            }
            parts = joined;
            s = t;
        }
        proof {
            assert(parts_name(s as int, al) == Seq::<char>::empty());
            assert(parts@ =~= Seq::<char>::empty() + parts@);
        }
        let taken = MinifyingUtils::get_unavailable_names(tree, scopes);
        first_free_name(&parts, prefix, 0, 5, &taken)
    }

    /// Names from the lower-case letters, with underscores in front when
    /// needed.
    pub fn alphabetical(slot: i32, tree: &ScopeTree, scopes: &[usize]) -> (r: String)
        requires
            slot >= 0,
            tree.wf(),
            sequential_core_name(slot as nat, scopes_unavailable(*tree, scopes@), '_', letters(), 0)
                is Some,
        ensures
            Some(r@) == sequential_core_name(slot as nat, scopes_unavailable(*tree, scopes@), '_', letters(), 0),
    {
        let alphabet: Vec<char> = vec!['a', 'b', 'c', 'd', 'e', 'f', 'g', 'h', 'i', 'j', 'k', 'l', 'm', 'n', 'o', 'p', 'q', 'r', 's', 't', 'u', 'v', 'w', 'x', 'y', 'z'];
        proof {
            assert(alphabet@ =~= letters());
        }
        let taken = MinifyingUtils::get_unavailable_names(tree, scopes);
        string_sequential_core(slot, &taken, '_', &alphabet, 0)
    }

    /// Names from the decimal digits, with at least one underscore in front.
    pub fn numerical(slot: i32, tree: &ScopeTree, scopes: &[usize]) -> (r: String)
        requires
            slot >= 0,
            tree.wf(),
            sequential_core_name(slot as nat, scopes_unavailable(*tree, scopes@), '_', decimal_digits(), 1)
                is Some,
        ensures
            Some(r@) == sequential_core_name(slot as nat, scopes_unavailable(*tree, scopes@), '_', decimal_digits(), 1),
    {
        let alphabet: Vec<char> = vec!['0', '1', '2', '3', '4', '5', '6', '7', '8', '9'];
        proof {
            assert(alphabet@ =~= decimal_digits());
        }
        let taken = MinifyingUtils::get_unavailable_names(tree, scopes);
        string_sequential_core(slot, &taken, '_', &alphabet, 1)
    }

    /// Names made of zero width characters, with zero width spaces in front
    /// when needed (for LuaJIT only).
    pub fn zero_width(slot: i32, tree: &ScopeTree, scopes: &[usize]) -> (r: String)
        requires
            slot >= 0,
            tree.wf(),
            sequential_core_name(slot as nat, scopes_unavailable(*tree, scopes@), '\u{200B}', zero_width_digits(), 0)
                is Some,
        ensures
            Some(r@) == sequential_core_name(slot as nat, scopes_unavailable(*tree, scopes@), '\u{200B}', zero_width_digits(), 0),
    {
        let alphabet: Vec<char> = vec!['\u{200C}', '\u{200D}', '\u{FEFF}'];
        proof {
            assert(alphabet@ =~= zero_width_digits());
        }
        let taken = MinifyingUtils::get_unavailable_names(tree, scopes);
        string_sequential_core(slot, &taken, '\u{200B}', &alphabet, 0)
    }
}

/// Every character of `alphabet` appears once.
pub open spec fn distinct_chars(alphabet: Seq<char>) -> bool {
    forall|i: int, j: int| 0 <= i < j < alphabet.len() ==> alphabet[i] != alphabet[j]
}

/// Whether `name` is one of Lua's reserved words.
pub open spec fn is_lua_reserved_word(name: Seq<char>) -> bool {
    name == "and"@ || name == "break"@ || name == "do"@ || name == "else"@ || name == "elseif"@ || name == "end"@ || name == "false"@ || name == "for"@ || name == "function"@ || name == "goto"@ || name == "if"@ || name == "in"@ || name == "local"@ || name == "nil"@ || name == "not"@ || name == "or"@ || name == "repeat"@ || name == "return"@ || name == "then"@ || name == "true"@ || name == "until"@ || name == "while"@
}

/// Every Lua reserved word is a keyword.
pub proof fn law_lua_reserved_words_are_keywords(name: Seq<char>)
    requires
        is_lua_reserved_word(name),
    ensures
        keyword_list().contains(name),
{
    assert(keyword_list()[0] == "and"@);
    assert(keyword_list()[1] == "break"@);
    assert(keyword_list()[2] == "do"@);
    assert(keyword_list()[3] == "else"@);
    assert(keyword_list()[4] == "elseif"@);
    assert(keyword_list()[5] == "end"@);
    assert(keyword_list()[6] == "false"@);
    assert(keyword_list()[7] == "for"@);
    assert(keyword_list()[8] == "function"@);
    assert(keyword_list()[9] == "goto"@);
    assert(keyword_list()[10] == "if"@);
    assert(keyword_list()[11] == "in"@);
    assert(keyword_list()[12] == "local"@);
    assert(keyword_list()[13] == "nil"@);
    assert(keyword_list()[14] == "not"@);
    assert(keyword_list()[15] == "or"@);
    assert(keyword_list()[16] == "repeat"@);
    assert(keyword_list()[17] == "return"@);
    assert(keyword_list()[18] == "then"@);
    assert(keyword_list()[19] == "true"@);
    assert(keyword_list()[20] == "until"@);
    assert(keyword_list()[21] == "while"@);
}

/// The name that a strategy picks for a slot is never a Lua reserved word.
pub proof fn law_names_are_never_reserved_words(
    slot: nat,
    taken: Set<Seq<char>>,
    prefix: char,
    alphabet: Seq<char>,
    minp: nat,
)
    requires
        sequential_core_name(slot, taken, prefix, alphabet, minp) is Some,
    ensures
        !is_lua_reserved_word(sequential_core_name(slot, taken, prefix, alphabet, minp)->0),
{
    let b = base_name(slot, alphabet);
    let maxp = max_prefixes(slot as int, alphabet.len(), b.len());
    law_chosen_name_is_available(b, prefix, minp, maxp, taken);
    let n = sequential_core_name(slot, taken, prefix, alphabet, minp)->0;
    if is_lua_reserved_word(n) {
        law_lua_reserved_words_are_keywords(n);
    }
}

/// The name that `first_available` picks is usable: not a keyword, not taken.
pub proof fn law_chosen_name_is_available(
    base: Seq<char>,
    prefix: char,
    minp: nat,
    maxp: nat,
    taken: Set<Seq<char>>,
)
    requires
        first_available(base, prefix, minp, maxp, taken) is Some,
    ensures
        available(first_available(base, prefix, minp, maxp, taken)->0, taken),
    decreases maxp + 1 - minp,
{
    if minp <= maxp && !available(repeat(prefix, minp) + base, taken) {
        law_chosen_name_is_available(base, prefix, minp + 1, maxp, taken);
    }
}

/// The name that `first_available` picks is the base with some prefix
/// characters in front.
proof fn lemma_chosen_name_shape(
    base: Seq<char>,
    prefix: char,
    minp: nat,
    maxp: nat,
    taken: Set<Seq<char>>,
)
    requires
        first_available(base, prefix, minp, maxp, taken) is Some,
    ensures
        exists|k: nat| first_available(base, prefix, minp, maxp, taken)->0 == repeat(prefix, k) + base,
    decreases maxp + 1 - minp,
{
    if minp <= maxp && !available(repeat(prefix, minp) + base, taken) {
        lemma_chosen_name_shape(base, prefix, minp + 1, maxp, taken);
    } else {
        assert(first_available(base, prefix, minp, maxp, taken)->0 == repeat(prefix, minp) + base);
    }
}

/// Digits of distinct slots differ.
pub proof fn lemma_base_name_injective(s1: nat, s2: nat, alphabet: Seq<char>)
    requires
        alphabet.len() >= 2,
        distinct_chars(alphabet),
        s1 != s2,
    ensures
        base_name(s1, alphabet) != base_name(s2, alphabet),
    decreases s1 + s2,
{
    let l = alphabet.len();
    lemma_base_name_len(s1, alphabet);
    lemma_base_name_len(s2, alphabet);
    let b1 = base_name(s1, alphabet);
    let b2 = base_name(s2, alphabet);
    vstd::arithmetic::div_mod::lemma_mod_pos_bound(s1 as int, l as int);
    vstd::arithmetic::div_mod::lemma_mod_pos_bound(s2 as int, l as int);
    if s1 < l && s2 < l {
        assert(s1 % l == s1 && s2 % l == s2) by {
            vstd::arithmetic::div_mod::lemma_small_mod(s1, l);
            vstd::arithmetic::div_mod::lemma_small_mod(s2, l);
        }
        assert(b1[0] != b2[0]);
    } else if s1 < l {
        vstd::arithmetic::div_mod::lemma_div_decreases(s2 as int, l as int);
        vstd::arithmetic::div_mod::lemma_div_pos_is_pos(s2 as int, l as int);
        lemma_base_name_len((s2 / l) as nat, alphabet);
        assert(b2.len() >= 2);
    } else if s2 < l {
        vstd::arithmetic::div_mod::lemma_div_decreases(s1 as int, l as int);
        vstd::arithmetic::div_mod::lemma_div_pos_is_pos(s1 as int, l as int);
        lemma_base_name_len((s1 / l) as nat, alphabet);
        assert(b1.len() >= 2);
    } else {
        let q1 = (s1 / l) as nat;
        let q2 = (s2 / l) as nat;
        let r1 = s1 % l;
        let r2 = s2 % l;
        vstd::arithmetic::div_mod::lemma_fundamental_div_mod(s1 as int, l as int);
        vstd::arithmetic::div_mod::lemma_fundamental_div_mod(s2 as int, l as int);
        vstd::arithmetic::div_mod::lemma_div_decreases(s1 as int, l as int);
        vstd::arithmetic::div_mod::lemma_div_decreases(s2 as int, l as int);
        if b1 == b2 {
            assert(b1.last() == alphabet[r1 as int]);
            assert(b2.last() == alphabet[r2 as int]);
            assert(r1 == r2);
            assert(q1 != q2) by (nonlinear_arith)
                requires
                    s1 == l * q1 + r1,
                    s2 == l * q2 + r2,
                    r1 == r2,
                    s1 != s2,
            ;
            lemma_base_name_injective(q1, q2, alphabet);
            assert(b1.drop_last() == base_name(q1, alphabet));
            assert(b2.drop_last() == base_name(q2, alphabet));
        }
    }
}

/// How many times `prefix` starts `n`.
pub open spec fn leading_count(n: Seq<char>, prefix: char) -> nat
    decreases n.len(),
{
    if n.len() > 0 && n[0] == prefix {
        1 + leading_count(n.drop_first(), prefix)
    } else {
        0
    }
}

proof fn lemma_leading_count(k: nat, prefix: char, base: Seq<char>)
    requires
        base.len() > 0,
        base[0] != prefix,
    ensures
        leading_count(repeat(prefix, k) + base, prefix) == k,
        (repeat(prefix, k) + base).skip(k as int) == base,
    decreases k,
{
    let n = repeat(prefix, k) + base;
    if k > 0 {
        assert(n.drop_first() =~= repeat(prefix, (k - 1) as nat) + base);
        lemma_leading_count((k - 1) as nat, prefix, base);
    } else {
        assert(n =~= base);
    }
    assert(n.skip(k as int) =~= base);
}

/// Two distinct slots get distinct names, whatever names are taken, when
/// the prefix character is not one of the alphabet's digits.
pub proof fn law_distinct_slots_get_distinct_names(
    s1: nat,
    s2: nat,
    taken1: Set<Seq<char>>,
    taken2: Set<Seq<char>>,
    prefix: char,
    alphabet: Seq<char>,
    minp: nat,
)
    requires
        alphabet.len() >= 2,
        distinct_chars(alphabet),
        !alphabet.contains(prefix),
        s1 != s2,
        sequential_core_name(s1, taken1, prefix, alphabet, minp) is Some,
        sequential_core_name(s2, taken2, prefix, alphabet, minp) is Some,
    ensures
        sequential_core_name(s1, taken1, prefix, alphabet, minp)->0 != sequential_core_name(
            s2,
            taken2,
            prefix,
            alphabet,
            minp,
        )->0,
{
    let b1 = base_name(s1, alphabet);
    let b2 = base_name(s2, alphabet);
    lemma_base_name_len(s1, alphabet);
    lemma_base_name_len(s2, alphabet);
    lemma_base_name_digits(s1, alphabet);
    lemma_base_name_digits(s2, alphabet);
    lemma_base_name_injective(s1, s2, alphabet);
    let m1 = max_prefixes(s1 as int, alphabet.len(), b1.len());
    let m2 = max_prefixes(s2 as int, alphabet.len(), b2.len());
    lemma_chosen_name_shape(b1, prefix, minp, m1, taken1);
    lemma_chosen_name_shape(b2, prefix, minp, m2, taken2);
    let n1 = sequential_core_name(s1, taken1, prefix, alphabet, minp)->0;
    let n2 = sequential_core_name(s2, taken2, prefix, alphabet, minp)->0;
    let k1 = choose|k: nat| n1 == repeat(prefix, k) + b1;
    let k2 = choose|k: nat| n2 == repeat(prefix, k) + b2;
    assert(b1[0] != prefix);
    assert(b2[0] != prefix);
    lemma_leading_count(k1, prefix, b1);
    lemma_leading_count(k2, prefix, b2);
    if n1 == n2 {
        assert(k1 == k2);
        assert(b1 == b2);
    }
}

/// The digits of a slot come from the alphabet.
proof fn lemma_base_name_digits(slot: nat, alphabet: Seq<char>)
    requires
        alphabet.len() >= 2,
    ensures
        forall|i: int|
            0 <= i < base_name(slot, alphabet).len() ==> alphabet.contains(
                #[trigger] base_name(slot, alphabet)[i],
            ),
    decreases slot,
{
    let l = alphabet.len();
    vstd::arithmetic::div_mod::lemma_mod_pos_bound(slot as int, l as int);
    assert(alphabet[(slot % l) as int] == alphabet[(slot % l) as int]);
    if slot >= l {
        vstd::arithmetic::div_mod::lemma_div_decreases(slot as int, l as int);
        lemma_base_name_digits(slot / l, alphabet);
        let b = base_name(slot, alphabet);
        assert forall|i: int| 0 <= i < b.len() implies alphabet.contains(#[trigger] b[i]) by {
            if i < b.len() - 1 {
                assert(b[i] == base_name(slot / l, alphabet)[i]);
            } else {
                assert(b[i] == alphabet[(slot % l) as int]);
            }
        }
    } else {
        assert(base_name(slot, alphabet)[0] == alphabet[(slot % l) as int]);
    }
}

} // verus!
