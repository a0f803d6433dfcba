//! The wire grammar of wallet-connect message bodies.
//!
//! A decrypted request body is a JSON object `{"method": ..., "params":
//! {...}}`. This module defines that grammar over character sequences and
//! gives it an executable parser, plus the escaping used when response
//! bodies are built. Member values may be strings, numbers, the literals
//! `true`, `false` and `null`, or (at the top level) one flat object of such
//! values; anything else is rejected, as is any body the grammar refuses.

use vstd::prelude::*;

verus! {

// ---------------------------------------------------------------------------
// Characters
// ---------------------------------------------------------------------------

/// JSON insignificant whitespace.
pub open spec fn is_ws(c: char) -> bool {
    c == ' ' || c == '\n' || c == '\r' || c == '\t'
}

/// An ASCII decimal digit.
pub open spec fn is_digit(c: char) -> bool {
    48 <= c as int && c as int <= 57
}

/// The value of a hex digit, or -1.
pub open spec fn hex_val(c: char) -> int {
    let u = c as int;
    if 48 <= u && u <= 57 {
        u - 48
    } else if 97 <= u && u <= 102 {
        u - 87
    } else if 65 <= u && u <= 70 {
        u - 55
    } else {
        -1
    }
}

fn is_ws_char(c: char) -> (b: bool)
    ensures
        b == is_ws(c),
{
    c == ' ' || c == '\n' || c == '\r' || c == '\t'
}

fn is_digit_char(c: char) -> (b: bool)
    ensures
        b == is_digit(c),
{
    let u = c as u32;
    48 <= u && u <= 57
}

fn hex_digit_val(c: char) -> (r: i32)
    ensures
        r as int == hex_val(c),
{
    let u = c as u32;
    if 48 <= u && u <= 57 {
        (u - 48) as i32
    } else if 97 <= u && u <= 102 {
        (u - 87) as i32
    } else if 65 <= u && u <= 70 {
        (u - 55) as i32
    } else {
        -1
    }
}

/// Relies on `char::from_u32`: `Some` exactly on Unicode scalar values, and
/// the character returned has that scalar value.
#[verifier::external_body]
fn char_from_code(u: u32) -> (r: Option<char>)
    ensures
        r is Some <==> (u < 0xD800 || (0xE000 <= u && u <= 0x10FFFF)),
        r matches Some(c) ==> c as u32 == u,
{
    char::from_u32(u)
}

/// Relies on `String::push`: appends exactly one character.
#[verifier::external_body]
fn push_char(s: &mut String, c: char)
    ensures
        final(s)@ == old(s)@.push(c),
{
    s.push(c);
}

/// The characters of a string slice, in order.
pub fn chars_of(s: &str) -> (r: Vec<char>)
    ensures
        r@ == s@,
{
    let n = s.unicode_len();
    let mut v: Vec<char> = Vec::new();
    let mut i: usize = 0;
    while i < n
        invariant
            i <= n,
            n == s@.len(),
            v@ == s@.take(i as int),
        decreases n - i,
    {
        let c = s.get_char(i);
        v.push(c);
        i = i + 1;
        proof {
            assert(v@ =~= s@.take(i as int));
        }
    }
    proof {
        assert(v@ =~= s@);
    }
    v
}

/// The string of exactly the characters of `v`.
pub fn string_from_chars(v: &Vec<char>) -> (r: String)
    ensures
        r@ == v@,
{
    let mut out = String::new();
    let mut i: usize = 0;
    while i < v.len()
        invariant
            i <= v@.len(),
            out@ == v@.take(i as int),
        decreases v@.len() - i,
    {
        push_char(&mut out, v[i]);
        i = i + 1;
        proof {
            assert(out@ =~= v@.take(i as int));
        }
    }
    proof {
        assert(out@ =~= v@);
    }
    out
}

/// Whether `v` holds exactly the characters of `s`.
pub fn chars_eq(v: &Vec<char>, s: &str) -> (r: bool)
    ensures
        r == (v@ == s@),
{
    let n = s.unicode_len();
    if v.len() != n {
        proof {
            assert(v@ != s@);
        }
        return false;
    }
    let mut i: usize = 0;
    while i < n
        invariant
            i <= n,
            n == s@.len(),
            n == v@.len(),
            forall|k: int| 0 <= k < i ==> v@[k] == s@[k],
        decreases n - i,
    {
        if v[i] != s.get_char(i) {
            proof {
                assert(v@ != s@);
            }
            return false;
        }
        i = i + 1;
    }
    proof {
        assert(v@ =~= s@);
    }
    true
}

// ---------------------------------------------------------------------------
// Whitespace and digit runs
// ---------------------------------------------------------------------------

/// The first position at or after `i` that does not hold whitespace.
pub open spec fn ws_end(s: Seq<char>, i: int) -> int
    decreases s.len() - i when 0 <= i <= s.len()
{
    if i < s.len() && is_ws(s[i]) {
        ws_end(s, i + 1)
    } else {
        i
    }
}

pub proof fn lemma_ws_end(s: Seq<char>, i: int)
    requires
        0 <= i <= s.len(),
    ensures
        i <= ws_end(s, i) <= s.len(),
    decreases s.len() - i,
{
    if i < s.len() && is_ws(s[i]) {
        lemma_ws_end(s, i + 1);
    }
}

fn ws_skip(s: &Vec<char>, i: usize) -> (r: usize)
    requires
        i <= s@.len(),
    ensures
        r as int == ws_end(s@, i as int),
        i <= r <= s@.len(),
{
    let mut j = i;
    while j < s.len() && is_ws_char(s[j])
        invariant
            i <= j <= s@.len(),
            ws_end(s@, i as int) == ws_end(s@, j as int),
        decreases s@.len() - j,
    {
        j = j + 1;
    }
    j
}

/// The first position at or after `i` that does not hold a digit.
pub open spec fn digits_end(s: Seq<char>, i: int) -> int
    decreases s.len() - i when 0 <= i <= s.len()
{
    if i < s.len() && is_digit(s[i]) {
        digits_end(s, i + 1)
    } else {
        i
    }
}

pub proof fn lemma_digits_end(s: Seq<char>, i: int)
    requires
        0 <= i <= s.len(),
    ensures
        i <= digits_end(s, i) <= s.len(),
    decreases s.len() - i,
{
    if i < s.len() && is_digit(s[i]) {
        lemma_digits_end(s, i + 1);
    }
}

fn digits_skip(s: &Vec<char>, i: usize) -> (r: usize)
    requires
        i <= s@.len(),
    ensures
        r as int == digits_end(s@, i as int),
        i <= r <= s@.len(),
{
    let mut j = i;
    while j < s.len() && is_digit_char(s[j])
        invariant
            i <= j <= s@.len(),
            digits_end(s@, i as int) == digits_end(s@, j as int),
        decreases s@.len() - j,
    {
        j = j + 1;
    }
    j
}

// ---------------------------------------------------------------------------
// String bodies
// ---------------------------------------------------------------------------

/// Scan a JSON string body starting at `i` (just after the opening quote),
/// with `acc` the characters already decoded: the decoded body and the
/// position after the closing quote, or `None` where the body is malformed.
pub open spec fn scan_string(s: Seq<char>, i: int, acc: Seq<char>) -> Option<(Seq<char>, int)>
    decreases s.len() - i when 0 <= i <= s.len()
{
    if i >= s.len() {
        None
    } else {
        let c = s[i];
        if c == '"' {
            Some((acc, i + 1))
        } else if c == '\\' {
            if i + 1 >= s.len() {
                None
            } else {
                let e = s[i + 1];
                if e == '"' {
                    scan_string(s, i + 2, acc.push('"'))
                } else if e == '\\' {
                    scan_string(s, i + 2, acc.push('\\'))
                } else if e == '/' {
                    scan_string(s, i + 2, acc.push('/'))
                } else if e == 'b' {
                    scan_string(s, i + 2, acc.push('\u{0008}'))
                } else if e == 'f' {
                    scan_string(s, i + 2, acc.push('\u{000C}'))
                } else if e == 'n' {
                    scan_string(s, i + 2, acc.push('\n'))
                } else if e == 'r' {
                    scan_string(s, i + 2, acc.push('\r'))
                } else if e == 't' {
                    scan_string(s, i + 2, acc.push('\t'))
                } else if e == 'u' {
                    if i + 6 > s.len() {
                        None
                    } else {
                        let h0 = hex_val(s[i + 2]);
                        let h1 = hex_val(s[i + 3]);
                        let h2 = hex_val(s[i + 4]);
                        let h3 = hex_val(s[i + 5]);
                        if h0 < 0 || h1 < 0 || h2 < 0 || h3 < 0 {
                            None
                        } else {
                            let code = h0 * 4096 + h1 * 256 + h2 * 16 + h3;
                            if 0xD800 <= code && code <= 0xDFFF {
                                None
                            } else {
                                scan_string(s, i + 6, acc.push((code as u32) as char))
                            }
                        }
                    }
                } else {
                    None
                }
            }
        } else if ' ' > c {
            None
        } else {
            scan_string(s, i + 1, acc.push(c))
        }
    }
}

pub proof fn lemma_scan_string(s: Seq<char>, i: int, acc: Seq<char>)
    requires
        0 <= i <= s.len(),
    ensures
        scan_string(s, i, acc) matches Some(r) ==> i < r.1 <= s.len(),
    decreases s.len() - i,
{
    if i < s.len() {
        let c = s[i];
        if c == '"' {
        } else if c == '\\' && i + 1 < s.len() {
            let e = s[i + 1];
            if e == '"' {
                lemma_scan_string(s, i + 2, acc.push('"'));
            } else if e == '\\' {
                lemma_scan_string(s, i + 2, acc.push('\\'));
            } else if e == '/' {
                lemma_scan_string(s, i + 2, acc.push('/'));
            } else if e == 'b' {
                lemma_scan_string(s, i + 2, acc.push('\u{0008}'));
            } else if e == 'f' {
                lemma_scan_string(s, i + 2, acc.push('\u{000C}'));
            } else if e == 'n' {
                lemma_scan_string(s, i + 2, acc.push('\n'));
            } else if e == 'r' {
                lemma_scan_string(s, i + 2, acc.push('\r'));
            } else if e == 't' {
                lemma_scan_string(s, i + 2, acc.push('\t'));
            } else if e == 'u' && i + 6 <= s.len() {
                let h0 = hex_val(s[i + 2]);
                let h1 = hex_val(s[i + 3]);
                let h2 = hex_val(s[i + 4]);
                let h3 = hex_val(s[i + 5]);
                if h0 >= 0 && h1 >= 0 && h2 >= 0 && h3 >= 0 {
                    let code = h0 * 4096 + h1 * 256 + h2 * 16 + h3;
                    if !(0xD800 <= code && code <= 0xDFFF) {
                        lemma_scan_string(s, i + 6, acc.push((code as u32) as char));
                    }
                }
            }
        } else if !(' ' > c) && c != '\\' {
            lemma_scan_string(s, i + 1, acc.push(c));
        }
    }
}

fn scan_string_exec(s: &Vec<char>, i: usize) -> (r: Option<(Vec<char>, usize)>)
    requires
        i <= s@.len(),
    ensures
        match r {
            Some(p) => scan_string(s@, i as int, Seq::<char>::empty()) == Some((p.0@, p.1 as int))
                && i < p.1 <= s@.len(),
            None => scan_string(s@, i as int, Seq::<char>::empty()) is None,
        },
{
    broadcast use vstd::utf8::char_u32_cast;

    let mut acc: Vec<char> = Vec::new();
    let mut j = i;
    loop
        invariant
            i <= j <= s@.len(),
            scan_string(s@, i as int, Seq::<char>::empty()) == scan_string(s@, j as int, acc@),
        decreases s@.len() - j,
    {
        if j >= s.len() {
            return None;
        }
        let c = s[j];
        if c == '"' {
            proof {
                lemma_scan_string(s@, i as int, Seq::<char>::empty());
            }
            return Some((acc, j + 1));
        } else if c == '\\' {
            if j + 1 >= s.len() {
                return None;
            }
            let e = s[j + 1];
            if e == '"' {
                acc.push('"');
                j = j + 2;
            } else if e == '\\' {
                acc.push('\\');
                j = j + 2;
            } else if e == '/' {
                acc.push('/');
                j = j + 2;
            } else if e == 'b' {
                acc.push('\u{0008}');
                j = j + 2;
            } else if e == 'f' {
                acc.push('\u{000C}');
                j = j + 2;
            } else if e == 'n' {
                acc.push('\n');
                j = j + 2;
            } else if e == 'r' {
                acc.push('\r');
                j = j + 2;
            } else if e == 't' {
                acc.push('\t');
                j = j + 2;
            } else if e == 'u' {
                if s.len() - j < 6 {
                    return None;
                }
                let h0 = hex_digit_val(s[j + 2]);
                let h1 = hex_digit_val(s[j + 3]);
                let h2 = hex_digit_val(s[j + 4]);
                let h3 = hex_digit_val(s[j + 5]);
                if h0 < 0 || h1 < 0 || h2 < 0 || h3 < 0 {
                    return None;
                }
                let code: u32 = (h0 as u32) * 4096 + (h1 as u32) * 256 + (h2 as u32) * 16 + (
                h3 as u32);
                if 0xD800 <= code && code <= 0xDFFF {
                    return None;
                }
                match char_from_code(code) {
                    Some(ch) => {
                        proof {
                            let cs = hex_val(s@[j as int + 2]) * 4096 + hex_val(
                                s@[j as int + 3],
                            ) * 256 + hex_val(s@[j as int + 4]) * 16 + hex_val(s@[j as int + 5]);
                            assert(0 <= hex_val(s@[j as int + 2]) <= 15);
                            assert(0 <= hex_val(s@[j as int + 3]) <= 15);
                            assert(0 <= hex_val(s@[j as int + 4]) <= 15);
                            assert(0 <= hex_val(s@[j as int + 5]) <= 15);
                            assert(code as int == cs);
                            assert(cs as u32 == code);
                            assert(ch as u32 == code);
                            vstd::utf8::char_u32_cast(ch, cs as u32);
                            assert(ch == ((cs as u32) as char));
                        }
                        acc.push(ch);
                        j = j + 6;
                    },
                    None => {
                        proof {
                            assert(false);
                        }
                        return None;
                    },
                }
            } else {
                return None;
            }
        } else if ' ' > c {
            return None;
        } else {
            acc.push(c);
            j = j + 1;
        }
    }
}

// ---------------------------------------------------------------------------
// Numbers
// ---------------------------------------------------------------------------

/// After the integer part of a number at `j`: the end of the optional
/// fraction and exponent, or `None` where they are malformed.
pub open spec fn after_int(s: Seq<char>, j: int) -> Option<int> {
    if j < s.len() && s[j] == '.' {
        if j + 1 < s.len() && is_digit(s[j + 1]) {
            after_exp(s, digits_end(s, j + 1))
        } else {
            None
        }
    } else {
        after_exp(s, j)
    }
}

/// After the fraction of a number at `k`: the end of the optional exponent,
/// or `None` where it is malformed.
pub open spec fn after_exp(s: Seq<char>, k: int) -> Option<int> {
    if k < s.len() && (s[k] == 'e' || s[k] == 'E') {
        let m = if k + 1 < s.len() && (s[k + 1] == '+' || s[k + 1] == '-') {
            k + 2
        } else {
            k + 1
        };
        if m < s.len() && is_digit(s[m]) {
            Some(digits_end(s, m))
        } else {
            None
        }
    } else {
        Some(k)
    }
}

/// The position after a JSON number starting at `i`, or `None` where no
/// number starts there.
pub open spec fn num_end(s: Seq<char>, i: int) -> Option<int> {
    let j = if i < s.len() && s[i] == '-' {
        i + 1
    } else {
        i
    };
    if j < s.len() && s[j] == '0' {
        after_int(s, j + 1)
    } else if j < s.len() && is_digit(s[j]) {
        after_int(s, digits_end(s, j + 1))
    } else {
        None
    }
}

pub proof fn lemma_after_exp(s: Seq<char>, k: int)
    requires
        0 <= k <= s.len(),
    ensures
        after_exp(s, k) matches Some(e) ==> k <= e <= s.len(),
{
    if k < s.len() && (s[k] == 'e' || s[k] == 'E') {
        let m = if k + 1 < s.len() && (s[k + 1] == '+' || s[k + 1] == '-') {
            k + 2
        } else {
            k + 1
        };
        if m < s.len() && is_digit(s[m]) {
            lemma_digits_end(s, m);
        }
    }
}

pub proof fn lemma_after_int(s: Seq<char>, j: int)
    requires
        0 <= j <= s.len(),
    ensures
        after_int(s, j) matches Some(e) ==> j <= e <= s.len(),
{
    if j < s.len() && s[j] == '.' {
        if j + 1 < s.len() && is_digit(s[j + 1]) {
            lemma_digits_end(s, j + 1);
            lemma_after_exp(s, digits_end(s, j + 1));
        }
    } else {
        lemma_after_exp(s, j);
    }
}

pub proof fn lemma_num_end(s: Seq<char>, i: int)
    requires
        0 <= i <= s.len(),
    ensures
        num_end(s, i) matches Some(e) ==> i < e <= s.len(),
{
    let j = if i < s.len() && s[i] == '-' {
        i + 1
    } else {
        i
    };
    if j < s.len() && s[j] == '0' {
        lemma_after_int(s, j + 1);
    } else if j < s.len() && is_digit(s[j]) {
        lemma_digits_end(s, j + 1);
        lemma_after_int(s, digits_end(s, j + 1));
    }
}

fn after_exp_exec(s: &Vec<char>, k: usize) -> (r: Option<usize>)
    requires
        k <= s@.len(),
    ensures
        match r {
            Some(e) => after_exp(s@, k as int) == Some(e as int) && k <= e <= s@.len(),
            None => after_exp(s@, k as int) is None,
        },
{
    if k < s.len() && (s[k] == 'e' || s[k] == 'E') {
        let m = if k + 1 < s.len() && (s[k + 1] == '+' || s[k + 1] == '-') {
            k + 2
        } else {
            k + 1
        };
        if m < s.len() && is_digit_char(s[m]) {
            Some(digits_skip(s, m))
        } else {
            None
        }
    } else {
        Some(k)
    }
}

fn after_int_exec(s: &Vec<char>, j: usize) -> (r: Option<usize>)
    requires
        j <= s@.len(),
    ensures
        match r {
            Some(e) => after_int(s@, j as int) == Some(e as int) && j <= e <= s@.len(),
            None => after_int(s@, j as int) is None,
        },
{
    if j < s.len() && s[j] == '.' {
        if j + 1 < s.len() && is_digit_char(s[j + 1]) {
            after_exp_exec(s, digits_skip(s, j + 1))
        } else {
            None
        }
    } else {
        after_exp_exec(s, j)
    }
}

fn num_end_exec(s: &Vec<char>, i: usize) -> (r: Option<usize>)
    requires
        i <= s@.len(),
    ensures
        match r {
            Some(e) => num_end(s@, i as int) == Some(e as int) && i < e <= s@.len(),
            None => num_end(s@, i as int) is None,
        },
{
    let j = if i < s.len() && s[i] == '-' {
        i + 1
    } else {
        i
    };
    if j < s.len() && s[j] == '0' {
        let r = after_int_exec(s, j + 1);
        r
    } else if j < s.len() && is_digit_char(s[j]) {
        after_int_exec(s, digits_skip(s, j + 1))
    } else {
        None
    }
}


// ---------------------------------------------------------------------------
// Values
// ---------------------------------------------------------------------------

/// A member value inside the `params` object: a string, or something the
/// request logic does not read (number, boolean, null).
pub enum JPrim {
    JStr(Seq<char>),
    JOther,
}

/// A top-level member value: a string, one flat object, or something the
/// request logic does not read.
pub enum TopV {
    TStr(Seq<char>),
    TObj(Seq<(Seq<char>, JPrim)>),
    TOther,
}

pub open spec fn lit_true_at(s: Seq<char>, i: int) -> bool {
    i + 4 <= s.len() && s[i] == 't' && s[i + 1] == 'r' && s[i + 2] == 'u' && s[i + 3] == 'e'
}

pub open spec fn lit_false_at(s: Seq<char>, i: int) -> bool {
    i + 5 <= s.len() && s[i] == 'f' && s[i + 1] == 'a' && s[i + 2] == 'l' && s[i + 3] == 's'
        && s[i + 4] == 'e'
}

pub open spec fn lit_null_at(s: Seq<char>, i: int) -> bool {
    i + 4 <= s.len() && s[i] == 'n' && s[i + 1] == 'u' && s[i + 2] == 'l' && s[i + 3] == 'l'
}

/// Scan one primitive value starting at `i`: the value and the position
/// after it, or `None` where none starts there.
pub open spec fn scan_prim(s: Seq<char>, i: int) -> Option<(JPrim, int)> {
    if i >= s.len() {
        None
    } else if s[i] == '"' {
        match scan_string(s, i + 1, Seq::<char>::empty()) {
            Some(r) => Some((JPrim::JStr(r.0), r.1)),
            None => None,
        }
    } else if lit_true_at(s, i) {
        Some((JPrim::JOther, i + 4))
    } else if lit_false_at(s, i) {
        Some((JPrim::JOther, i + 5))
    } else if lit_null_at(s, i) {
        Some((JPrim::JOther, i + 4))
    } else if s[i] == '-' || is_digit(s[i]) {
        match num_end(s, i) {
            Some(e) => Some((JPrim::JOther, e)),
            None => None,
        }
    } else {
        None
    }
}

pub proof fn lemma_scan_prim(s: Seq<char>, i: int)
    requires
        0 <= i <= s.len(),
    ensures
        scan_prim(s, i) matches Some(r) ==> i < r.1 <= s.len(),
{
    if i < s.len() {
        if s[i] == '"' {
            lemma_scan_string(s, i + 1, Seq::<char>::empty());
        } else if s[i] == '-' || is_digit(s[i]) {
            lemma_num_end(s, i);
        }
    }
}

fn scan_prim_exec(s: &Vec<char>, i: usize) -> (r: Option<(PrimVal, usize)>)
    requires
        i <= s@.len(),
    ensures
        match r {
            Some(p) => scan_prim(s@, i as int) == Some((prim_view(&p.0), p.1 as int)) && i < p.1
                <= s@.len(),
            None => scan_prim(s@, i as int) is None,
        },
{
    if i >= s.len() {
        return None;
    }
    let c = s[i];
    if c == '"' {
        match scan_string_exec(s, i + 1) {
            Some(p) => Some((PrimVal::Str(p.0), p.1)),
            None => None,
        }
    } else if s.len() - i >= 4 && c == 't' && s[i + 1] == 'r' && s[i + 2] == 'u' && s[i + 3]
        == 'e' {
        Some((PrimVal::Other, i + 4))
    } else if s.len() - i >= 5 && c == 'f' && s[i + 1] == 'a' && s[i + 2] == 'l' && s[i + 3] == 's'
        && s[i + 4] == 'e' {
        Some((PrimVal::Other, i + 5))
    } else if s.len() - i >= 4 && c == 'n' && s[i + 1] == 'u' && s[i + 2] == 'l' && s[i + 3]
        == 'l' {
        Some((PrimVal::Other, i + 4))
    } else if c == '-' || is_digit_char(c) {
        match num_end_exec(s, i) {
            Some(e) => Some((PrimVal::Other, e)),
            None => None,
        }
    } else {
        None
    }
}

// ---------------------------------------------------------------------------
// Executable value representations
// ---------------------------------------------------------------------------

/// Executable form of [`JPrim`].
pub enum PrimVal {
    Str(Vec<char>),
    Other,
}

/// Executable form of [`TopV`].
pub enum TopVal {
    Str(Vec<char>),
    Obj(Vec<(Vec<char>, PrimVal)>),
    Other,
}

pub open spec fn prim_view(p: &PrimVal) -> JPrim {
    match p {
        PrimVal::Str(v) => JPrim::JStr(v@),
        PrimVal::Other => JPrim::JOther,
    }
}

pub open spec fn prim_pairs_view(ps: Seq<(Vec<char>, PrimVal)>) -> Seq<(Seq<char>, JPrim)> {
    ps.map_values(|q: (Vec<char>, PrimVal)| (q.0@, prim_view(&q.1)))
}

pub open spec fn top_view(t: &TopVal) -> TopV {
    match t {
        TopVal::Str(v) => TopV::TStr(v@),
        TopVal::Obj(ms) => TopV::TObj(prim_pairs_view(ms@)),
        TopVal::Other => TopV::TOther,
    }
}

pub open spec fn top_pairs_view(ms: Seq<(Vec<char>, TopVal)>) -> Seq<(Seq<char>, TopV)> {
    ms.map_values(|q: (Vec<char>, TopVal)| (q.0@, top_view(&q.1)))
}

// ---------------------------------------------------------------------------
// Flat objects
// ---------------------------------------------------------------------------

/// Scan the members of a flat object from `i` (just after the opening brace
/// or a comma), with `acc` the members already read: the members and the
/// position after the closing brace, or `None` where they are malformed.
pub open spec fn scan_pairs(s: Seq<char>, i: int, acc: Seq<(Seq<char>, JPrim)>) -> Option<
    (Seq<(Seq<char>, JPrim)>, int),
>
    decreases s.len() - i when 0 <= i <= s.len() via scan_pairs_dec
{
    let j = ws_end(s, i);
    if j < s.len() && s[j] == '"' {
        match scan_string(s, j + 1, Seq::<char>::empty()) {
            None => None,
            Some(kr) => {
                let m = ws_end(s, kr.1);
                if m < s.len() && s[m] == ':' {
                    match scan_prim(s, ws_end(s, m + 1)) {
                        None => None,
                        Some(vr) => {
                            let q = ws_end(s, vr.1);
                            if q < s.len() && s[q] == ',' {
                                scan_pairs(s, q + 1, acc.push((kr.0, vr.0)))
                            } else if q < s.len() && s[q] == '}' {
                                Some((acc.push((kr.0, vr.0)), q + 1))
                            } else {
                                None
                            }
                        },
                    }
                } else {
                    None
                }
            },
        }
    } else {
        None
    }
}

#[via_fn]
proof fn scan_pairs_dec(s: Seq<char>, i: int, acc: Seq<(Seq<char>, JPrim)>) {
    lemma_ws_end(s, i);
    let j = ws_end(s, i);
    if j < s.len() && s[j] == '"' {
        lemma_scan_string(s, j + 1, Seq::<char>::empty());
        if let Some(kr) = scan_string(s, j + 1, Seq::<char>::empty()) {
            lemma_ws_end(s, kr.1);
            let m = ws_end(s, kr.1);
            if m < s.len() && s[m] == ':' {
                lemma_ws_end(s, m + 1);
                lemma_scan_prim(s, ws_end(s, m + 1));
                if let Some(vr) = scan_prim(s, ws_end(s, m + 1)) {
                    lemma_ws_end(s, vr.1);
                }
            }
        }
    }
}

pub proof fn lemma_scan_pairs(s: Seq<char>, i: int, acc: Seq<(Seq<char>, JPrim)>)
    requires
        0 <= i <= s.len(),
    ensures
        scan_pairs(s, i, acc) matches Some(r) ==> i < r.1 <= s.len(),
    decreases s.len() - i,
{
    lemma_ws_end(s, i);
    let j = ws_end(s, i);
    if j < s.len() && s[j] == '"' {
        lemma_scan_string(s, j + 1, Seq::<char>::empty());
        if let Some(kr) = scan_string(s, j + 1, Seq::<char>::empty()) {
            lemma_ws_end(s, kr.1);
            let m = ws_end(s, kr.1);
            if m < s.len() && s[m] == ':' {
                lemma_ws_end(s, m + 1);
                lemma_scan_prim(s, ws_end(s, m + 1));
                if let Some(vr) = scan_prim(s, ws_end(s, m + 1)) {
                    lemma_ws_end(s, vr.1);
                    let q = ws_end(s, vr.1);
                    if q < s.len() && s[q] == ',' {
                        lemma_scan_pairs(s, q + 1, acc.push((kr.0, vr.0)));
                    }
                }
            }
        }
    }
}

fn scan_pairs_exec(s: &Vec<char>, i: usize) -> (r: Option<(Vec<(Vec<char>, PrimVal)>, usize)>)
    requires
        i <= s@.len(),
    ensures
        match r {
            Some(p) => scan_pairs(s@, i as int, Seq::empty()) == Some(
                (prim_pairs_view(p.0@), p.1 as int),
            ) && i < p.1 <= s@.len(),
            None => scan_pairs(s@, i as int, Seq::empty()) is None,
        },
{
    let mut acc: Vec<(Vec<char>, PrimVal)> = Vec::new();
    let mut cur = i;
    proof {
        assert(prim_pairs_view(acc@) =~= Seq::<(Seq<char>, JPrim)>::empty());
    }
    loop
        invariant
            i <= cur <= s@.len(),
            scan_pairs(s@, i as int, Seq::empty()) == scan_pairs(
                s@,
                cur as int,
                prim_pairs_view(acc@),
            ),
        decreases s@.len() - cur,
    {
        let j = ws_skip(s, cur);
        if j >= s.len() || s[j] != '"' {
            return None;
        }
        let kr = match scan_string_exec(s, j + 1) {
            Some(x) => x,
            None => {
                return None;
            },
        };
        let m = ws_skip(s, kr.1);
        if m >= s.len() || s[m] != ':' {
            return None;
        }
        let vstart = ws_skip(s, m + 1);
        let vr = match scan_prim_exec(s, vstart) {
            Some(x) => x,
            None => {
                return None;
            },
        };
        let q = ws_skip(s, vr.1);
        let ghost pre = acc@;
        let ghost kv = (kr.0@, prim_view(&vr.0));
        if q < s.len() && s[q] == ',' {
            acc.push((kr.0, vr.0));
            proof {
                assert(prim_pairs_view(acc@) =~= prim_pairs_view(pre).push(kv));
            }
            cur = q + 1;
        } else if q < s.len() && s[q] == '}' {
            acc.push((kr.0, vr.0));
            proof {
                assert(prim_pairs_view(acc@) =~= prim_pairs_view(pre).push(kv));
            }
            return Some((acc, q + 1));
        } else {
            return None;
        }
    }
}

// ---------------------------------------------------------------------------
// The top-level object
// ---------------------------------------------------------------------------

/// Scan one top-level member value starting at `i`.
pub open spec fn scan_topval(s: Seq<char>, i: int) -> Option<(TopV, int)> {
    if i < s.len() && s[i] == '{' {
        let j = ws_end(s, i + 1);
        if j < s.len() && s[j] == '}' {
            Some((TopV::TObj(Seq::empty()), j + 1))
        } else {
            match scan_pairs(s, i + 1, Seq::empty()) {
                Some(r) => Some((TopV::TObj(r.0), r.1)),
                None => None,
            }
        }
    } else {
        match scan_prim(s, i) {
            Some(r) => Some(
                (
                    match r.0 {
                        JPrim::JStr(t) => TopV::TStr(t),
                        JPrim::JOther => TopV::TOther,
                    },
                    r.1,
                ),
            ),
            None => None,
        }
    }
}

pub proof fn lemma_scan_topval(s: Seq<char>, i: int)
    requires
        0 <= i <= s.len(),
    ensures
        scan_topval(s, i) matches Some(r) ==> i < r.1 <= s.len(),
{
    if i < s.len() && s[i] == '{' {
        lemma_ws_end(s, i + 1);
        lemma_scan_pairs(s, i + 1, Seq::empty());
    } else {
        lemma_scan_prim(s, i);
    }
}

fn scan_topval_exec(s: &Vec<char>, i: usize) -> (r: Option<(TopVal, usize)>)
    requires
        i <= s@.len(),
    ensures
        match r {
            Some(p) => scan_topval(s@, i as int) == Some((top_view(&p.0), p.1 as int)) && i < p.1
                <= s@.len(),
            None => scan_topval(s@, i as int) is None,
        },
{
    if i < s.len() && s[i] == '{' {
        let j = ws_skip(s, i + 1);
        if j < s.len() && s[j] == '}' {
            proof {
                assert(prim_pairs_view(Seq::empty()) =~= Seq::<(Seq<char>, JPrim)>::empty());
            }
            Some((TopVal::Obj(Vec::new()), j + 1))
        } else {
            match scan_pairs_exec(s, i + 1) {
                Some(p) => Some((TopVal::Obj(p.0), p.1)),
                None => None,
            }
        }
    } else {
        match scan_prim_exec(s, i) {
            Some(p) => {
                match p.0 {
                    PrimVal::Str(t) => Some((TopVal::Str(t), p.1)),
                    PrimVal::Other => Some((TopVal::Other, p.1)),
                }
            },
            None => None,
        }
    }
}

/// Scan the members of the top-level object from `i` (just after the opening
/// brace or a comma), with `acc` the members already read.
pub open spec fn scan_top_pairs(s: Seq<char>, i: int, acc: Seq<(Seq<char>, TopV)>) -> Option<
    (Seq<(Seq<char>, TopV)>, int),
>
    decreases s.len() - i when 0 <= i <= s.len() via scan_top_pairs_dec
{
    let j = ws_end(s, i);
    if j < s.len() && s[j] == '"' {
        match scan_string(s, j + 1, Seq::<char>::empty()) {
            None => None,
            Some(kr) => {
                let m = ws_end(s, kr.1);
                if m < s.len() && s[m] == ':' {
                    match scan_topval(s, ws_end(s, m + 1)) {
                        None => None,
                        Some(vr) => {
                            let q = ws_end(s, vr.1);
                            if q < s.len() && s[q] == ',' {
                                scan_top_pairs(s, q + 1, acc.push((kr.0, vr.0)))
                            } else if q < s.len() && s[q] == '}' {
                                Some((acc.push((kr.0, vr.0)), q + 1))
                            } else {
                                None
                            }
                        },
                    }
                } else {
                    None
                }
            },
        }
    } else {
        None
    }
}

#[via_fn]
proof fn scan_top_pairs_dec(s: Seq<char>, i: int, acc: Seq<(Seq<char>, TopV)>) {
    lemma_ws_end(s, i);
    let j = ws_end(s, i);
    if j < s.len() && s[j] == '"' {
        lemma_scan_string(s, j + 1, Seq::<char>::empty());
        if let Some(kr) = scan_string(s, j + 1, Seq::<char>::empty()) {
            lemma_ws_end(s, kr.1);
            let m = ws_end(s, kr.1);
            if m < s.len() && s[m] == ':' {
                lemma_ws_end(s, m + 1);
                lemma_scan_topval(s, ws_end(s, m + 1));
                if let Some(vr) = scan_topval(s, ws_end(s, m + 1)) {
                    lemma_ws_end(s, vr.1);
                }
            }
        }
    }
}

fn scan_top_pairs_exec(s: &Vec<char>, i: usize) -> (r: Option<(Vec<(Vec<char>, TopVal)>, usize)>)
    requires
        i <= s@.len(),
    ensures
        match r {
            Some(p) => scan_top_pairs(s@, i as int, Seq::empty()) == Some(
                (top_pairs_view(p.0@), p.1 as int),
            ) && i < p.1 <= s@.len(),
            None => scan_top_pairs(s@, i as int, Seq::empty()) is None,
        },
{
    let mut acc: Vec<(Vec<char>, TopVal)> = Vec::new();
    let mut cur = i;
    proof {
        assert(top_pairs_view(acc@) =~= Seq::<(Seq<char>, TopV)>::empty());
    }
    loop
        invariant
            i <= cur <= s@.len(),
            scan_top_pairs(s@, i as int, Seq::empty()) == scan_top_pairs(
                s@,
                cur as int,
                top_pairs_view(acc@),
            ),
        decreases s@.len() - cur,
    {
        let j = ws_skip(s, cur);
        if j >= s.len() || s[j] != '"' {
            return None;
        }
        let kr = match scan_string_exec(s, j + 1) {
            Some(x) => x,
            None => {
                return None;
            },
        };
        let m = ws_skip(s, kr.1);
        if m >= s.len() || s[m] != ':' {
            return None;
        }
        let vstart = ws_skip(s, m + 1);
        let vr = match scan_topval_exec(s, vstart) {
            Some(x) => x,
            None => {
                return None;
            },
        };
        let q = ws_skip(s, vr.1);
        let ghost pre = acc@;
        let ghost kv = (kr.0@, top_view(&vr.0));
        if q < s.len() && s[q] == ',' {
            acc.push((kr.0, vr.0));
            proof {
                assert(top_pairs_view(acc@) =~= top_pairs_view(pre).push(kv));
            }
            cur = q + 1;
        } else if q < s.len() && s[q] == '}' {
            acc.push((kr.0, vr.0));
            proof {
                assert(top_pairs_view(acc@) =~= top_pairs_view(pre).push(kv));
            }
            return Some((acc, q + 1));
        } else {
            return None;
        }
    }
}

/// Parse a whole body as the top-level object: its members, or `None` where
/// the body is not one object covering the whole input.
pub open spec fn parse_top(s: Seq<char>) -> Option<Seq<(Seq<char>, TopV)>> {
    let i = ws_end(s, 0);
    if i < s.len() && s[i] == '{' {
        let j = ws_end(s, i + 1);
        if j < s.len() && s[j] == '}' {
            if ws_end(s, j + 1) == s.len() {
                Some(Seq::empty())
            } else {
                None
            }
        } else {
            match scan_top_pairs(s, i + 1, Seq::empty()) {
                Some(r) => if ws_end(s, r.1) == s.len() {
                    Some(r.0)
                } else {
                    None
                },
                None => None,
            }
        }
    } else {
        None
    }
}

fn parse_top_exec(s: &Vec<char>) -> (r: Option<Vec<(Vec<char>, TopVal)>>)
    ensures
        match r {
            Some(ms) => parse_top(s@) == Some(top_pairs_view(ms@)),
            None => parse_top(s@) is None,
        },
{
    let i = ws_skip(s, 0);
    if i >= s.len() || s[i] != '{' {
        return None;
    }
    let j = ws_skip(s, i + 1);
    if j < s.len() && s[j] == '}' {
        if ws_skip(s, j + 1) == s.len() {
            proof {
                assert(top_pairs_view(Seq::empty()) =~= Seq::<(Seq<char>, TopV)>::empty());
            }
            Some(Vec::new())
        } else {
            None
        }
    } else {
        match scan_top_pairs_exec(s, i + 1) {
            Some(p) => {
                if ws_skip(s, p.1) == s.len() {
                    Some(p.0)
                } else {
                    None
                }
            },
            None => None,
        }
    }
}


// ---------------------------------------------------------------------------
// Member lookup
// ---------------------------------------------------------------------------

/// How often the key `k` occurs among the members `ms`.
pub open spec fn count_key<V>(ms: Seq<(Seq<char>, V)>, k: Seq<char>) -> int
    decreases ms.len(),
{
    if ms.len() == 0 {
        0
    } else {
        (if ms[0].0 == k {
            1int
        } else {
            0int
        }) + count_key(ms.drop_first(), k)
    }
}

/// The value of the first member named `k`, if any.
pub open spec fn find_key<V>(ms: Seq<(Seq<char>, V)>, k: Seq<char>) -> Option<V>
    decreases ms.len(),
{
    if ms.len() == 0 {
        None
    } else if ms[0].0 == k {
        Some(ms[0].1)
    } else {
        find_key(ms.drop_first(), k)
    }
}

fn probe_top(ms: &Vec<(Vec<char>, TopVal)>, key: &str) -> (r: (usize, usize))
    ensures
        r.0 as int == count_key(top_pairs_view(ms@), key@),
        r.0 > 0 ==> r.1 < ms@.len() && find_key(top_pairs_view(ms@), key@) == Some(
            top_view(&ms@[r.1 as int].1),
        ),
{
    let ghost msv = top_pairs_view(ms@);
    let mut cnt: usize = 0;
    let mut hit: usize = 0;
    let mut idx: usize = 0;
    proof {
        assert(msv.skip(0) =~= msv);
    }
    while idx < ms.len()
        invariant
            idx <= ms@.len(),
            cnt <= idx,
            msv == top_pairs_view(ms@),
            msv.len() == ms@.len(),
            count_key(msv, key@) == cnt + count_key(msv.skip(idx as int), key@),
            cnt > 0 ==> hit < idx && msv[hit as int].0 == key@ && find_key(msv, key@) == Some(
                msv[hit as int].1,
            ),
            cnt == 0 ==> find_key(msv, key@) == find_key(msv.skip(idx as int), key@),
        decreases ms@.len() - idx,
    {
        let entry = &ms[idx];
        let same = chars_eq(&entry.0, key);
        proof {
            assert(msv.skip(idx as int).drop_first() =~= msv.skip(idx as int + 1));
            assert(msv.skip(idx as int)[0] == msv[idx as int]);
            assert(msv[idx as int].0 == ms@[idx as int].0@);
        }
        if same {
            if cnt == 0 {
                hit = idx;
            }
            cnt = cnt + 1;
        }
        idx = idx + 1;
    }
    proof {
        assert(msv.skip(msv.len() as int) =~= Seq::<(Seq<char>, TopV)>::empty());
    }
    (cnt, hit)
}

fn probe_prim(ms: &Vec<(Vec<char>, PrimVal)>, key: &str) -> (r: (usize, usize))
    ensures
        r.0 as int == count_key(prim_pairs_view(ms@), key@),
        r.0 > 0 ==> r.1 < ms@.len() && find_key(prim_pairs_view(ms@), key@) == Some(
            prim_view(&ms@[r.1 as int].1),
        ),
{
    let ghost msv = prim_pairs_view(ms@);
    let mut cnt: usize = 0;
    let mut hit: usize = 0;
    let mut idx: usize = 0;
    proof {
        assert(msv.skip(0) =~= msv);
    }
    while idx < ms.len()
        invariant
            idx <= ms@.len(),
            cnt <= idx,
            msv == prim_pairs_view(ms@),
            msv.len() == ms@.len(),
            count_key(msv, key@) == cnt + count_key(msv.skip(idx as int), key@),
            cnt > 0 ==> hit < idx && msv[hit as int].0 == key@ && find_key(msv, key@) == Some(
                msv[hit as int].1,
            ),
            cnt == 0 ==> find_key(msv, key@) == find_key(msv.skip(idx as int), key@),
        decreases ms@.len() - idx,
    {
        let entry = &ms[idx];
        let same = chars_eq(&entry.0, key);
        proof {
            assert(msv.skip(idx as int).drop_first() =~= msv.skip(idx as int + 1));
            assert(msv.skip(idx as int)[0] == msv[idx as int]);
            assert(msv[idx as int].0 == ms@[idx as int].0@);
        }
        if same {
            if cnt == 0 {
                hit = idx;
            }
            cnt = cnt + 1;
        }
        idx = idx + 1;
    }
    proof {
        assert(msv.skip(msv.len() as int) =~= Seq::<(Seq<char>, JPrim)>::empty());
    }
    (cnt, hit)
}

// ---------------------------------------------------------------------------
// The request
// ---------------------------------------------------------------------------

/// What a decoded request body means.
pub enum ReqView {
    PayInvoice(Seq<char>),
    UnknownMethod,
    Malformed,
}

/// The meaning of the members of a request body: the one recognized method
/// with its invoice, a well-formed request for some other method, or a
/// malformed body.
pub open spec fn req_of_members(ms: Seq<(Seq<char>, TopV)>) -> ReqView {
    if count_key(ms, "method"@) != 1 {
        ReqView::Malformed
    } else {
        match find_key(ms, "method"@) {
            Some(TopV::TStr(m)) => {
                if m != "pay_invoice"@ {
                    ReqView::UnknownMethod
                } else if count_key(ms, "params"@) != 1 {
                    ReqView::Malformed
                } else {
                    match find_key(ms, "params"@) {
                        Some(TopV::TObj(ps)) => {
                            if count_key(ps, "invoice"@) != 1 {
                                ReqView::Malformed
                            } else {
                                match find_key(ps, "invoice"@) {
                                    Some(JPrim::JStr(inv)) => ReqView::PayInvoice(inv),
                                    _ => ReqView::Malformed,
                                }
                            }
                        },
                        _ => ReqView::Malformed,
                    }
                }
            },
            _ => ReqView::Malformed,
        }
    }
}

/// The meaning of a whole decrypted body.
pub open spec fn parse_request(s: Seq<char>) -> ReqView {
    match parse_top(s) {
        Some(ms) => req_of_members(ms),
        None => ReqView::Malformed,
    }
}

/// A decoded request body.
pub enum ParsedRequest {
    PayInvoice { invoice: String },
    UnknownMethod,
    Malformed,
}

pub open spec fn parsed_view(r: &ParsedRequest) -> ReqView {
    match r {
        ParsedRequest::PayInvoice { invoice } => ReqView::PayInvoice(invoice@),
        ParsedRequest::UnknownMethod => ReqView::UnknownMethod,
        ParsedRequest::Malformed => ReqView::Malformed,
    }
}

/// Decode a decrypted request body: the `pay_invoice` invoice, a well-formed
/// request for an unrecognized method, or a malformed body. Total: every
/// input falls in exactly one of the three.
pub fn decode_request(plain: &str) -> (r: ParsedRequest)
    ensures
        parsed_view(&r) == parse_request(plain@),
{
    let cs = chars_of(plain);
    let ms = match parse_top_exec(&cs) {
        Some(m) => m,
        None => {
            return ParsedRequest::Malformed;
        },
    };
    let (mcnt, mix) = probe_top(&ms, "method");
    if mcnt != 1 {
        return ParsedRequest::Malformed;
    }
    let mval = &ms[mix].1;
    match mval {
        TopVal::Str(mstr) => {
            if !chars_eq(mstr, "pay_invoice") {
                return ParsedRequest::UnknownMethod;
            }
            let (pcnt, pix) = probe_top(&ms, "params");
            if pcnt != 1 {
                return ParsedRequest::Malformed;
            }
            let pval = &ms[pix].1;
            match pval {
                TopVal::Obj(ps) => {
                    let (icnt, iix) = probe_prim(ps, "invoice");
                    if icnt != 1 {
                        return ParsedRequest::Malformed;
                    }
                    let ival = &ps[iix].1;
                    match ival {
                        PrimVal::Str(iv) => {
                            let invoice = string_from_chars(iv);
                            ParsedRequest::PayInvoice { invoice }
                        },
                        PrimVal::Other => ParsedRequest::Malformed,
                    }
                },
                TopVal::Str(_) => ParsedRequest::Malformed,
                TopVal::Other => ParsedRequest::Malformed,
            }
        },
        TopVal::Obj(_) => ParsedRequest::Malformed,
        TopVal::Other => ParsedRequest::Malformed,
    }
}

// ---------------------------------------------------------------------------
// Escaping
// ---------------------------------------------------------------------------

/// The hex digit for a value below sixteen.
pub open spec fn hex_digit(d: int) -> char {
    if d == 0 {
        '0'
    } else if d == 1 {
        '1'
    } else if d == 2 {
        '2'
    } else if d == 3 {
        '3'
    } else if d == 4 {
        '4'
    } else if d == 5 {
        '5'
    } else if d == 6 {
        '6'
    } else if d == 7 {
        '7'
    } else if d == 8 {
        '8'
    } else if d == 9 {
        '9'
    } else if d == 10 {
        'a'
    } else if d == 11 {
        'b'
    } else if d == 12 {
        'c'
    } else if d == 13 {
        'd'
    } else if d == 14 {
        'e'
    } else {
        'f'
    }
}

/// How one character appears inside a JSON string literal.
pub open spec fn esc_char(c: char) -> Seq<char> {
    if c == '"' {
        seq!['\\', '"']
    } else if c == '\\' {
        seq!['\\', '\\']
    } else if c == '\n' {
        seq!['\\', 'n']
    } else if c == '\r' {
        seq!['\\', 'r']
    } else if c == '\t' {
        seq!['\\', 't']
    } else if ' ' > c {
        seq!['\\', 'u', '0', '0', hex_digit((c as int) / 16), hex_digit((c as int) % 16)]
    } else {
        seq![c]
    }
}

pub open spec fn esc_from(s: Seq<char>, i: int, acc: Seq<char>) -> Seq<char>
    decreases s.len() - i when 0 <= i <= s.len()
{
    if i >= s.len() {
        acc
    } else {
        esc_from(s, i + 1, acc + esc_char(s[i]))
    }
}

/// The body of a JSON string literal holding exactly the text `s`.
pub open spec fn json_escaped(s: Seq<char>) -> Seq<char> {
    esc_from(s, 0, Seq::empty())
}

proof fn lemma_esc_from_acc(s: Seq<char>, i: int, acc: Seq<char>)
    requires
        0 <= i <= s.len(),
    ensures
        esc_from(s, i, acc) == acc + esc_from(s, i, Seq::empty()),
    decreases s.len() - i,
{
    if i >= s.len() {
        assert(acc + Seq::<char>::empty() =~= acc);
    } else {
        lemma_esc_from_acc(s, i + 1, acc + esc_char(s[i]));
        lemma_esc_from_acc(s, i + 1, Seq::<char>::empty() + esc_char(s[i]));
        assert(Seq::<char>::empty() + esc_char(s[i]) =~= esc_char(s[i]));
        assert((acc + esc_char(s[i])) + esc_from(s, i + 1, Seq::empty()) =~= acc + (esc_char(s[i])
            + esc_from(s, i + 1, Seq::empty())));
    }
}

fn hex_digit_char(d: u32) -> (c: char)
    requires
        d < 16,
    ensures
        c == hex_digit(d as int),
{
    if d == 0 {
        '0'
    } else if d == 1 {
        '1'
    } else if d == 2 {
        '2'
    } else if d == 3 {
        '3'
    } else if d == 4 {
        '4'
    } else if d == 5 {
        '5'
    } else if d == 6 {
        '6'
    } else if d == 7 {
        '7'
    } else if d == 8 {
        '8'
    } else if d == 9 {
        '9'
    } else if d == 10 {
        'a'
    } else if d == 11 {
        'b'
    } else if d == 12 {
        'c'
    } else if d == 13 {
        'd'
    } else if d == 14 {
        'e'
    } else {
        'f'
    }
}

/// Append the text of `s`, escaped for a JSON string literal, to `out`.
pub fn append_escaped(out: &mut String, s: &String)
    ensures
        final(out)@ == old(out)@ + json_escaped(s@),
{
    broadcast use vstd::utf8::char_u32_cast;

    let sv = s.as_str();
    let n = sv.unicode_len();
    let mut i: usize = 0;
    while i < n
        invariant
            i <= n,
            n == s@.len(),
            sv@ == s@,
            out@ + esc_from(s@, i as int, Seq::empty()) == old(out)@ + json_escaped(s@),
        decreases n - i,
    {
        let c = sv.get_char(i);
        let ghost pre = out@;
        if c == '"' {
            push_char(out, '\\');
            push_char(out, '"');
        } else if c == '\\' {
            push_char(out, '\\');
            push_char(out, '\\');
        } else if c == '\n' {
            push_char(out, '\\');
            push_char(out, 'n');
        } else if c == '\r' {
            push_char(out, '\\');
            push_char(out, 'r');
        } else if c == '\t' {
            push_char(out, '\\');
            push_char(out, 't');
        } else if ' ' > c {
            let u = c as u32;
            proof {
                assert(u < 0x20);
                assert(u as int == c as int);
            }
            push_char(out, '\\');
            push_char(out, 'u');
            push_char(out, '0');
            push_char(out, '0');
            push_char(out, hex_digit_char(u / 16));
            push_char(out, hex_digit_char(u % 16));
        } else {
            push_char(out, c);
        }
        proof {
            assert(out@ =~= pre + esc_char(s@[i as int]));
            lemma_esc_from_acc(s@, i as int + 1, Seq::<char>::empty() + esc_char(s@[i as int]));
            assert(Seq::<char>::empty() + esc_char(s@[i as int]) =~= esc_char(s@[i as int]));
            assert(pre + (esc_char(s@[i as int]) + esc_from(s@, i as int + 1, Seq::empty())) =~= (
            pre + esc_char(s@[i as int])) + esc_from(s@, i as int + 1, Seq::empty()));
        }
        i = i + 1;
    }
}

} // verus!
