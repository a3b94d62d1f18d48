//! Virtual-key classification used by the keyboard hook, trigger matching and
//! text expansion.

use vstd::prelude::*;
use crate::text::{
    all_digits, ascii_lower_seq, chars_equal, dec_chars, digits_value, is_digit, push_char,
    push_decimal, str_chars, string_from_chars, string_from_str, to_ascii_lower, trim_chars,
    trimmed,
};

verus! {

/// A mouse button that the recorder and the playback engine can press.
#[derive(Debug, Clone, Copy, PartialEq, Eq, Hash, Structural)]
pub enum MouseButton {
    Left,
    Right,
    Middle,
    X1,
    X2,
}

/// Direction of a key or mouse-button transition.
#[derive(Debug, Clone, Copy, PartialEq, Eq, Hash, Structural)]
pub enum KeyAction {
    Down,
    Up,
}

/// The generic virtual key that a side-specific modifier stands for.
pub open spec fn canonical_vk(vk: u32) -> u32 {
    if vk == 0xA0 || vk == 0xA1 {
        0x10
    } else if vk == 0xA2 || vk == 0xA3 {
        0x11
    } else if vk == 0xA4 || vk == 0xA5 {
        0x12
    } else if vk == 0x5C {
        0x5B
    } else {
        vk
    }
}

/// Folds left/right Shift, Ctrl, Alt and Windows keys into their generic codes.
pub fn canonical_virtual_key(vk: u32) -> (r: u32)
    ensures
        r == canonical_vk(vk),
{
    match vk {
        0xA0 | 0xA1 => 0x10,
        0xA2 | 0xA3 => 0x11,
        0xA4 | 0xA5 => 0x12,
        0x5B | 0x5C => 0x5B,
        _ => vk,
    }
}

pub open spec fn spec_is_shift(vk: u32) -> bool {
    vk == 0x10 || vk == 0xA0 || vk == 0xA1
}

pub open spec fn spec_is_text_modifier(vk: u32) -> bool {
    vk == 0x11 || vk == 0xA2 || vk == 0xA3 || vk == 0x12 || vk == 0xA4 || vk == 0xA5 || vk
        == 0x5B || vk == 0x5C
}

/// Generic, left or right Shift.
pub fn is_shift_key(vk: u32) -> (r: bool)
    ensures
        r == spec_is_shift(vk),
{
    vk == 0x10 || vk == 0xA0 || vk == 0xA1
}

/// Ctrl, Alt or Windows key on either side: keys that turn typing into a
/// shortcut rather than text.
pub fn is_text_modifier(vk: u32) -> (r: bool)
    ensures
        r == spec_is_text_modifier(vk),
{
    vk == 0x11 || vk == 0xA2 || vk == 0xA3 || vk == 0x12 || vk == 0xA4 || vk == 0xA5 || vk
        == 0x5B || vk == 0x5C
}

/// Any keyboard modifier.
pub fn is_keyboard_modifier(vk: u32) -> (r: bool)
    ensures
        r == (spec_is_shift(vk) || spec_is_text_modifier(vk)),
{
    is_shift_key(vk) || is_text_modifier(vk)
}

} // verus!

verus! {

/// Key names (lower-cased) that stand for one virtual key.
pub open spec fn named_key_vk(l: Seq<char>) -> Option<u32> {
    if l == seq!['s', 'h', 'i', 'f', 't'] {
        Some(0x10)
    } else if l == seq!['c', 't', 'r', 'l'] || l == seq!['c', 'o', 'n', 't', 'r', 'o', 'l'] {
        Some(0x11)
    } else if l == seq!['a', 'l', 't'] {
        Some(0x12)
    } else if l == seq!['w', 'i', 'n'] || l == seq!['w', 'i', 'n', 'd', 'o', 'w', 's'] {
        Some(0x5B)
    } else if l == seq!['e', 's', 'c'] || l == seq!['e', 's', 'c', 'a', 'p', 'e'] {
        Some(0x1B)
    } else if l == seq!['e', 'n', 't', 'e', 'r'] || l == seq!['r', 'e', 't', 'u', 'r', 'n'] {
        Some(0x0D)
    } else if l == seq!['s', 'p', 'a', 'c', 'e'] {
        Some(0x20)
    } else if l == seq!['t', 'a', 'b'] {
        Some(0x09)
    } else if l == seq!['b', 'a', 'c', 'k', 's', 'p', 'a', 'c', 'e'] {
        Some(0x08)
    } else if l == seq!['c', 'a', 'p', 's', 'l', 'o', 'c', 'k'] {
        Some(0x14)
    } else if l == seq!['l', 'e', 'f', 't'] {
        Some(0x25)
    } else if l == seq!['u', 'p'] {
        Some(0x26)
    } else if l == seq!['r', 'i', 'g', 'h', 't'] {
        Some(0x27)
    } else if l == seq!['d', 'o', 'w', 'n'] {
        Some(0x28)
    } else if l == seq!['d', 'e', 'l', 'e', 't', 'e'] {
        Some(0x2E)
    } else if l == seq!['i', 'n', 's', 'e', 'r', 't'] {
        Some(0x2D)
    } else if l == seq!['h', 'o', 'm', 'e'] {
        Some(0x24)
    } else if l == seq!['e', 'n', 'd'] {
        Some(0x23)
    } else if l == seq!['p', 'a', 'g', 'e', 'u', 'p'] {
        Some(0x21)
    } else if l == seq!['p', 'a', 'g', 'e', 'd', 'o', 'w', 'n'] {
        Some(0x22)
    } else {
        None
    }
}

/// One to three decimal digits without a leading zero.
pub open spec fn small_decimal(s: Seq<char>) -> Option<nat> {
    if 1 <= s.len() <= 3 && all_digits(s) && s[0] != '0' {
        Some(digits_value(s))
    } else {
        None
    }
}

/// The virtual key of a lower-cased, trimmed key name: a letter, a digit,
/// `f1`..`f24`, `vk1`..`vk254` or one of the named keys.
pub open spec fn lower_key_vk(l: Seq<char>) -> Option<u32> {
    if l.len() == 1 && 'a' <= l[0] && l[0] <= 'z' {
        Some(((l[0] as u32) - 32) as u32)
    } else if l.len() == 1 && is_digit(l[0]) {
        Some(l[0] as u32)
    } else if l.len() >= 2 && l[0] == 'f' && small_decimal(l.drop_first()) is Some
        && 1 <= small_decimal(l.drop_first())->0 <= 24 {
        Some((0x6F + small_decimal(l.drop_first())->0) as u32)
    } else if l.len() >= 3 && l[0] == 'v' && l[1] == 'k' && small_decimal(l.subrange(2, l.len() as int)) is Some
        && 1 <= small_decimal(l.subrange(2, l.len() as int))->0 <= 254 {
        Some(small_decimal(l.subrange(2, l.len() as int))->0 as u32)
    } else {
        named_key_vk(l)
    }
}

/// The virtual key that a configured key name denotes: surrounding whitespace
/// is ignored and ASCII letters match in either case.
pub open spec fn spec_key_to_vk(name: Seq<char>) -> Option<u32> {
    lower_key_vk(ascii_lower_seq(trimmed(name)))
}

/// The name under which the recorder stores a virtual key.
pub open spec fn spec_key_name(vk: u32) -> Seq<char> {
    if vk == 0x10 {
        seq!['S', 'h', 'i', 'f', 't']
    } else if vk == 0x11 {
        seq!['C', 't', 'r', 'l']
    } else if vk == 0x12 {
        seq!['A', 'l', 't']
    } else if vk == 0x5B {
        seq!['W', 'i', 'n']
    } else if vk == 0x1B {
        seq!['E', 's', 'c']
    } else if vk == 0x0D {
        seq!['E', 'n', 't', 'e', 'r']
    } else if vk == 0x20 {
        seq!['S', 'p', 'a', 'c', 'e']
    } else if vk == 0x09 {
        seq!['T', 'a', 'b']
    } else if vk == 0x08 {
        seq!['B', 'a', 'c', 'k', 's', 'p', 'a', 'c', 'e']
    } else if vk == 0x14 {
        seq!['C', 'a', 'p', 's', 'L', 'o', 'c', 'k']
    } else if vk == 0x25 {
        seq!['L', 'e', 'f', 't']
    } else if vk == 0x26 {
        seq!['U', 'p']
    } else if vk == 0x27 {
        seq!['R', 'i', 'g', 'h', 't']
    } else if vk == 0x28 {
        seq!['D', 'o', 'w', 'n']
    } else if (0x41 <= vk <= 0x5A) || (0x30 <= vk <= 0x39) {
        seq![vk as char]
    } else if 0x70 <= vk <= 0x87 {
        seq!['F'] + dec_chars((vk - 0x6F) as nat)
    } else {
        seq!['V', 'K'] + dec_chars(vk as nat)
    }
}

fn lit(chars: &[char]) -> (r: Vec<char>)
    ensures
        r@ == chars@,
{
    let mut out: Vec<char> = Vec::new();
    let mut i: usize = 0;
    while i < chars.len()
        invariant
            i <= chars@.len(),
            out@ == chars@.subrange(0, i as int),
        decreases chars@.len() - i,
    {
        out.push(chars[i]);
        i = i + 1;
        assert(out@ =~= chars@.subrange(0, i as int));
    }
    assert(out@ =~= chars@);
    out
}

fn named_key_lookup(l: &[char]) -> (r: Option<u32>)
    ensures
        r == named_key_vk(l@),
{
    if chars_equal(l, &['s', 'h', 'i', 'f', 't']) {
        Some(0x10)
    } else if chars_equal(l, &['c', 't', 'r', 'l']) || chars_equal(
        l,
        &['c', 'o', 'n', 't', 'r', 'o', 'l'],
    ) {
        Some(0x11)
    } else if chars_equal(l, &['a', 'l', 't']) {
        Some(0x12)
    } else if chars_equal(l, &['w', 'i', 'n']) || chars_equal(
        l,
        &['w', 'i', 'n', 'd', 'o', 'w', 's'],
    ) {
        Some(0x5B)
    } else if chars_equal(l, &['e', 's', 'c']) || chars_equal(l, &['e', 's', 'c', 'a', 'p', 'e']) {
        Some(0x1B)
    } else if chars_equal(l, &['e', 'n', 't', 'e', 'r']) || chars_equal(
        l,
        &['r', 'e', 't', 'u', 'r', 'n'],
    ) {
        Some(0x0D)
    } else if chars_equal(l, &['s', 'p', 'a', 'c', 'e']) {
        Some(0x20)
    } else if chars_equal(l, &['t', 'a', 'b']) {
        Some(0x09)
    } else if chars_equal(l, &['b', 'a', 'c', 'k', 's', 'p', 'a', 'c', 'e']) {
        Some(0x08)
    } else if chars_equal(l, &['c', 'a', 'p', 's', 'l', 'o', 'c', 'k']) {
        Some(0x14)
    } else if chars_equal(l, &['l', 'e', 'f', 't']) {
        Some(0x25)
    } else if chars_equal(l, &['u', 'p']) {
        Some(0x26)
    } else if chars_equal(l, &['r', 'i', 'g', 'h', 't']) {
        Some(0x27)
    } else if chars_equal(l, &['d', 'o', 'w', 'n']) {
        Some(0x28)
    } else if chars_equal(l, &['d', 'e', 'l', 'e', 't', 'e']) {
        Some(0x2E)
    } else if chars_equal(l, &['i', 'n', 's', 'e', 'r', 't']) {
        Some(0x2D)
    } else if chars_equal(l, &['h', 'o', 'm', 'e']) {
        Some(0x24)
    } else if chars_equal(l, &['e', 'n', 'd']) {
        Some(0x23)
    } else if chars_equal(l, &['p', 'a', 'g', 'e', 'u', 'p']) {
        Some(0x21)
    } else if chars_equal(l, &['p', 'a', 'g', 'e', 'd', 'o', 'w', 'n']) {
        Some(0x22)
    } else {
        None
    }
}

/// Parses `l[from..]` as one to three digits without a leading zero.
fn small_decimal_at(l: &[char], from: usize) -> (r: Option<u32>)
    requires
        from <= l@.len(),
    ensures
        r matches Some(v) ==> small_decimal(l@.subrange(from as int, l@.len() as int)) == Some(
            v as nat,
        ),
        r is None ==> small_decimal(l@.subrange(from as int, l@.len() as int)) is None,
{
    let ghost rest = l@.subrange(from as int, l@.len() as int);
    let n = l.len() - from;
    if n < 1 || n > 3 || l[from] == '0' {
        return None;
    }
    let mut value: u32 = 0;
    let mut i: usize = from;
    while i < l.len()
        invariant
            from <= i <= l@.len(),
            l@.len() - from <= 3,
            rest == l@.subrange(from as int, l@.len() as int),
            forall|j: int| from <= j < i ==> is_digit(#[trigger] l@[j]),
            value == digits_value(l@.subrange(from as int, i as int)),
            value < 1000,
            i - from <= 3,
            value < (if i - from == 0 {
                1int
            } else if i - from == 1 {
                10int
            } else if i - from == 2 {
                100int
            } else {
                1000int
            }),
        decreases l@.len() - i,
    {
        let c = l[i];
        if !('0' <= c && c <= '9') {
            assert(rest[i - from] == l@[i as int]);
            return None;
        }
        assert(l@.subrange(from as int, i as int + 1).drop_last() =~= l@.subrange(
            from as int,
            i as int,
        ));
        value = value * 10 + (c as u32 - 48);
        i = i + 1;
    }
    assert(l@.subrange(from as int, i as int) =~= rest);
    assert forall|j: int| 0 <= j < rest.len() implies is_digit(#[trigger] rest[j]) by {
        assert(rest[j] == l@[from + j]);
    };
    Some(value)
}

/// The virtual key of a configured key name, or `None` when the name is not a key.
pub fn key_to_vk(key: &str) -> (r: Option<u32>)
    ensures
        r == spec_key_to_vk(key@),
{
    let chars = str_chars(key);
    let trimmed_chars = trim_chars(chars.as_slice());
    let l = to_ascii_lower(trimmed_chars.as_slice());
    let ghost lv = ascii_lower_seq(trimmed(key@));
    assert(l@ == lv);
    let n = l.len();
    if n == 1 && 'a' <= l[0] && l[0] <= 'z' {
        return Some((l[0] as u32) - 32);
    }
    if n == 1 && '0' <= l[0] && l[0] <= '9' {
        return Some(l[0] as u32);
    }
    if n >= 2 && l[0] == 'f' {
        assert(l@.subrange(1, n as int) =~= l@.drop_first());
        if let Some(v) = small_decimal_at(l.as_slice(), 1) {
            if 1 <= v && v <= 24 {
                return Some(0x6F + v);
            }
        }
    }
    if n >= 3 && l[0] == 'v' && l[1] == 'k' {
        if let Some(v) = small_decimal_at(l.as_slice(), 2) {
            if 1 <= v && v <= 254 {
                return Some(v);
            }
        }
    }
    named_key_lookup(l.as_slice())
}

/// The key name recorded for a virtual key.
pub fn key_name_from_vk(vk: u32) -> (r: String)
    ensures
        r@ == spec_key_name(vk),
{
    let chars: Vec<char> = if vk == 0x10 {
        lit(&['S', 'h', 'i', 'f', 't'])
    } else if vk == 0x11 {
        lit(&['C', 't', 'r', 'l'])
    } else if vk == 0x12 {
        lit(&['A', 'l', 't'])
    } else if vk == 0x5B {
        lit(&['W', 'i', 'n'])
    } else if vk == 0x1B {
        lit(&['E', 's', 'c'])
    } else if vk == 0x0D {
        lit(&['E', 'n', 't', 'e', 'r'])
    } else if vk == 0x20 {
        lit(&['S', 'p', 'a', 'c', 'e'])
    } else if vk == 0x09 {
        lit(&['T', 'a', 'b'])
    } else if vk == 0x08 {
        lit(&['B', 'a', 'c', 'k', 's', 'p', 'a', 'c', 'e'])
    } else if vk == 0x14 {
        lit(&['C', 'a', 'p', 's', 'L', 'o', 'c', 'k'])
    } else if vk == 0x25 {
        lit(&['L', 'e', 'f', 't'])
    } else if vk == 0x26 {
        lit(&['U', 'p'])
    } else if vk == 0x27 {
        lit(&['R', 'i', 'g', 'h', 't'])
    } else if vk == 0x28 {
        lit(&['D', 'o', 'w', 'n'])
    } else if (0x41 <= vk && vk <= 0x5A) || (0x30 <= vk && vk <= 0x39) {
        let c = (vk as u8) as char;
        let mut v: Vec<char> = Vec::new();
        v.push(c);
        v
    } else {
        let mut s = String::new();
        if 0x70 <= vk && vk <= 0x87 {
            push_char(&mut s, 'F');
            push_decimal(&mut s, (vk - 0x6F) as u64);
        } else {
            push_char(&mut s, 'V');
            push_char(&mut s, 'K');
            push_decimal(&mut s, vk as u64);
        }
        assert(s@ =~= spec_key_name(vk));
        return s;
    };
    string_from_chars(chars.as_slice())
}

} // verus!

verus! {

proof fn lemma_dec_chars_facts(n: nat)
    ensures
        all_digits(dec_chars(n)),
        digits_value(dec_chars(n)) == n,
        n >= 1 ==> dec_chars(n)[0] != '0',
        n < 10 ==> dec_chars(n).len() == 1,
        10 <= n < 100 ==> dec_chars(n).len() == 2,
        100 <= n < 1000 ==> dec_chars(n).len() == 3,
    decreases n,
{
    if n >= 10 {
        lemma_dec_chars_facts(n / 10);
        let s = dec_chars(n / 10);
        let t = s.push(crate::text::digit_char(n % 10));
        assert(t.drop_last() =~= s);
        assert forall|i: int| 0 <= i < t.len() implies is_digit(#[trigger] t[i]) by {
            if i < s.len() {
                assert(t[i] == s[i]);
            }
        };
        assert(t[0] == s[0]);
        assert(n == (n / 10) * 10 + n % 10) by (nonlinear_arith);
        assert(((crate::text::digit_char(n % 10)) as nat) == 48 + n % 10);
        assert(digits_value(t) == digits_value(s) * 10 + n % 10);
        assert(dec_chars(n) == t);
    } else {
        let t = seq![crate::text::digit_char(n)];
        assert(t.drop_last() =~= Seq::<char>::empty());
        assert(digits_value(Seq::<char>::empty()) == 0);
        assert(t.last() == crate::text::digit_char(n));
        assert(((crate::text::digit_char(n)) as nat) == 48 + n);
        assert(digits_value(t) == n);
        assert(dec_chars(n) == t);
    }
}

proof fn lemma_plain_name_is_trimmed(s: Seq<char>)
    requires
        forall|i: int| 0 <= i < s.len() ==> ('0' <= #[trigger] s[i] <= '9') || ('A' <= s[i] <= 'Z')
            || ('a' <= s[i] <= 'z'),
    ensures
        trimmed(s) == s,
{
    if s.len() > 0 {
        assert(!crate::text::is_white_space(s[0]));
        assert(!crate::text::is_white_space(s.last()));
    }
}

proof fn lemma_lower_of_digits(d: Seq<char>)
    requires
        all_digits(d),
    ensures
        ascii_lower_seq(d) == d,
{
    assert(ascii_lower_seq(d) =~= d);
}

/// Every virtual key from 1 to 254 that the recorder names reads back as the
/// same virtual key: a recorded key step replays the key that was captured.
pub proof fn lemma_key_name_round_trip(vk: u32)
    requires
        1 <= vk <= 254,
    ensures
        spec_key_to_vk(spec_key_name(vk)) == Some(vk),
{
    let name = spec_key_name(vk);
    if (0x41 <= vk <= 0x5A) || (0x30 <= vk <= 0x39) {
        lemma_plain_name_is_trimmed(name);
        assert(ascii_lower_seq(name) =~= seq![crate::text::ascii_lower(vk as char)]);
    } else if 0x70 <= vk <= 0x87 && !(vk == 0x10 || vk == 0x11 || vk == 0x12 || vk == 0x5B) {
        let n = (vk - 0x6F) as nat;
        lemma_dec_chars_facts(n);
        let d = dec_chars(n);
        assert forall|i: int| 0 <= i < name.len() implies ('0' <= #[trigger] name[i] <= '9') || (
        'A' <= name[i] <= 'Z') || ('a' <= name[i] <= 'z') by {
            if i > 0 {
                assert(name[i] == d[i - 1]);
                assert(is_digit(d[i - 1]));
            }
        };
        lemma_plain_name_is_trimmed(name);
        let l = ascii_lower_seq(name);
        lemma_lower_of_digits(d);
        assert(l =~= seq!['f'] + d);
        assert(l.drop_first() =~= d);
    } else if vk == 0x10 || vk == 0x11 || vk == 0x12 || vk == 0x5B || vk == 0x1B || vk == 0x0D
        || vk == 0x20 || vk == 0x09 || vk == 0x08 || vk == 0x14 || vk == 0x25 || vk == 0x26 || vk
        == 0x27 || vk == 0x28 {
        lemma_plain_name_is_trimmed(name);
        let l = ascii_lower_seq(name);
        if vk == 0x10 {
            assert(l =~= seq!['s', 'h', 'i', 'f', 't']);
        } else if vk == 0x11 {
            assert(l =~= seq!['c', 't', 'r', 'l']);
        } else if vk == 0x12 {
            assert(l =~= seq!['a', 'l', 't']);
        } else if vk == 0x5B {
            assert(l =~= seq!['w', 'i', 'n']);
        } else if vk == 0x1B {
            assert(l =~= seq!['e', 's', 'c']);
        } else if vk == 0x0D {
            assert(l =~= seq!['e', 'n', 't', 'e', 'r']);
        } else if vk == 0x20 {
            assert(l =~= seq!['s', 'p', 'a', 'c', 'e']);
        } else if vk == 0x09 {
            assert(l =~= seq!['t', 'a', 'b']);
        } else if vk == 0x08 {
            assert(l =~= seq!['b', 'a', 'c', 'k', 's', 'p', 'a', 'c', 'e']);
        } else if vk == 0x14 {
            assert(l =~= seq!['c', 'a', 'p', 's', 'l', 'o', 'c', 'k']);
        } else if vk == 0x25 {
            assert(l =~= seq!['l', 'e', 'f', 't']);
        } else if vk == 0x26 {
            assert(l =~= seq!['u', 'p']);
        } else if vk == 0x27 {
            assert(l =~= seq!['r', 'i', 'g', 'h', 't']);
        } else {
            assert(l =~= seq!['d', 'o', 'w', 'n']);
        }
    } else {
        let n = vk as nat;
        lemma_dec_chars_facts(n);
        let d = dec_chars(n);
        assert forall|i: int| 0 <= i < name.len() implies ('0' <= #[trigger] name[i] <= '9') || (
        'A' <= name[i] <= 'Z') || ('a' <= name[i] <= 'z') by {
            if i > 1 {
                assert(name[i] == d[i - 2]);
                assert(is_digit(d[i - 2]));
            }
        };
        lemma_plain_name_is_trimmed(name);
        let l = ascii_lower_seq(name);
        lemma_lower_of_digits(d);
        assert(l =~= seq!['v', 'k'] + d);
        assert(l.subrange(2, l.len() as int) =~= d);
    }
}

} // verus!

verus! {

/// The button named by the extra-button field of a mouse message: `X1` when the
/// high word is 1, `X2` otherwise.
pub fn x_button(mouse_data: u32) -> (r: MouseButton)
    ensures
        r == (if mouse_data / 65536 == 1 {
            MouseButton::X1
        } else {
            MouseButton::X2
        }),
{
    let high = mouse_data >> 16;
    assert(high == mouse_data / 65536) by (bit_vector)
        requires
            high == mouse_data >> 16,
    ;
    if high == 1 {
        MouseButton::X1
    } else {
        MouseButton::X2
    }
}

/// The small stable number that identifies a button in diagnostics.
pub open spec fn button_id(button: MouseButton) -> u8 {
    match button {
        MouseButton::Left => 1,
        MouseButton::Right => 2,
        MouseButton::Middle => 3,
        MouseButton::X1 => 4,
        MouseButton::X2 => 5,
    }
}

/// Numbers buttons 1 (left) to 5 (X2).
pub fn mouse_button_id(button: MouseButton) -> (r: u8)
    ensures
        r == button_id(button),
{
    match button {
        MouseButton::Left => 1,
        MouseButton::Right => 2,
        MouseButton::Middle => 3,
        MouseButton::X1 => 4,
        MouseButton::X2 => 5,
    }
}

/// The script name of a button.
pub open spec fn button_name(button: MouseButton) -> Seq<char> {
    match button {
        MouseButton::Left => seq!['l', 'e', 'f', 't'],
        MouseButton::Right => seq!['r', 'i', 'g', 'h', 't'],
        MouseButton::Middle => seq!['m', 'i', 'd', 'd', 'l', 'e'],
        MouseButton::X1 => seq!['x', '1'],
        MouseButton::X2 => seq!['x', '2'],
    }
}

/// The script name of a button: `left`, `right`, `middle`, `x1` or `x2`.
pub fn mouse_button_name(button: MouseButton) -> (r: &'static str)
    ensures
        r@ == button_name(button),
{
    proof {
        reveal_strlit("left");
        reveal_strlit("right");
        reveal_strlit("middle");
        reveal_strlit("x1");
        reveal_strlit("x2");
    }
    match button {
        MouseButton::Left => "left",
        MouseButton::Right => "right",
        MouseButton::Middle => "middle",
        MouseButton::X1 => "x1",
        MouseButton::X2 => "x2",
    }
}

/// The button that a script name denotes, if any.
pub open spec fn button_from_name(name: Seq<char>) -> Option<MouseButton> {
    if name == button_name(MouseButton::Left) {
        Some(MouseButton::Left)
    } else if name == button_name(MouseButton::Right) {
        Some(MouseButton::Right)
    } else if name == button_name(MouseButton::Middle) {
        Some(MouseButton::Middle)
    } else if name == button_name(MouseButton::X1) {
        Some(MouseButton::X1)
    } else if name == button_name(MouseButton::X2) {
        Some(MouseButton::X2)
    } else {
        None
    }
}

/// Parses a script button name; any other name is an error that lists the
/// accepted names.
pub fn parse_mouse_button(button: &str) -> (r: Result<MouseButton, String>)
    ensures
        button_from_name(button@) matches Some(b) ==> r == Ok::<MouseButton, String>(b),
        button_from_name(button@) is None ==> r is Err,
{
    let chars = str_chars(button);
    if chars_equal(chars.as_slice(), &['l', 'e', 'f', 't']) {
        Ok(MouseButton::Left)
    } else if chars_equal(chars.as_slice(), &['r', 'i', 'g', 'h', 't']) {
        Ok(MouseButton::Right)
    } else if chars_equal(chars.as_slice(), &['m', 'i', 'd', 'd', 'l', 'e']) {
        Ok(MouseButton::Middle)
    } else if chars_equal(chars.as_slice(), &['x', '1']) {
        Ok(MouseButton::X1)
    } else if chars_equal(chars.as_slice(), &['x', '2']) {
        Ok(MouseButton::X2)
    } else {
        Err(string_from_str("鼠标按钮必须是 left、right、middle、x1 或 x2"))
    }
}

/// Every button name reads back as the same button.
pub proof fn lemma_button_name_round_trip(button: MouseButton)
    ensures
        button_from_name(button_name(button)) == Some(button),
{
}

/// The character that a shifted number or punctuation key types on a US layout.
pub open spec fn shifted_symbol(vk: u32) -> Option<char> {
    if vk == 0x30 {
        Some(')')
    } else if vk == 0x31 {
        Some('!')
    } else if vk == 0x32 {
        Some('@')
    } else if vk == 0x33 {
        Some('#')
    } else if vk == 0x34 {
        Some('$')
    } else if vk == 0x35 {
        Some('%')
    } else if vk == 0x36 {
        Some('^')
    } else if vk == 0x37 {
        Some('&')
    } else if vk == 0x38 {
        Some('*')
    } else if vk == 0x39 {
        Some('(')
    } else if vk == 0xBA {
        Some(':')
    } else if vk == 0xBB {
        Some('+')
    } else if vk == 0xBC {
        Some('<')
    } else if vk == 0xBD {
        Some('_')
    } else if vk == 0xBE {
        Some('>')
    } else if vk == 0xBF {
        Some('?')
    } else if vk == 0xC0 {
        Some('~')
    } else if vk == 0xDB {
        Some('{')
    } else if vk == 0xDC {
        Some('|')
    } else if vk == 0xDD {
        Some('}')
    } else if vk == 0xDE {
        Some('"')
    } else {
        None
    }
}

/// The symbol typed by a number or punctuation key while the generic Shift key
/// is held, independent of the active keyboard layout; `None` when Shift is not
/// held or the key has no such symbol.
pub fn shifted_printable_character(vk: u32, pressed: &std::collections::HashSet<u32>) -> (r:
    Option<&'static str>)
    ensures
        !pressed@.contains(0x10) ==> r is None,
        pressed@.contains(0x10) ==> (match shifted_symbol(vk) {
            Some(c) => r is Some && r->0@ == seq![c],
            None => r is None,
        }),
{
    broadcast use vstd::std_specs::hash::group_hash_axioms;

    if !pressed.contains(&0x10u32) {
        return None;
    }
    proof {
        reveal_strlit(")");
        reveal_strlit("!");
        reveal_strlit("@");
        reveal_strlit("#");
        reveal_strlit("$");
        reveal_strlit("%");
        reveal_strlit("^");
        reveal_strlit("&");
        reveal_strlit("*");
        reveal_strlit("(");
        reveal_strlit(":");
        reveal_strlit("+");
        reveal_strlit("<");
        reveal_strlit("_");
        reveal_strlit(">");
        reveal_strlit("?");
        reveal_strlit("~");
        reveal_strlit("{");
        reveal_strlit("|");
        reveal_strlit("}");
        reveal_strlit("\"");
    }
    match vk {
        0x30 => Some(")"),
        0x31 => Some("!"),
        0x32 => Some("@"),
        0x33 => Some("#"),
        0x34 => Some("$"),
        0x35 => Some("%"),
        0x36 => Some("^"),
        0x37 => Some("&"),
        0x38 => Some("*"),
        0x39 => Some("("),
        0xBA => Some(":"),
        0xBB => Some("+"),
        0xBC => Some("<"),
        0xBD => Some("_"),
        0xBE => Some(">"),
        0xBF => Some("?"),
        0xC0 => Some("~"),
        0xDB => Some("{"),
        0xDC => Some("|"),
        0xDD => Some("}"),
        0xDE => Some("\""),
        _ => None,
    }
}

/// The window messages of a mouse button going down or up: left (0x201,
/// 0x202), right (0x204, 0x205), middle (0x207, 0x208) and the extra buttons
/// (0x20B, 0x20C).
pub open spec fn button_message(message_id: u32) -> bool {
    message_id == 0x201 || message_id == 0x202 || message_id == 0x204 || message_id == 0x205
        || message_id == 0x207 || message_id == 0x208 || message_id == 0x20B || message_id
        == 0x20C
}

/// Whether a low-level mouse message is a button press or release.
pub fn is_mouse_button_message(message_id: u32) -> (r: bool)
    ensures
        r == button_message(message_id),
{
    message_id == 0x201 || message_id == 0x202 || message_id == 0x204 || message_id == 0x205
        || message_id == 0x207 || message_id == 0x208 || message_id == 0x20B || message_id
        == 0x20C
}

} // verus!
