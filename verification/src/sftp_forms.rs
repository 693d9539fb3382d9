//! What the SFTP dialogs read from their fields: the name of a new or
//! renamed entry, and permissions written as an octal mode.
use vstd::prelude::*;

use crate::decimal::{digit_value, unsigned_digits};
use crate::text::{chars_of, trim, trimmed};

verus! {

/// The highest permission mode: all permission, set-id and sticky bits.
pub const MAX_PERMISSION_MODE: u32 = 0o7777;

/// `c` is one of `0` to `7`.
pub open spec fn is_octal_digit(c: char) -> bool {
    '0' <= c <= '7'
}

/// The value of the octal digits `s`, most significant first.
pub open spec fn octal_value(s: Seq<char>) -> nat
    decreases s.len(),
{
    if s.len() == 0 {
        0
    } else {
        8 * octal_value(s.drop_last()) + digit_value(s.last())
    }
}

/// The mode a permissions field holds: once trimmed, three or four
/// characters, an optional `+` then octal digits, worth at most `0o7777`.
pub open spec fn parsed_mode(text: Seq<char>) -> Option<nat> {
    let t = trim(text);
    let d = unsigned_digits(t);
    if 3 <= t.len() <= 4 && d.len() > 0 && (forall|i: int|
        0 <= i < d.len() ==> is_octal_digit(#[trigger] d[i])) && octal_value(d)
        <= MAX_PERMISSION_MODE {
        Some(octal_value(d))
    } else {
        None
    }
}

/// The octal digit for `v`, below 8.
pub open spec fn octal_char(v: nat) -> char {
    if v == 0 {
        '0'
    } else if v == 1 {
        '1'
    } else if v == 2 {
        '2'
    } else if v == 3 {
        '3'
    } else if v == 4 {
        '4'
    } else if v == 5 {
        '5'
    } else if v == 6 {
        '6'
    } else {
        '7'
    }
}

/// Mode `v` (below `0o10000`) written in octal with at least three digits.
pub open spec fn mode_text(v: nat) -> Seq<char> {
    if v >= 512 {
        seq![octal_char(v / 512), octal_char(v / 64 % 8), octal_char(v / 8 % 8), octal_char(v % 8)]
    } else {
        seq![octal_char(v / 64), octal_char(v / 8 % 8), octal_char(v % 8)]
    }
}

/// The name a name field holds: trimmed, not empty, without `/` or `\`.
pub open spec fn entry_name(text: Seq<char>) -> Option<Seq<char>> {
    let t = trim(text);
    if t.len() == 0 || t.contains('/') || t.contains('\\') {
        None
    } else {
        Some(t)
    }
}

/// The name typed for a new or renamed SFTP entry, as `entry_name` says.
pub fn sftp_entry_name(text: &str) -> (r: Option<String>)
    ensures
        match entry_name(text@) {
            Some(n) => r matches Some(x) && x@ == n,
            None => r is None,
        },
{
    let name = trimmed(text);
    let v = chars_of(name.as_str());
    if v.len() == 0 {
        return None;
    }
    let mut i: usize = 0;
    while i < v.len()
        invariant
            i <= v@.len(),
            v@ == name@,
            name@ == trim(text@),
            forall|j: int| 0 <= j < i ==> v@[j] != '/' && v@[j] != '\\',
        decreases v@.len() - i,
    {
        if v[i] == '/' {
            assert(name@[i as int] == '/');
            assert(name@.contains('/'));
            return None;
        }
        if v[i] == '\\' {
            assert(name@[i as int] == '\\');
            assert(name@.contains('\\'));
            return None;
        }
        i = i + 1;
    }
    Some(name)
}

/// The value of octal digits `s` grows digit by digit.
proof fn lemma_octal_step(s: Seq<char>, k: int)
    requires
        0 <= k < s.len(),
    ensures
        octal_value(s.take(k + 1)) == 8 * octal_value(s.take(k)) + digit_value(s[k]),
{
    assert(s.take(k + 1).drop_last() =~= s.take(k));
    assert(s.take(k + 1).last() == s[k]);
}

/// Reads a permissions field, as `parsed_mode` says.
pub fn parse_permission_mode(text: &str) -> (r: Option<u32>)
    ensures
        match parsed_mode(text@) {
            Some(m) => r == Some(m as u32),
            None => r is None,
        },
{
    let t = trimmed(text);
    let v = chars_of(t.as_str());
    if v.len() < 3 || v.len() > 4 {
        return None;
    }
    let mut digits: Vec<char> = Vec::new();
    let start: usize = if v[0] == '+' {
        1
    } else {
        0
    };
    let mut k: usize = start;
    while k < v.len()
        invariant
            start <= k <= v@.len(),
            digits@ == v@.subrange(start as int, k as int),
        decreases v@.len() - k,
    {
        digits.push(v[k]);
        assert(digits@ =~= v@.subrange(start as int, k + 1));
        k = k + 1;
    }
    let ghost d = unsigned_digits(t@);
    assert(d =~= digits@);
    assert(digits@.len() <= 4);
    let mut acc: u32 = 0;
    let mut i: usize = 0;
    while i < digits.len()
        invariant
            digits@ == d,
            d == unsigned_digits(t@),
            t@ == trim(text@),
            d.len() <= 4,
            i <= d.len(),
            forall|j: int| 0 <= j < i ==> is_octal_digit(#[trigger] d[j]),
            acc == octal_value(d.take(i as int)),
            i == 0 ==> acc == 0,
            i == 1 ==> acc < 8,
            i == 2 ==> acc < 64,
            i == 3 ==> acc < 512,
            i == 4 ==> acc < 4096,
        decreases d.len() - i,
    {
        let c = digits[i];
        if !('0' <= c && c <= '7') {
            assert(!is_octal_digit(d[i as int]));
            return None;
        }
        proof {
            lemma_octal_step(d, i as int);
        }
        let dv: u32 = (c as u32) - ('0' as u32);
        assert(dv == digit_value(c));
        acc = acc * 8 + dv;
        i = i + 1;
    }
    assert(d.take(d.len() as int) =~= d);
    if digits.len() == 0 || acc > MAX_PERMISSION_MODE {
        return None;
    }
    Some(acc)
}

/// The one-character text of octal digit `v`.
fn octal_digit_text(v: u32) -> (r: String)
    requires
        v < 8,
    ensures
        r@ == seq![octal_char(v as nat)],
{
    let digits = "01234567";
    proof {
        reveal_strlit("01234567");
    }
    let r = crate::text::substring(digits, v as usize, v as usize + 1);
    assert(r@ =~= seq![octal_char(v as nat)]);
    r
}

/// Mode `mode` (its permission, set-id and sticky bits) written in octal
/// with at least three digits, as a permissions field shows it.
pub fn permission_mode_text(mode: u32) -> (r: String)
    ensures
        r@ == mode_text((mode & MAX_PERMISSION_MODE) as nat),
{
    let v = mode & MAX_PERMISSION_MODE;
    assert(v <= 4095) by (bit_vector)
        requires
            v == mode & 0o7777u32,
    ;
    let mut out = String::new();
    if v >= 512 {
        out.append(octal_digit_text(v / 512).as_str());
    }
    out.append(octal_digit_text(v / 64 % 8).as_str());
    out.append(octal_digit_text(v / 8 % 8).as_str());
    out.append(octal_digit_text(v % 8).as_str());
    assert(out@ =~= mode_text(v as nat));
    out
}

/// The permissions dialog: the mode it holds, the text of its mode field,
/// and whether to apply the mode recursively.
#[derive(Debug)]
pub struct PermissionsForm {
    pub mode: u32,
    pub text: String,
    pub recursive: bool,
}

impl PermissionsForm {
    /// The dialog for an entry with mode `mode`: its permission, set-id and
    /// sticky bits, shown in octal; not recursive.
    pub fn new(mode: u32) -> (r: Self)
        ensures
            r.mode == mode & MAX_PERMISSION_MODE,
            r.text@ == mode_text(r.mode as nat),
            !r.recursive,
    {
        let bits = mode & MAX_PERMISSION_MODE;
        let text = permission_mode_text(bits);
        assert(bits & 0o7777u32 == bits) by (bit_vector)
            requires
                bits == mode & 0o7777u32,
        ;
        PermissionsForm { mode: bits, text, recursive: false }
    }

    /// Records an edit of the mode field: the mode follows it when it reads
    /// as a mode.
    pub fn input_changed(&mut self, text: String)
        ensures
            final(self).text == text,
            final(self).mode == match parsed_mode(text@) {
                Some(m) => m as u32,
                None => old(self).mode,
            },
            final(self).recursive == old(self).recursive,
    {
        match parse_permission_mode(text.as_str()) {
            Some(m) => self.mode = m,
            None => {},
        }
        self.text = text;
    }

    /// Sets or clears permission bit `bit`; the field shows the new mode.
    pub fn set_permission(&mut self, bit: u32, on: bool)
        ensures
            final(self).mode == if on {
                old(self).mode | bit
            } else {
                old(self).mode & !bit
            },
            final(self).text@ == mode_text((final(self).mode & MAX_PERMISSION_MODE) as nat),
            final(self).recursive == old(self).recursive,
    {
        if on {
            self.mode = self.mode | bit;
        } else {
            self.mode = self.mode & !bit;
        }
        self.text = permission_mode_text(self.mode);
    }

    /// The mode to apply: the field read as a mode; `None` when it does
    /// not read as one.
    pub fn mode_to_apply(&self) -> (r: Option<u32>)
        ensures
            match parsed_mode(self.text@) {
                Some(m) => r == Some(m as u32),
                None => r is None,
            },
    {
        parse_permission_mode(self.text.as_str())
    }
}

/// Octal digits are not whitespace.
proof fn lemma_digits_untrimmed(s: Seq<char>)
    requires
        s.len() > 0,
        forall|i: int| 0 <= i < s.len() ==> is_octal_digit(#[trigger] s[i]),
    ensures
        trim(s) == s,
{
    assert(!crate::text::is_ws(s[0]));
    assert(!crate::text::is_ws(s.last()));
}

/// A mode shown in a permissions field reads back as that mode.
pub proof fn shown_mode_reads_back(v: nat)
    requires
        v <= MAX_PERMISSION_MODE,
    ensures
        parsed_mode(mode_text(v)) == Some(v),
{
    let s = mode_text(v);
    assert forall|i: int| 0 <= i < s.len() implies is_octal_digit(#[trigger] s[i]) by {}
    lemma_digits_untrimmed(s);
    assert(unsigned_digits(s) == s);
    if v >= 512 {
        assert(s.drop_last().drop_last().drop_last().drop_last() =~= Seq::<char>::empty());
        assert(octal_value(s) == 8 * (8 * (8 * (v / 512) + v / 64 % 8) + v / 8 % 8) + v % 8) by {
            reveal_with_fuel(octal_value, 5);
            assert(s.drop_last() =~= seq![octal_char(v / 512), octal_char(v / 64 % 8), octal_char(v / 8 % 8)]);
            assert(s.drop_last().drop_last() =~= seq![octal_char(v / 512), octal_char(v / 64 % 8)]);
            assert(s.drop_last().drop_last().drop_last() =~= seq![octal_char(v / 512)]);
        }
        assert(8 * (8 * (8 * (v / 512) + v / 64 % 8) + v / 8 % 8) + v % 8 == v) by (nonlinear_arith)
            requires
                v <= 4095,
        ;
    } else {
        assert(octal_value(s) == 8 * (8 * (v / 64) + v / 8 % 8) + v % 8) by {
            reveal_with_fuel(octal_value, 4);
            assert(s.drop_last() =~= seq![octal_char(v / 64), octal_char(v / 8 % 8)]);
            assert(s.drop_last().drop_last() =~= seq![octal_char(v / 64)]);
            assert(s.drop_last().drop_last().drop_last() =~= Seq::<char>::empty());
        }
        assert(8 * (8 * (v / 64) + v / 8 % 8) + v % 8 == v) by (nonlinear_arith)
            requires
                v < 512,
        ;
    }
}

} // verus!
