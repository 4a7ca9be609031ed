//! Textual rendering of integers and small string-building helpers.
use vstd::prelude::*;

verus! {

/// The character for a single hexadecimal digit (`d < 16`).
pub open spec fn hex_char(d: nat, upper: bool) -> char {
    if d < 10 {
        (('0' as nat) + d) as char
    } else if upper {
        (('A' as nat) + d - 10) as char
    } else {
        (('a' as nat) + d - 10) as char
    }
}

/// Exactly `width` hexadecimal digits of `x` (the low `4 * width` bits),
/// most significant first.
pub open spec fn hex_fixed(x: nat, width: nat, upper: bool) -> Seq<char>
    decreases width,
{
    if width == 0 {
        Seq::empty()
    } else {
        hex_fixed(x / 16, (width - 1) as nat, upper).push(hex_char(x % 16, upper))
    }
}

/// The shortest hexadecimal rendering of `x` ("0" for zero).
pub open spec fn hex_digits(x: nat, upper: bool) -> Seq<char>
    decreases x,
{
    if x < 16 {
        seq![hex_char(x, upper)]
    } else {
        hex_digits(x / 16, upper).push(hex_char(x % 16, upper))
    }
}

/// `n` copies of `'0'`.
pub open spec fn zeros(n: nat) -> Seq<char> {
    Seq::new(n, |i: int| '0')
}

/// `x` in hexadecimal, left-padded with zeros to at least `width` digits.
pub open spec fn hex_padded(x: nat, width: nat, upper: bool) -> Seq<char> {
    let d = hex_digits(x, upper);
    if d.len() >= width {
        d
    } else {
        zeros((width - d.len()) as nat) + d
    }
}

/// The decimal digits of `x` ("0" for zero).
pub open spec fn dec_digits(x: nat) -> Seq<char>
    decreases x,
{
    if x < 10 {
        seq![(('0' as nat) + x) as char]
    } else {
        dec_digits(x / 10).push((('0' as nat) + x % 10) as char)
    }
}

/// Decimal rendering of a signed integer, as `Display` prints it.
pub open spec fn dec_int(x: int) -> Seq<char> {
    if x < 0 {
        seq!['-'] + dec_digits((-x) as nat)
    } else {
        dec_digits(x as nat)
    }
}

/// Appends one character to a string (`String::push`).
#[verifier::external_body]
pub fn push_char(s: &mut String, c: char)
    ensures
        final(s)@ == old(s)@.push(c),
{
    s.push(c);
}

/// The Unicode scalar value of a character.
pub fn char_code(c: char) -> (r: u32)
    ensures
        r as int == c as int,
{
    c as u32
}

/// Appends a string slice.
pub fn push_str(s: &mut String, t: &str)
    ensures
        final(s)@ == old(s)@ + t@,
{
    s.append(t);
}

/// One hexadecimal digit character.
pub fn hex_char_exec(d: u64, upper: bool) -> (c: char)
    requires
        d < 16,
    ensures
        c == hex_char(d as nat, upper),
{
    if d < 10 {
        ((('0' as u8) + (d as u8)) as char)
    } else if upper {
        ((('A' as u8) + (d as u8) - 10) as char)
    } else {
        ((('a' as u8) + (d as u8) - 10) as char)
    }
}

/// Appends exactly `width` hexadecimal digits of `x`.
pub fn push_hex_fixed(s: &mut String, x: u64, width: u64, upper: bool)
    ensures
        final(s)@ == old(s)@ + hex_fixed(x as nat, width as nat, upper),
    decreases width,
{
    if width > 0 {
        push_hex_fixed(s, x / 16, width - 1, upper);
        let c = hex_char_exec(x % 16, upper);
        push_char(s, c);
    }
}

/// Appends the shortest hexadecimal rendering of `x`.
pub fn push_hex_digits(s: &mut String, x: u64, upper: bool)
    ensures
        final(s)@ == old(s)@ + hex_digits(x as nat, upper),
    decreases x,
{
    if x >= 16 {
        push_hex_digits(s, x / 16, upper);
    }
    let c = hex_char_exec(x % 16, upper);
    push_char(s, c);
}


/// Appends the decimal digits of `x`.
pub fn push_dec_digits(s: &mut String, x: u64)
    ensures
        final(s)@ == old(s)@ + dec_digits(x as nat),
    decreases x,
{
    if x >= 10 {
        push_dec_digits(s, x / 10);
    }
    let d = (x % 10) as u8;
    let c = (('0' as u8) + d) as char;
    push_char(s, c);
}

/// Appends the decimal rendering of a signed integer.
pub fn push_dec_i64(s: &mut String, x: i64)
    ensures
        final(s)@ == old(s)@ + dec_int(x as int),
{
    if x < 0 {
        push_char(s, '-');
        let m: u64 = (-(x as i128)) as u64;
        push_dec_digits(s, m);
        assert(final(s)@ =~= old(s)@ + (seq!['-'] + dec_digits((-x) as nat)));
    } else {
        push_dec_digits(s, x as u64);
    }
}

/// Appends every character of `v`.
pub fn push_chars(s: &mut String, v: &Vec<char>)
    ensures
        final(s)@ == old(s)@ + v@,
{
    let ghost start = s@;
    let mut i: usize = 0;
    while i < v.len()
        invariant
            i <= v.len(),
            s@ == start + v@.take(i as int),
        decreases v.len() - i,
    {
        push_char(s, v[i]);
        assert(v@.take(i + 1) =~= v@.take(i as int).push(v@[i as int]));
        i = i + 1;
    }
    assert(v@.take(v.len() as int) =~= v@);
}

/// Every character of `s` is a lowercase hexadecimal digit.
pub open spec fn is_lower_hex(s: Seq<char>) -> bool {
    forall|i: int|
        0 <= i < s.len() ==> ('0' <= #[trigger] s[i] <= '9' || 'a' <= s[i] <= 'f')
}

pub proof fn lemma_hex_fixed_shape(x: nat, width: nat)
    ensures
        hex_fixed(x, width, false).len() == width,
        is_lower_hex(hex_fixed(x, width, false)),
    decreases width,
{
    if width > 0 {
        lemma_hex_fixed_shape(x / 16, (width - 1) as nat);
    }
}


/// Number of bytes of the UTF-8 encoding of one character.
pub open spec fn utf8_width(c: char) -> nat {
    let v = c as int;
    if v < 0x80 {
        1
    } else if v < 0x800 {
        2
    } else if v < 0x10000 {
        3
    } else {
        4
    }
}

pub proof fn lemma_encode_char_len(c: char)
    ensures
        vstd::utf8::encode_utf8(seq![c]).len() == utf8_width(c),
{
    let u = c as u32;
    assert(u as int == c as int);
    assert(seq![c].drop_first() =~= Seq::<char>::empty());
    assert(vstd::utf8::encode_utf8(Seq::<char>::empty()) =~= Seq::<u8>::empty());
    assert(vstd::utf8::encode_utf8(seq![c]) =~= vstd::utf8::encode_scalar(u) + vstd::utf8::encode_utf8(
        Seq::<char>::empty(),
    ));
    assert(vstd::utf8::encode_scalar(u).len() == utf8_width(c));
}

pub proof fn lemma_encode_utf8_concat(a: Seq<char>, b: Seq<char>)
    ensures
        vstd::utf8::encode_utf8(a + b) == vstd::utf8::encode_utf8(a) + vstd::utf8::encode_utf8(b),
    decreases a.len(),
{
    if a.len() == 0 {
        assert(a + b =~= b);
        assert(vstd::utf8::encode_utf8(a) =~= Seq::<u8>::empty());
        assert(vstd::utf8::encode_utf8(a + b) =~= vstd::utf8::encode_utf8(a) + vstd::utf8::encode_utf8(b));
    } else {
        lemma_encode_utf8_concat(a.drop_first(), b);
        assert((a + b).drop_first() =~= a.drop_first() + b);
        assert((a + b)[0] == a[0]);
        assert(vstd::utf8::encode_utf8(a + b) =~= vstd::utf8::encode_utf8(a) + vstd::utf8::encode_utf8(b));
    }
}

/// Width of a character, computed from its scalar value.
pub fn utf8_width_exec(c: char) -> (r: usize)
    ensures
        r == utf8_width(c),
{
    let v = char_code(c);
    if v < 0x80 {
        1
    } else if v < 0x800 {
        2
    } else if v < 0x10000 {
        3
    } else {
        4
    }
}

/// Whether two string slices hold the same characters.
pub fn str_eq(a: &str, b: &str) -> (r: bool)
    ensures
        r == (a@ == b@),
{
    let x = crate::lexical::chars_of(a);
    let y = crate::lexical::chars_of(b);
    if x.len() != y.len() {
        return false;
    }
    let mut i: usize = 0;
    while i < x.len()
        invariant
            i <= x.len() == y.len(),
            x@ == a@,
            y@ == b@,
            forall|k: int| 0 <= k < i ==> x@[k] == y@[k],
        decreases x.len() - i,
    {
        if x[i] != y[i] {
            assert(a@[i as int] != b@[i as int]);
            return false;
        }
        i = i + 1;
    }
    assert(x@ =~= y@);
    true
}

/// `c` is an ASCII decimal digit.
pub open spec fn is_digit(c: char) -> bool {
    '0' <= c <= '9'
}

/// The value of a string of decimal digits.
pub open spec fn digits_value(s: Seq<char>) -> nat
    decreases s.len(),
{
    if s.len() == 0 {
        0
    } else {
        digits_value(s.drop_last()) * 10 + ((s.last() as nat) - ('0' as nat)) as nat
    }
}

/// Every character of `d` is a decimal digit.
pub open spec fn all_digits(d: Seq<char>) -> bool {
    forall|k: int| 0 <= k < d.len() ==> is_digit(#[trigger] d[k])
}

/// The text after an optional leading `+`.
pub open spec fn unsigned_body(s: Seq<char>) -> Seq<char> {
    if s.len() > 0 && s[0] == '+' {
        s.drop_first()
    } else {
        s
    }
}

/// `usize::from_str`: an optional `+`, then one or more decimal digits
/// whose value fits in a `usize`.
pub open spec fn parse_usize_spec(s: Seq<char>) -> Option<usize> {
    let d = unsigned_body(s);
    if d.len() > 0 && all_digits(d) && digits_value(d) <= usize::MAX {
        Some(digits_value(d) as usize)
    } else {
        None
    }
}

proof fn lemma_digits_value_prefix(s: Seq<char>, j: int)
    requires
        0 <= j <= s.len(),
        forall|k: int| 0 <= k < s.len() ==> is_digit(#[trigger] s[k]),
    ensures
        digits_value(s.take(j)) <= digits_value(s),
    decreases s.len() - j,
{
    if j < s.len() {
        lemma_digits_value_prefix(s, j + 1);
        let t = s.take(j + 1);
        assert(t.drop_last() =~= s.take(j));
    } else {
        assert(s.take(j) =~= s);
    }
}

/// Parses a decimal `usize` the way `str::parse::<usize>` does.
pub fn parse_usize(s: &str) -> (r: Option<usize>)
    ensures
        r == parse_usize_spec(s@),
{
    let cs = crate::lexical::chars_of(s);
    let mut start: usize = 0;
    if cs.len() > 0 && cs[0] == '+' {
        start = 1;
    }
    let ghost d = unsigned_body(s@);
    assert(d =~= cs@.skip(start as int));
    if start >= cs.len() {
        return None;
    }
    let mut value: usize = 0;
    let mut i: usize = start;
    assert(d.take(0) =~= Seq::<char>::empty());
    while i < cs.len()
        invariant
            start <= i <= cs.len(),
            cs@ == s@,
            d == unsigned_body(s@),
            d =~= cs@.skip(start as int),
            forall|k: int| 0 <= k < i - start ==> is_digit(#[trigger] d[k]),
            value == digits_value(d.take(i - start)),
        decreases cs.len() - i,
    {
        let c = cs[i];
        if !('0' <= c && c <= '9') {
            assert(!is_digit(d[i - start]));
            assert(!all_digits(d));
            return None;
        }
        let digit = (crate::text::char_code(c) - crate::text::char_code('0')) as usize;
        let ghost t = d.take(i - start + 1);
        assert(t.drop_last() =~= d.take(i - start));
        assert(t.last() == c);
        let ghost digits_only = all_digits(d);
        match value.checked_mul(10) {
            Some(v10) => match v10.checked_add(digit) {
                Some(v) => {
                    value = v;
                },
                None => {
                    proof {
                        assert(digits_value(t) == value * 10 + digit);
                        if digits_only {
                            lemma_digits_value_prefix(d, i - start + 1);
                        }
                    }
                    return None;
                },
            },
            None => {
                proof {
                    if digits_only {
                        lemma_digits_value_prefix(d, i - start + 1);
                    }
                }
                return None;
            },
        }
        i = i + 1;
    }
    assert(d.take(i - start) =~= d);
    assert(all_digits(d));
    Some(value)
}


/// Whether `s` begins with the character `c`.
pub fn starts_with_char(s: &str, c: char) -> (r: bool)
    ensures
        r == (s@.len() > 0 && s@[0] == c),
{
    let cs = crate::lexical::chars_of(s);
    cs.len() > 0 && cs[0] == c
}

/// The character sequences of a sequence of strings.
pub open spec fn strings_view(v: Seq<String>) -> Seq<Seq<char>> {
    v.map_values(|s: String| s@)
}

/// The strings of `s` joined with `sep` between consecutive elements.
pub open spec fn join_with(s: Seq<Seq<char>>, sep: Seq<char>) -> Seq<char>
    decreases s.len(),
{
    if s.len() == 0 {
        Seq::empty()
    } else if s.len() == 1 {
        s[0]
    } else {
        join_with(s.drop_last(), sep) + sep + s.last()
    }
}

/// Appends the strings of `v` joined with `sep`.
pub fn push_joined(out: &mut String, v: &Vec<String>, sep: &str)
    ensures
        final(out)@ == old(out)@ + join_with(strings_view(v@), sep@),
{
    let ghost start = out@;
    let mut i: usize = 0;
    while i < v.len()
        invariant
            i <= v.len(),
            out@ == start + join_with(strings_view(v@).take(i as int), sep@),
        decreases v.len() - i,
    {
        let ghost before = out@;
        if i > 0 {
            push_str(out, sep);
        }
        push_str(out, v[i].as_str());
        proof {
            let t = strings_view(v@).take(i + 1);
            assert(t.drop_last() =~= strings_view(v@).take(i as int));
            assert(t.last() == v@[i as int]@);
            if i == 0 {
                assert(t.len() == 1);
                assert(out@ =~= start + t[0]);
            } else {
                assert(out@ =~= start + (join_with(t.drop_last(), sep@) + sep@ + t.last()));
            }
        }
        i = i + 1;
    }
    assert(strings_view(v@).take(v.len() as int) =~= strings_view(v@));
}

/// `n` spaces.
pub open spec fn spaces(n: nat) -> Seq<char> {
    Seq::new(n, |i: int| ' ')
}

/// `s` right-aligned in a field of `width` characters, as `{:>width}` pads.
pub open spec fn pad_left(s: Seq<char>, width: nat) -> Seq<char> {
    if s.len() >= width {
        s
    } else {
        spaces((width - s.len()) as nat) + s
    }
}

/// Number of decimal digits of `x`.
pub fn dec_len(x: u64) -> (r: usize)
    ensures
        r == dec_digits(x as nat).len(),
    decreases x,
{
    if x < 10 {
        1
    } else {
        let r = dec_len(x / 10);
        assert(r <= 20) by {
            lemma_dec_digits_len_bound(x as nat / 10);
        }
        r + 1
    }
}

/// `10^k`.
pub open spec fn pow10(k: nat) -> nat
    decreases k,
{
    if k == 0 {
        1
    } else {
        10 * pow10((k - 1) as nat)
    }
}

proof fn lemma_dec_digits_len_pow(x: nat, k: nat)
    requires
        k >= 1,
        x < pow10(k),
    ensures
        dec_digits(x).len() <= k,
    decreases k,
{
    if x >= 10 {
        assert(k >= 2) by {
            if k == 1 {
                assert(pow10(1) == 10) by {
                    reveal_with_fuel(pow10, 2);
                }
            }
        }
        assert(x / 10 < pow10((k - 1) as nat)) by (nonlinear_arith)
            requires
                x < 10 * pow10((k - 1) as nat),
        ;
        lemma_dec_digits_len_pow(x / 10, (k - 1) as nat);
    }
}

proof fn lemma_dec_digits_len_bound(x: nat)
    requires
        x < 0x1_0000_0000_0000_0000,
    ensures
        dec_digits(x).len() <= 20,
{
    assert(pow10(20) == 100_000_000_000_000_000_000) by {
        reveal_with_fuel(pow10, 21);
    }
    lemma_dec_digits_len_pow(x, 20);
}

/// Appends `x` in decimal, right-aligned in a field of `width` characters.
pub fn push_dec_padded(s: &mut String, x: u64, width: usize)
    ensures
        final(s)@ == old(s)@ + pad_left(dec_digits(x as nat), width as nat),
{
    let n = dec_len(x);
    let ghost start = s@;
    if n < width {
        let mut k: usize = 0;
        while k < width - n
            invariant
                n < width,
                k <= width - n,
                s@ == start + spaces(k as nat),
            decreases width - n - k,
        {
            push_char(s, ' ');
            assert(spaces((k + 1) as nat) =~= spaces(k as nat).push(' '));
            k = k + 1;
        }
    }
    let ghost mid = s@;
    push_dec_digits(s, x);
    proof {
        if n < width {
            assert(s@ =~= start + (spaces((width - n) as nat) + dec_digits(x as nat)));
        } else {
            assert(s@ =~= start + dec_digits(x as nat));
        }
    }
}

} // verus!
