//! Small text routines that the rest of the crate builds on: decimal and
//! hexadecimal rendering, and the recognition of unsigned decimal numbers.
use vstd::prelude::*;

verus! {

/// The lower-case hexadecimal digits, in order of value.
pub open spec fn hex_digits() -> Seq<char> {
    seq!['0', '1', '2', '3', '4', '5', '6', '7', '8', '9', 'a', 'b', 'c', 'd', 'e', 'f']
}

/// The decimal digits, in order of value.
pub open spec fn decimal_digits() -> Seq<char> {
    seq!['0', '1', '2', '3', '4', '5', '6', '7', '8', '9']
}

/// A byte written as exactly two lower-case hexadecimal digits (`{:02x}`).
pub open spec fn hex_pair(b: u8) -> Seq<char> {
    seq![hex_digits()[(b / 16) as int], hex_digits()[(b % 16) as int]]
}

/// The bytes written as hexadecimal pairs and joined by `:`.
pub open spec fn hex_join(bytes: Seq<u8>) -> Seq<char>
    decreases bytes.len(),
{
    if bytes.len() == 0 {
        Seq::empty()
    } else if bytes.len() == 1 {
        hex_pair(bytes[0])
    } else {
        hex_join(bytes.drop_last()) + seq![':'] + hex_pair(bytes.last())
    }
}

/// A natural number written in decimal, without leading zeros.
pub open spec fn decimal(n: nat) -> Seq<char>
    decreases n,
{
    if n < 10 {
        seq![decimal_digits()[n as int]]
    } else {
        decimal(n / 10).push(decimal_digits()[(n % 10) as int])
    }
}

/// Appends the character of `text` at position `i` to `out`.
fn push_char_of(out: &mut String, text: &str, i: usize)
    requires
        i < text@.len() <= 16,
    ensures
        final(out)@ == old(out)@.push(text@[i as int]),
{
    let one = text.substring_char(i, i + 1);
    out.append(one);
    assert(one@ =~= seq![text@[i as int]]);
}

/// Appends the hexadecimal digit of value `d` to `out`.
fn push_hex_digit(out: &mut String, d: u8)
    requires
        d < 16,
    ensures
        final(out)@ == old(out)@.push(hex_digits()[d as int]),
{
    let digits = "0123456789abcdef";
    proof {
        reveal_strlit("0123456789abcdef");
    }
    assert(digits@ =~= hex_digits());
    push_char_of(out, digits, d as usize);
}

/// Appends `b` to `out` as two lower-case hexadecimal digits.
pub fn push_hex_pair(out: &mut String, b: u8)
    ensures
        final(out)@ == old(out)@ + hex_pair(b),
{
    push_hex_digit(out, b / 16);
    push_hex_digit(out, b % 16);
    assert(out@ =~= old(out)@ + hex_pair(b));
}

/// Renders the bytes as hexadecimal pairs joined by `:`, the way a status
/// reply of a strip is reported (`"81:25:23"`).
pub fn hex_join_bytes(bytes: &[u8]) -> (res: String)
    ensures
        res@ == hex_join(bytes@),
{
    let mut out = String::new();
    let mut i: usize = 0;
    while i < bytes.len()
        invariant
            i <= bytes@.len(),
            out@ == hex_join(bytes@.take(i as int)),
        decreases bytes@.len() - i,
    {
        let ghost prev = bytes@.take(i as int);
        let sep = ":";
        proof {
            reveal_strlit(":");
        }
        if i > 0 {
            out.append(sep);
        }
        push_hex_pair(&mut out, bytes[i]);
        proof {
            let next = bytes@.take(i + 1);
            assert(next.drop_last() =~= prev);
            assert(next.last() == bytes@[i as int]);
            if i == 0 {
                assert(next.len() == 1);
                assert(out@ =~= hex_pair(bytes@[0]));
            } else {
                assert(sep@ =~= seq![':']);
                assert(out@ =~= hex_join(prev) + seq![':'] + hex_pair(next.last()));
            }
        }
        i = i + 1;
    }
    assert(bytes@.take(bytes@.len() as int) =~= bytes@);
    out
}

/// Appends the decimal digit of value `d` to `out`.
fn push_decimal_digit(out: &mut String, d: u16)
    requires
        d < 10,
    ensures
        final(out)@ == old(out)@.push(decimal_digits()[d as int]),
{
    let digits = "0123456789";
    proof {
        reveal_strlit("0123456789");
    }
    assert(digits@ =~= decimal_digits());
    push_char_of(out, digits, d as usize);
}

/// Appends `n` to `out` in decimal, as `to_string` writes it.
pub fn push_decimal(out: &mut String, n: u16)
    ensures
        final(out)@ == old(out)@ + decimal(n as nat),
    decreases n,
{
    if n < 10 {
        push_decimal_digit(out, n);
        assert(out@ =~= old(out)@ + decimal(n as nat));
    } else {
        push_decimal(out, n / 10);
        push_decimal_digit(out, n % 10);
        assert(out@ =~= old(out)@ + decimal(n as nat));
    }
}


/// An ASCII decimal digit.
pub open spec fn is_digit(c: char) -> bool {
    '0' <= c && c <= '9'
}

/// The value of a decimal digit.
pub open spec fn digit_value(c: char) -> nat {
    (c as int - '0' as int) as nat
}

/// The value of a string of decimal digits, most significant first.
pub open spec fn decimal_value(s: Seq<char>) -> nat
    decreases s.len(),
{
    if s.len() == 0 {
        0
    } else {
        decimal_value(s.drop_last()) * 10 + digit_value(s.last())
    }
}

/// What remains of a number once an optional leading `+` is removed.
pub open spec fn unsigned_digits(s: Seq<char>) -> Seq<char> {
    if s.len() > 0 && s[0] == '+' {
        s.drop_first()
    } else {
        s
    }
}

/// `str::parse::<u8>`: an optional `+`, then one or more ASCII digits
/// whose value is at most 255. Anything else is refused.
pub open spec fn parse_u8_spec(s: Seq<char>) -> Option<u8> {
    let d = unsigned_digits(s);
    if d.len() > 0 && (forall|i: int| 0 <= i < d.len() ==> is_digit(#[trigger] d[i]))
        && decimal_value(d) <= 255 {
        Some(decimal_value(d) as u8)
    } else {
        None
    }
}

/// The end of the comma-separated field that begins at `start`: the
/// position of the next `,`, or the end of the text.
pub open spec fn field_end(s: Seq<char>, start: int) -> int
    decreases s.len() - start,
{
    if start >= s.len() {
        s.len() as int
    } else if s[start] == ',' {
        start
    } else {
        field_end(s, start + 1)
    }
}

/// `field_end` lies between `start` and the end of the text.
pub proof fn lemma_field_end_bounds(s: Seq<char>, start: int)
    requires
        0 <= start <= s.len(),
    ensures
        start <= field_end(s, start) <= s.len(),
        field_end(s, start) < s.len() ==> s[field_end(s, start)] == ',',
        forall|k: int| start <= k < field_end(s, start) ==> s[k] != ',',
    decreases s.len() - start,
{
    if start < s.len() && s[start] != ',' {
        lemma_field_end_bounds(s, start + 1);
    }
}

/// Finds the end of the comma-separated field of `s` that begins at `start`.
pub fn find_field_end(s: &str, len: usize, start: usize) -> (end: usize)
    requires
        len == s@.len(),
        start <= len,
    ensures
        end == field_end(s@, start as int),
{
    let mut i = start;
    while i < len
        invariant
            start <= i <= len,
            len == s@.len(),
            field_end(s@, start as int) == field_end(s@, i as int),
        decreases len - i,
    {
        if s.get_char(i) == ',' {
            return i;
        }
        i = i + 1;
    }
    i
}

/// Whether the characters of `s` from `start` to `end` are exactly `word`.
pub fn range_equals(s: &str, start: usize, end: usize, word: &str) -> (r: bool)
    requires
        start <= end <= s@.len(),
    ensures
        r == (s@.subrange(start as int, end as int) == word@),
{
    let n = word.unicode_len();
    if end - start != n {
        return false;
    }
    let mut k: usize = 0;
    while k < n
        invariant
            n == word@.len(),
            end - start == n,
            start <= end <= s@.len(),
            k <= n,
            forall|j: int| 0 <= j < k ==> s@[start + j] == word@[j],
        decreases n - k,
    {
        if s.get_char(start + k) != word.get_char(k) {
            assert(s@.subrange(start as int, end as int)[k as int] != word@[k as int]);
            return false;
        }
        k = k + 1;
    }
    assert(s@.subrange(start as int, end as int) =~= word@);
    true
}

/// Reads the characters of `s` from `start` to `end` as `str::parse::<u8>`
/// does.
pub fn parse_u8_range(s: &str, start: usize, end: usize) -> (r: Option<u8>)
    requires
        start <= end <= s@.len(),
    ensures
        r == parse_u8_spec(s@.subrange(start as int, end as int)),
{
    let ghost whole = s@.subrange(start as int, end as int);
    let mut i = start;
    if i < end && s.get_char(i) == '+' {
        assert(whole[0] == '+');
        i = i + 1;
    }
    let first = i;
    let ghost d = s@.subrange(first as int, end as int);
    assert(unsigned_digits(whole) =~= d);
    if i == end {
        assert(d.len() == 0);
        return None;
    }
    let mut v: u32 = 0;
    while i < end
        invariant
            first <= i <= end <= s@.len(),
            d == s@.subrange(first as int, end as int),
            whole == s@.subrange(start as int, end as int),
            unsigned_digits(whole) == d,
            v <= 256,
            v == (if decimal_value(d.take(i - first)) < 256 { decimal_value(d.take(i - first)) } else { 256 }),
            forall|j: int| 0 <= j < i - first ==> is_digit(#[trigger] d[j]),
        decreases end - i,
    {
        let c = s.get_char(i);
        if !('0' <= c && c <= '9') {
            assert(!is_digit(d[i - first]));
            return None;
        }
        let digit = (c as u32) - ('0' as u32);
        proof {
            let t = d.take(i - first + 1);
            assert(t.drop_last() =~= d.take(i - first));
            assert(t.last() == c);
        }
        v = v * 10 + digit;
        if v > 256 {
            v = 256;
        }
        i = i + 1;
    }
    assert(d.take(end - first) =~= d);
    if v <= 255 {
        Some(v as u8)
    } else {
        None
    }
}

/// The character code of the lower-case hexadecimal digit of value `v`.
pub proof fn lemma_hex_digit_code(v: int)
    requires
        0 <= v < 16,
    ensures
        hex_digits()[v] as int == (if v < 10 { '0' as int + v } else { 'a' as int + (v - 10) }),
{
    let d = hex_digits();
    assert(d[0] == '0' && d[1] == '1' && d[2] == '2' && d[3] == '3' && d[4] == '4');
    assert(d[5] == '5' && d[6] == '6' && d[7] == '7' && d[8] == '8' && d[9] == '9');
    assert(d[10] == 'a' && d[11] == 'b' && d[12] == 'c' && d[13] == 'd' && d[14] == 'e');
    assert(d[15] == 'f');
}

/// A byte is written as its two lower-case hexadecimal digits, high digit
/// first, each `0`..`9` for values below ten and `a`..`f` above, as
/// `{:02x}` writes it.
pub proof fn law_hex_pair_is_lower_case_hex(b: u8)
    ensures
        hex_pair(b).len() == 2,
        hex_pair(b)[0] as int == (if b / 16 < 10 { '0' as int + b / 16 } else { 'a' as int + (b
            / 16 - 10) }),
        hex_pair(b)[1] as int == (if b % 16 < 10 { '0' as int + b % 16 } else { 'a' as int + (b
            % 16 - 10) }),
{
    lemma_hex_digit_code((b / 16) as int);
    lemma_hex_digit_code((b % 16) as int);
}

/// The character code of the decimal digit of value `v`.
pub proof fn lemma_decimal_digit_code(v: int)
    requires
        0 <= v < 10,
    ensures
        decimal_digits()[v] as int == '0' as int + v,
{
    let d = decimal_digits();
    assert(d[0] == '0' && d[1] == '1' && d[2] == '2' && d[3] == '3' && d[4] == '4');
    assert(d[5] == '5' && d[6] == '6' && d[7] == '7' && d[8] == '8' && d[9] == '9');
}

/// Appending a digit multiplies the value by ten and adds the digit.
pub proof fn lemma_decimal_value_push(s: Seq<char>, c: char)
    ensures
        decimal_value(s.push(c)) == decimal_value(s) * 10 + digit_value(c),
{
    assert(s.push(c).drop_last() =~= s);
}

/// `decimal(n)` is the standard numeral of `n`: one or more characters, each
/// an ASCII digit `0`..`9`, without a leading zero unless `n` is zero, whose
/// value read in base ten is `n`.
pub proof fn law_decimal_is_numeral(n: nat)
    ensures
        decimal(n).len() > 0,
        forall|i: int| 0 <= i < decimal(n).len() ==> '0' <= #[trigger] decimal(n)[i] && decimal(n)[i] <= '9',
        decimal_value(decimal(n)) == n,
        decimal(n)[0] == '0' ==> n == 0,
    decreases n,
{
    if n < 10 {
        lemma_decimal_digit_code(n as int);
        let c = decimal_digits()[n as int];
        assert(decimal(n) =~= Seq::<char>::empty().push(c));
        lemma_decimal_value_push(Seq::<char>::empty(), c);
        assert(decimal_value(Seq::<char>::empty()) == 0);
        assert(digit_value(c) == n);
    } else {
        law_decimal_is_numeral(n / 10);
        lemma_decimal_digit_code((n % 10) as int);
        let prefix = decimal(n / 10);
        let c = decimal_digits()[(n % 10) as int];
        assert(decimal(n) == prefix.push(c));
        lemma_decimal_value_push(prefix, c);
        assert(digit_value(c) == n % 10);
        assert((n / 10) * 10 + n % 10 == n);
        assert(decimal(n)[0] == prefix[0]);
    }
}

/// Every numeral of a byte is read back as that byte: `str::parse::<u8>`
/// takes each of the decimal digits `0`..`9`.
pub proof fn law_parse_reads_every_byte_numeral(n: u8)
    ensures
        parse_u8_spec(decimal(n as nat)) == Some(n),
{
    let d = decimal(n as nat);
    law_decimal_is_numeral(n as nat);
    assert(unsigned_digits(d) == d);
    assert(forall|i: int| 0 <= i < d.len() ==> is_digit(#[trigger] d[i]));
}

/// A field that runs without a comma from `start` to `end`, where the text
/// ends or has a comma, ends at `end`.
pub proof fn lemma_field_end_at(s: Seq<char>, start: int, end: int)
    requires
        0 <= start <= end <= s.len(),
        forall|k: int| start <= k < end ==> s[k] != ',',
        end == s.len() || s[end] == ',',
    ensures
        field_end(s, start) == end,
    decreases end - start,
{
    if start < end {
        lemma_field_end_at(s, start + 1, end);
    }
}

} // verus!
