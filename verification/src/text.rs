use vstd::prelude::*;

verus! {

/// Appends one character to a string.
#[verifier::external_body]
pub(crate) fn push_char(s: &mut String, c: char)
    ensures
        final(s)@ == old(s)@.push(c),
{
    s.push(c);
}

/// Appends a string slice to a string.
pub fn push_str(s: &mut String, t: &str)
    ensures
        final(s)@ == old(s)@ + t@,
{
    let n = t.unicode_len();
    let ghost s0 = s@;
    let mut i: usize = 0;
    while i < n
        invariant
            n == t@.len(),
            i <= n,
            s@ == s0 + t@.subrange(0, i as int),
        decreases n - i,
    {
        let c = t.get_char(i);
        push_char(s, c);
        assert(t@.subrange(0, i + 1) == t@.subrange(0, i as int).push(c));
        i += 1;
    }
    assert(t@.subrange(0, n as int) == t@);
}

} // verus!

verus! {

// ---------------------------------------------------------------------------
// Decimal digits
// ---------------------------------------------------------------------------

pub open spec fn is_ascii_digit(c: char) -> bool {
    '0' <= c && c <= '9'
}

pub open spec fn digit_value(c: char) -> nat {
    ((c as int) - ('0' as int)) as nat
}

/// The character of a decimal digit.
pub open spec fn digit_char(d: nat) -> char {
    if d == 0 { '0' }
    else if d == 1 { '1' }
    else if d == 2 { '2' }
    else if d == 3 { '3' }
    else if d == 4 { '4' }
    else if d == 5 { '5' }
    else if d == 6 { '6' }
    else if d == 7 { '7' }
    else if d == 8 { '8' }
    else { '9' }
}

pub open spec fn all_digits(s: Seq<char>) -> bool {
    forall|i: int| 0 <= i < s.len() ==> is_ascii_digit(#[trigger] s[i])
}

/// The number that a string of decimal digits denotes.
pub open spec fn decimal_value(s: Seq<char>) -> nat
    decreases s.len(),
{
    if s.len() == 0 {
        0
    } else {
        decimal_value(s.drop_last()) * 10 + digit_value(s.last())
    }
}

/// What follows an optional leading `+`.
pub open spec fn unsigned_digits(s: Seq<char>) -> Seq<char> {
    if s.len() > 0 && s[0] == '+' {
        s.drop_first()
    } else {
        s
    }
}

/// How std's `parse` reads an unsigned integer whose largest value is `max`:
/// an optional `+`, then one or more decimal digits, denoting at most `max`.
pub open spec fn parse_unsigned(s: Seq<char>, max: nat) -> Option<nat> {
    let d = unsigned_digits(s);
    if d.len() > 0 && all_digits(d) && decimal_value(d) <= max {
        Some(decimal_value(d))
    } else {
        None
    }
}

/// The decimal text of a number, as `to_string` writes it.
pub open spec fn decimal_text(n: nat) -> Seq<char>
    decreases n,
{
    if n < 10 {
        seq![digit_char(n)]
    } else {
        decimal_text(n / 10).push(digit_char(n % 10))
    }
}

pub proof fn lemma_decimal_prefix_monotone(s: Seq<char>, i: int, j: int)
    requires
        0 <= i <= j <= s.len(),
    ensures
        decimal_value(s.take(i)) <= decimal_value(s.take(j)),
    decreases j - i,
{
    if i < j {
        lemma_decimal_prefix_monotone(s, i, j - 1);
        assert(s.take(j).drop_last() == s.take(j - 1));
    }
}

pub proof fn lemma_digit_char(d: nat)
    requires
        d < 10,
    ensures
        is_ascii_digit(digit_char(d)),
        digit_value(digit_char(d)) == d,
        digit_char(d) != '+',
{
}

pub proof fn lemma_decimal_text(n: nat)
    ensures
        decimal_text(n).len() > 0,
        all_digits(decimal_text(n)),
        decimal_value(decimal_text(n)) == n,
        is_ascii_digit(decimal_text(n)[0]),
    decreases n,
{
    if n < 10 {
        lemma_digit_char(n);
        let t = decimal_text(n);
        assert(t.drop_last() =~= Seq::<char>::empty());
        assert(decimal_value(t) == decimal_value(t.drop_last()) * 10 + digit_value(t.last()));
    } else {
        lemma_decimal_text(n / 10);
        lemma_digit_char(n % 10);
        let t = decimal_text(n);
        assert(t.drop_last() == decimal_text(n / 10));
        assert(t.last() == digit_char(n % 10));
        assert(decimal_value(t) == decimal_value(t.drop_last()) * 10 + digit_value(t.last()));
        assert((n / 10) * 10 + n % 10 == n);
        assert forall|i: int| 0 <= i < t.len() implies is_ascii_digit(#[trigger] t[i]) by {
            if i < t.len() - 1 {
                assert(t[i] == decimal_text(n / 10)[i]);
            }
        }
    }
}

/// Reading back the decimal text of a number gives the number.
pub proof fn lemma_parse_decimal_text(n: nat, max: nat)
    requires
        n <= max,
    ensures
        parse_unsigned(decimal_text(n), max) == Some(n),
{
    lemma_decimal_text(n);
    assert(unsigned_digits(decimal_text(n)) == decimal_text(n));
}

/// Reads an unsigned decimal integer as std's `parse` does, for a type whose
/// largest value is `max`.
pub fn parse_decimal(s: &str, max: u32) -> (r: Option<u32>)
    ensures
        match parse_unsigned(s@, max as nat) {
            Some(v) => r == Some(v as u32),
            None => r is None,
        },
{
    let n = s.unicode_len();
    let mut start: usize = 0;
    if n > 0 && s.get_char(0) == '+' {
        start = 1;
    }
    let ghost d = unsigned_digits(s@);
    assert(d == s@.subrange(start as int, n as int));
    if start == n {
        return None;
    }
    let mut acc: u64 = 0;
    let mut i: usize = start;
    while i < n
        invariant
            n == s@.len(),
            start <= i <= n,
            d == unsigned_digits(s@),
            d == s@.subrange(start as int, n as int),
            d.take(i - start) == s@.subrange(start as int, i as int),
            all_digits(d.take(i - start)),
            acc == decimal_value(d.take(i - start)),
            acc <= max,
        decreases n - i,
    {
        let c = s.get_char(i);
        assert(d[i - start] == c);
        if !('0' <= c && c <= '9') {
            assert(!is_ascii_digit(d[i - start]));
            assert(!all_digits(d));
            return None;
        }
        let dv: u64 = (c as u32 - '0' as u32) as u64;
        let next: u64 = acc * 10 + dv;
        let ghost k = (i - start + 1) as int;
        assert(d.take(k).drop_last() == d.take(k - 1));
        assert(decimal_value(d.take(k)) == next);
        assert(d.take(k) == s@.subrange(start as int, i + 1));
        assert forall|j: int| 0 <= j < k implies is_ascii_digit(#[trigger] d.take(k)[j]) by {
            if j < k - 1 {
                assert(d.take(k)[j] == d.take(k - 1)[j]);
            }
        }
        if next > max as u64 {
            proof {
                if all_digits(d) {
                    lemma_decimal_prefix_monotone(d, k, d.len() as int);
                    assert(d.take(d.len() as int) == d);
                    assert(decimal_value(d) > max);
                }
                assert(parse_unsigned(s@, max as nat) is None);
            }
            return None;
        }
        acc = next;
        i += 1;
    }
    assert(d.take(n - start) == d);
    Some(acc as u32)
}

/// Writes the decimal text of a number.
pub fn push_decimal(s: &mut String, n: u32)
    ensures
        final(s)@ == old(s)@ + decimal_text(n as nat),
    decreases n,
{
    if n < 10 {
        push_char(s, digit_to_char(n));
    } else {
        push_decimal(s, n / 10);
        push_char(s, digit_to_char(n % 10));
        assert(decimal_text(n as nat) == decimal_text((n / 10) as nat).push(digit_char((n % 10) as nat)));
    }
}

/// The character of a decimal digit.
pub fn digit_to_char(d: u32) -> (c: char)
    requires
        d < 10,
    ensures
        c == digit_char(d as nat),
{
    if d == 0 { '0' }
    else if d == 1 { '1' }
    else if d == 2 { '2' }
    else if d == 3 { '3' }
    else if d == 4 { '4' }
    else if d == 5 { '5' }
    else if d == 6 { '6' }
    else if d == 7 { '7' }
    else if d == 8 { '8' }
    else { '9' }
}

/// The decimal text of a number, as `to_string` writes it.
pub fn decimal_string(n: u32) -> (r: String)
    ensures
        r@ == decimal_text(n as nat),
{
    let mut s = String::new();
    push_decimal(&mut s, n);
    s
}

} // verus!

verus! {

// ---------------------------------------------------------------------------
// Stripping characters at the ends of a string
// ---------------------------------------------------------------------------

/// The classes of characters that the library strips from the ends of text.
#[derive(Clone, Copy, PartialEq, Eq, Structural)]
pub enum CharClass {
    /// Unicode `White_Space`, as `char::is_whitespace` and `str::trim` use it.
    Whitespace,
    /// The character `#`.
    Hash,
    /// The characters `[` and `]`.
    Bracket,
}

pub open spec fn is_unicode_whitespace(c: char) -> bool {
    ||| c == ' '
    ||| ('\t' <= c && c <= '\r')
    ||| c == '\u{85}'
    ||| c == '\u{a0}'
    ||| c == '\u{1680}'
    ||| ('\u{2000}' <= c && c <= '\u{200a}')
    ||| c == '\u{2028}'
    ||| c == '\u{2029}'
    ||| c == '\u{202f}'
    ||| c == '\u{205f}'
    ||| c == '\u{3000}'
}

pub open spec fn in_class(k: CharClass, c: char) -> bool {
    match k {
        CharClass::Whitespace => is_unicode_whitespace(c),
        CharClass::Hash => c == '#',
        CharClass::Bracket => c == '[' || c == ']',
    }
}

pub fn char_in_class(k: CharClass, c: char) -> (b: bool)
    ensures
        b == in_class(k, c),
{
    match k {
        CharClass::Whitespace => {
            c == ' ' || ('\t' <= c && c <= '\r') || c == '\u{85}' || c == '\u{a0}' || c
                == '\u{1680}' || ('\u{2000}' <= c && c <= '\u{200a}') || c == '\u{2028}' || c
                == '\u{2029}' || c == '\u{202f}' || c == '\u{205f}' || c == '\u{3000}'
        },
        CharClass::Hash => c == '#',
        CharClass::Bracket => c == '[' || c == ']',
    }
}

/// `s` without the characters of class `k` at its start.
pub open spec fn strip_start(s: Seq<char>, k: CharClass) -> Seq<char>
    decreases s.len(),
{
    if s.len() > 0 && in_class(k, s[0]) {
        strip_start(s.drop_first(), k)
    } else {
        s
    }
}

/// `s` without the characters of class `k` at its end.
pub open spec fn strip_end(s: Seq<char>, k: CharClass) -> Seq<char>
    decreases s.len(),
{
    if s.len() > 0 && in_class(k, s.last()) {
        strip_end(s.drop_last(), k)
    } else {
        s
    }
}

/// `s` without the characters of class `k` at either end (`str::trim` for
/// whitespace, `str::trim_matches` for the others).
pub open spec fn strip(s: Seq<char>, k: CharClass) -> Seq<char> {
    strip_end(strip_start(s, k), k)
}

/// The part of `s` after the characters of class `k` at its start.
pub fn strip_front(s: &str, k: CharClass) -> (r: &str)
    ensures
        r@ == strip_start(s@, k),
{
    let n = s.unicode_len();
    let mut i: usize = 0;
    assert(s@.subrange(0, n as int) == s@);
    while i < n && char_in_class(k, s.get_char(i))
        invariant
            n == s@.len(),
            i <= n,
            strip_start(s@, k) == strip_start(s@.subrange(i as int, n as int), k),
        decreases n - i,
    {
        assert(s@.subrange(i as int, n as int).drop_first() == s@.subrange(i + 1, n as int));
        i += 1;
    }
    let r = s.substring_char(i, n);
    assert(r@ == s@.subrange(i as int, n as int));
    if i < n {
        assert(r@[0] == s@[i as int]);
    }
    r
}

/// The part of `s` before the characters of class `k` at its end.
pub fn strip_back(s: &str, k: CharClass) -> (r: &str)
    ensures
        r@ == strip_end(s@, k),
{
    let n = s.unicode_len();
    let mut j: usize = n;
    assert(s@.subrange(0, n as int) == s@);
    while j > 0 && char_in_class(k, s.get_char(j - 1))
        invariant
            n == s@.len(),
            j <= n,
            strip_end(s@, k) == strip_end(s@.subrange(0, j as int), k),
        decreases j,
    {
        assert(s@.subrange(0, j as int).drop_last() == s@.subrange(0, j - 1));
        j -= 1;
    }
    let r = s.substring_char(0, j);
    if j > 0 {
        assert(r@.last() == s@[j - 1]);
    }
    r
}

/// `s` without the characters of class `k` at either end.
pub fn strip_both(s: &str, k: CharClass) -> (r: &str)
    ensures
        r@ == strip(s@, k),
{
    strip_back(strip_front(s, k), k)
}

// ---------------------------------------------------------------------------
// Comma separated lists
// ---------------------------------------------------------------------------

/// The pieces of `s` between commas, as `str::split(',')` yields them.
pub open spec fn split_commas(s: Seq<char>) -> Seq<Seq<char>>
    decreases s.len(),
{
    if s.len() == 0 {
        seq![Seq::<char>::empty()]
    } else {
        let init = split_commas(s.drop_last());
        if s.last() == ',' {
            init.push(Seq::<char>::empty())
        } else {
            init.update(init.len() - 1, init.last().push(s.last()))
        }
    }
}

/// The pieces joined with commas between them, as `join(",")` writes them.
pub open spec fn join_commas(ps: Seq<Seq<char>>) -> Seq<char>
    decreases ps.len(),
{
    if ps.len() == 0 {
        Seq::<char>::empty()
    } else if ps.len() == 1 {
        ps[0]
    } else {
        join_commas(ps.drop_last()) + seq![','] + ps.last()
    }
}

pub open spec fn has_no_comma(s: Seq<char>) -> bool {
    forall|i: int| 0 <= i < s.len() ==> #[trigger] s[i] != ','
}

pub proof fn lemma_split_nonempty(s: Seq<char>)
    ensures
        split_commas(s).len() >= 1,
    decreases s.len(),
{
    if s.len() > 0 {
        lemma_split_nonempty(s.drop_last());
    }
}

proof fn lemma_split_append_plain(x: Seq<char>, b: Seq<char>)
    requires
        has_no_comma(b),
    ensures
        split_commas(x).len() >= 1,
        split_commas(x + b) == split_commas(x).update(
            split_commas(x).len() - 1,
            split_commas(x).last() + b,
        ),
    decreases b.len(),
{
    lemma_split_nonempty(x);
    let sx = split_commas(x);
    if b.len() == 0 {
        assert(x + b == x);
        assert(sx.last() + b == sx.last());
        assert(sx.update(sx.len() - 1, sx.last()) == sx);
    } else {
        let b0 = b.drop_last();
        assert(has_no_comma(b0)) by {
            assert forall|i: int| 0 <= i < b0.len() implies #[trigger] b0[i] != ',' by {
                assert(b0[i] == b[i]);
            }
        }
        lemma_split_append_plain(x, b0);
        assert((x + b).drop_last() == x + b0);
        assert((x + b).last() == b.last());
        assert(b.last() != ',') by {
            assert(b[b.len() - 1] != ',');
        }
        lemma_split_nonempty(x + b0);
        let s0 = split_commas(x + b0);
        assert(s0 == sx.update(sx.len() - 1, sx.last() + b0));
        assert(s0.last() == sx.last() + b0);
        assert((sx.last() + b0).push(b.last()) == sx.last() + b);
        assert(split_commas(x + b) == s0.update(s0.len() - 1, s0.last().push(b.last())));
        assert(s0.update(s0.len() - 1, s0.last().push(b.last())) =~= sx.update(
            sx.len() - 1,
            sx.last() + b,
        ));
    }
}

/// The pieces of a prefix, but its last, are the first pieces of the whole.
pub proof fn lemma_split_prefix(s: Seq<char>, i: int, j: int)
    requires
        0 <= i <= j <= s.len(),
    ensures
        split_commas(s.take(i)).len() <= split_commas(s.take(j)).len(),
        forall|k: int|
            0 <= k < split_commas(s.take(i)).len() - 1 ==> #[trigger] split_commas(s.take(i))[k]
                == split_commas(s.take(j))[k],
    decreases j - i,
{
    if i < j {
        lemma_split_prefix(s, i, j - 1);
        lemma_split_nonempty(s.take(j - 1));
        assert(s.take(j).drop_last() == s.take(j - 1));
    }
}

/// Splitting the comma-joined pieces gives the pieces back, when no piece
/// holds a comma.
pub proof fn lemma_split_join(ps: Seq<Seq<char>>)
    requires
        ps.len() >= 1,
        forall|i: int| 0 <= i < ps.len() ==> has_no_comma(#[trigger] ps[i]),
    ensures
        split_commas(join_commas(ps)) == ps,
    decreases ps.len(),
{
    if ps.len() == 1 {
        let e = Seq::<char>::empty();
        lemma_split_append_plain(e, ps[0]);
        assert(e + ps[0] == ps[0]);
        assert(split_commas(e) == seq![e]);
        assert(seq![e].update(0, e + ps[0]) =~= ps);
    } else {
        let init = ps.drop_last();
        assert forall|i: int| 0 <= i < init.len() implies has_no_comma(#[trigger] init[i]) by {
            assert(init[i] == ps[i]);
        }
        lemma_split_join(init);
        let x = join_commas(init) + seq![','];
        assert(x.drop_last() == join_commas(init));
        assert(split_commas(x) == init.push(Seq::<char>::empty()));
        assert(has_no_comma(ps.last())) by {
            assert(ps.last() == ps[ps.len() - 1]);
        }
        lemma_split_append_plain(x, ps.last());
        assert(join_commas(ps) == x + ps.last());
        let sx = split_commas(x);
        assert(sx.last() + ps.last() == ps.last());
        assert(sx.update(sx.len() - 1, sx.last() + ps.last()) =~= ps);
    }
}

// ---------------------------------------------------------------------------
// Hexadecimal digits
// ---------------------------------------------------------------------------

pub open spec fn is_hex_digit(c: char) -> bool {
    ('0' <= c && c <= '9') || ('a' <= c && c <= 'f') || ('A' <= c && c <= 'F')
}

pub open spec fn hex_value(c: char) -> nat {
    if '0' <= c && c <= '9' {
        ((c as int) - ('0' as int)) as nat
    } else if 'a' <= c && c <= 'f' {
        ((c as int) - ('a' as int) + 10) as nat
    } else {
        ((c as int) - ('A' as int) + 10) as nat
    }
}

/// How `u8::from_str_radix(_, 16)` reads a text of two characters.
pub open spec fn parse_hex_pair(a: char, b: char) -> Option<nat> {
    if a == '+' {
        if is_hex_digit(b) {
            Some(hex_value(b))
        } else {
            None
        }
    } else if is_hex_digit(a) && is_hex_digit(b) {
        Some(hex_value(a) * 16 + hex_value(b))
    } else {
        None
    }
}

/// The lower-case hexadecimal digit of a value below 16.
pub open spec fn hex_char(d: nat) -> char {
    if d < 10 {
        digit_char(d)
    } else if d == 10 {
        'a'
    } else if d == 11 {
        'b'
    } else if d == 12 {
        'c'
    } else if d == 13 {
        'd'
    } else if d == 14 {
        'e'
    } else {
        'f'
    }
}

/// The two lower-case hexadecimal digits of a byte, as `{:02x}` writes them.
pub open spec fn hex_byte_text(b: u8) -> Seq<char> {
    seq![hex_char((b / 16) as nat), hex_char((b % 16) as nat)]
}

pub proof fn lemma_hex_char(d: nat)
    requires
        d < 16,
    ensures
        is_hex_digit(hex_char(d)),
        hex_value(hex_char(d)) == d,
        hex_char(d) != '+',
{
}

/// Reading back the two hexadecimal digits of a byte gives the byte.
pub proof fn lemma_parse_hex_byte(b: u8)
    ensures
        parse_hex_pair(hex_byte_text(b)[0], hex_byte_text(b)[1]) == Some(b as nat),
{
    lemma_hex_char((b / 16) as nat);
    lemma_hex_char((b % 16) as nat);
}

pub fn hex_digit_value(c: char) -> (r: Option<u8>)
    ensures
        match r {
            Some(v) => is_hex_digit(c) && v == hex_value(c),
            None => !is_hex_digit(c),
        },
{
    if '0' <= c && c <= '9' {
        Some((c as u32 - '0' as u32) as u8)
    } else if 'a' <= c && c <= 'f' {
        Some((c as u32 - 'a' as u32 + 10) as u8)
    } else if 'A' <= c && c <= 'F' {
        Some((c as u32 - 'A' as u32 + 10) as u8)
    } else {
        None
    }
}

/// Reads two characters as `u8::from_str_radix(_, 16)` does.
pub fn parse_hex_byte(a: char, b: char) -> (r: Option<u8>)
    ensures
        match parse_hex_pair(a, b) {
            Some(v) => r == Some(v as u8),
            None => r is None,
        },
{
    if a == '+' {
        hex_digit_value(b)
    } else {
        match (hex_digit_value(a), hex_digit_value(b)) {
            (Some(x), Some(y)) => Some(x * 16 + y),
            _ => None,
        }
    }
}

pub fn hex_digit_char(d: u8) -> (c: char)
    requires
        d < 16,
    ensures
        c == hex_char(d as nat),
{
    if d < 10 {
        digit_to_char(d as u32)
    } else if d == 10 {
        'a'
    } else if d == 11 {
        'b'
    } else if d == 12 {
        'c'
    } else if d == 13 {
        'd'
    } else if d == 14 {
        'e'
    } else {
        'f'
    }
}

/// Writes the two lower-case hexadecimal digits of a byte.
pub fn push_hex_byte(s: &mut String, b: u8)
    ensures
        final(s)@ == old(s)@ + hex_byte_text(b),
{
    push_char(s, hex_digit_char(b / 16));
    push_char(s, hex_digit_char(b % 16));
    assert(old(s)@.push(hex_char((b / 16) as nat)).push(hex_char((b % 16) as nat)) == old(s)@
        + hex_byte_text(b));
}

} // verus!

verus! {

/// Whether two strings hold the same characters.
pub fn str_eq(a: &str, b: &str) -> (r: bool)
    ensures
        r == (a@ == b@),
{
    let n = a.unicode_len();
    if n != b.unicode_len() {
        return false;
    }
    let mut i: usize = 0;
    while i < n
        invariant
            n == a@.len(),
            n == b@.len(),
            i <= n,
            a@.subrange(0, i as int) == b@.subrange(0, i as int),
        decreases n - i,
    {
        if a.get_char(i) != b.get_char(i) {
            assert(a@[i as int] != b@[i as int]);
            return false;
        }
        assert(a@.subrange(0, i + 1) == a@.subrange(0, i as int).push(a@[i as int]));
        assert(b@.subrange(0, i + 1) == b@.subrange(0, i as int).push(b@[i as int]));
        i += 1;
    }
    assert(a@ == a@.subrange(0, n as int));
    assert(b@ == b@.subrange(0, n as int));
    true
}

} // verus!

verus! {

/// Stripping changes nothing when neither end is of the class.
pub proof fn lemma_strip_noop(s: Seq<char>, k: CharClass)
    requires
        s.len() > 0 ==> !in_class(k, s[0]) && !in_class(k, s.last()),
    ensures
        strip(s, k) == s,
{
}

/// No decimal digit is whitespace or a bracket.
pub proof fn lemma_digit_not_stripped(c: char)
    requires
        is_ascii_digit(c),
    ensures
        !in_class(CharClass::Whitespace, c),
        !in_class(CharClass::Bracket, c),
        !in_class(CharClass::Hash, c),
        c != ',',
{
}

/// The decimal text of a number has no whitespace around it and no comma.
pub proof fn lemma_decimal_text_plain(n: nat)
    ensures
        strip(decimal_text(n), CharClass::Whitespace) == decimal_text(n),
        has_no_comma(decimal_text(n)),
        is_ascii_digit(decimal_text(n)[0]),
        is_ascii_digit(decimal_text(n).last()),
{
    lemma_decimal_text(n);
    let t = decimal_text(n);
    lemma_digit_not_stripped(t[0]);
    assert(t.last() == t[t.len() - 1]);
    lemma_digit_not_stripped(t.last());
    lemma_strip_noop(t, CharClass::Whitespace);
    assert forall|i: int| 0 <= i < t.len() implies #[trigger] t[i] != ',' by {
        lemma_digit_not_stripped(t[i]);
    }
}

/// The ends of a comma-joined list are the ends of its first and last pieces.
pub proof fn lemma_join_ends(ps: Seq<Seq<char>>)
    requires
        ps.len() >= 1,
        forall|i: int| 0 <= i < ps.len() ==> (#[trigger] ps[i]).len() > 0,
    ensures
        join_commas(ps).len() > 0,
        join_commas(ps)[0] == ps[0][0],
        join_commas(ps).last() == ps.last().last(),
    decreases ps.len(),
{
    if ps.len() > 1 {
        let init = ps.drop_last();
        assert forall|i: int| 0 <= i < init.len() implies (#[trigger] init[i]).len() > 0 by {
            assert(init[i] == ps[i]);
        }
        lemma_join_ends(init);
        assert(ps.last() == ps[ps.len() - 1]);
        assert(init[0] == ps[0]);
    }
}

} // verus!
