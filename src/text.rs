use vstd::prelude::*;

verus! {

/// The ASCII whitespace bytes: space, tab, line feed, vertical tab, form
/// feed and carriage return.
pub open spec fn is_ascii_space(b: u8) -> bool {
    b == 0x20 || b == 0x09 || b == 0x0a || b == 0x0b || b == 0x0c || b == 0x0d
}

/// `w` is the UTF-8 encoding of one whitespace character, as `str::trim`
/// understands it (the Unicode `White_Space` property): the six ASCII ones,
/// U+0085, U+00A0, U+1680, U+2000 to U+200A, U+2028, U+2029, U+202F, U+205F
/// and U+3000.
pub open spec fn is_space_encoding(w: Seq<u8>) -> bool {
    ||| w.len() == 1 && is_ascii_space(w[0])
    ||| w.len() == 2 && w[0] == 0xc2 && (w[1] == 0x85 || w[1] == 0xa0)
    ||| w.len() == 3 && is_space_triple(w[0], w[1], w[2])
}

/// The three-byte encodings of whitespace characters.
pub open spec fn is_space_triple(a: u8, b: u8, c: u8) -> bool {
    ||| a == 0xe1 && b == 0x9a && c == 0x80
    ||| a == 0xe2 && b == 0x80 && (0x80 <= c <= 0x8a || c == 0xa8 || c == 0xa9 || c == 0xaf)
    ||| a == 0xe2 && b == 0x81 && c == 0x9f
    ||| a == 0xe3 && b == 0x80 && c == 0x80
}

/// The length of the whitespace character that `s` starts with; zero if it
/// starts with none.
pub open spec fn leading_space_len(s: Seq<u8>) -> nat {
    if s.len() >= 1 && is_space_encoding(s.take(1)) {
        1
    } else if s.len() >= 2 && is_space_encoding(s.take(2)) {
        2
    } else if s.len() >= 3 && is_space_encoding(s.take(3)) {
        3
    } else {
        0
    }
}

/// The length of the whitespace character that `s` ends with; zero if it
/// ends with none.
pub open spec fn trailing_space_len(s: Seq<u8>) -> nat {
    if s.len() >= 1 && is_space_encoding(s.skip(s.len() - 1)) {
        1
    } else if s.len() >= 2 && is_space_encoding(s.skip(s.len() - 2)) {
        2
    } else if s.len() >= 3 && is_space_encoding(s.skip(s.len() - 3)) {
        3
    } else {
        0
    }
}

/// The bytes of the digits `0` to `9`.
pub open spec fn is_ascii_digit(b: u8) -> bool {
    0x30 <= b <= 0x39
}

/// `s` without its leading whitespace.
pub open spec fn trim_start(s: Seq<u8>) -> Seq<u8>
    decreases s.len(),
{
    let k = leading_space_len(s);
    if k > 0 {
        trim_start(s.skip(k as int))
    } else {
        s
    }
}

/// `s` without its trailing whitespace.
pub open spec fn trim_end(s: Seq<u8>) -> Seq<u8>
    decreases s.len(),
{
    let k = trailing_space_len(s);
    if k > 0 {
        trim_end(s.take(s.len() - k))
    } else {
        s
    }
}

/// `s` without its leading and trailing whitespace.
pub open spec fn trimmed(s: Seq<u8>) -> Seq<u8> {
    trim_end(trim_start(s))
}

/// The number that the decimal digits `d` write, most significant first.
pub open spec fn digits_value(d: Seq<u8>) -> nat
    decreases d.len(),
{
    if d.len() == 0 {
        0
    } else {
        digits_value(d.drop_last()) * 10 + (d.last() - 0x30) as nat
    }
}

/// `t` without one leading plus sign, if it has one.
pub open spec fn unsigned_part(t: Seq<u8>) -> Seq<u8> {
    if t.len() > 0 && t[0] == 0x2b {
        t.drop_first()
    } else {
        t
    }
}

/// The unsigned 64-bit number that the text `s` holds: after surrounding
/// whitespace is trimmed, an optional `+` and one or more decimal digits
/// whose value fits in `u64`. `None` for any other text.
pub open spec fn decimal_u64(s: Seq<u8>) -> Option<u64> {
    let d = unsigned_part(trimmed(s));
    if d.len() > 0 && (forall|i: int| 0 <= i < d.len() ==> is_ascii_digit(#[trigger] d[i]))
        && digits_value(d) <= u64::MAX {
        Some(digits_value(d) as u64)
    } else {
        None
    }
}

/// The display name of a domain: its directory's name, a slash, and the
/// domain's own name with surrounding whitespace trimmed.
pub open spec fn display_name_of(dir_name: Seq<u8>, name_text: Seq<u8>) -> Seq<u8> {
    dir_name + seq![0x2fu8] + trimmed(name_text)
}

fn is_ascii_space_byte(b: u8) -> (r: bool)
    ensures
        r == is_ascii_space(b),
{
    b == 0x20 || b == 0x09 || b == 0x0a || b == 0x0b || b == 0x0c || b == 0x0d
}

fn is_space_triple_bytes(a: u8, b: u8, c: u8) -> (r: bool)
    ensures
        r == is_space_triple(a, b, c),
{
    (a == 0xe1 && b == 0x9a && c == 0x80) || (a == 0xe2 && b == 0x80 && ((0x80 <= c && c <= 0x8a)
        || c == 0xa8 || c == 0xa9 || c == 0xaf)) || (a == 0xe2 && b == 0x81 && c == 0x9f) || (a
        == 0xe3 && b == 0x80 && c == 0x80)
}

/// The length of the whitespace character that `s[i..n]` starts with.
fn leading_space_at(s: &[u8], i: usize, n: usize) -> (r: usize)
    requires
        i <= n <= s@.len(),
    ensures
        r == leading_space_len(s@.subrange(i as int, n as int)),
{
    let ghost t = s@.subrange(i as int, n as int);
    let m = n - i;
    if m >= 1 && is_ascii_space_byte(s[i]) {
        return 1;
    }
    assert(m >= 1 ==> t.take(1).len() == 1 && t.take(1)[0] == s[i as int]);
    if m >= 2 && s[i] == 0xc2 && (s[i + 1] == 0x85 || s[i + 1] == 0xa0) {
        assert(t.take(2)[0] == s[i as int] && t.take(2)[1] == s[i + 1]);
        return 2;
    }
    assert(m >= 2 ==> t.take(2)[0] == s[i as int] && t.take(2)[1] == s[i + 1]);
    if m >= 3 && is_space_triple_bytes(s[i], s[i + 1], s[i + 2]) {
        assert(t.take(3)[0] == s[i as int] && t.take(3)[1] == s[i + 1] && t.take(3)[2] == s[i
            + 2]);
        return 3;
    }
    assert(m >= 3 ==> t.take(3)[0] == s[i as int] && t.take(3)[1] == s[i + 1] && t.take(3)[2]
        == s[i + 2]);
    0
}

/// The length of the whitespace character that `s[i..j]` ends with.
fn trailing_space_at(s: &[u8], i: usize, j: usize) -> (r: usize)
    requires
        i <= j <= s@.len(),
    ensures
        r == trailing_space_len(s@.subrange(i as int, j as int)),
{
    let ghost t = s@.subrange(i as int, j as int);
    let m = j - i;
    if m >= 1 && is_ascii_space_byte(s[j - 1]) {
        assert(t.skip(t.len() - 1)[0] == s[j - 1]);
        return 1;
    }
    assert(m >= 1 ==> t.skip(t.len() - 1).len() == 1 && t.skip(t.len() - 1)[0] == s[j - 1]);
    if m >= 2 && s[j - 2] == 0xc2 && (s[j - 1] == 0x85 || s[j - 1] == 0xa0) {
        assert(t.skip(t.len() - 2)[0] == s[j - 2] && t.skip(t.len() - 2)[1] == s[j - 1]);
        return 2;
    }
    assert(m >= 2 ==> t.skip(t.len() - 2)[0] == s[j - 2] && t.skip(t.len() - 2)[1] == s[j - 1]);
    if m >= 3 && is_space_triple_bytes(s[j - 3], s[j - 2], s[j - 1]) {
        assert(t.skip(t.len() - 3)[0] == s[j - 3] && t.skip(t.len() - 3)[1] == s[j - 2] && t.skip(
            t.len() - 3,
        )[2] == s[j - 1]);
        return 3;
    }
    assert(m >= 3 ==> t.skip(t.len() - 3)[0] == s[j - 3] && t.skip(t.len() - 3)[1] == s[j - 2]
        && t.skip(t.len() - 3)[2] == s[j - 1]);
    0
}

/// The bounds of `s` with surrounding whitespace trimmed.
fn trim_bounds(s: &[u8]) -> (r: (usize, usize))
    ensures
        r.0 <= r.1 <= s@.len(),
        s@.subrange(r.0 as int, r.1 as int) == trimmed(s@),
{
    let n = s.len();
    let mut i: usize = 0;
    assert(s@.subrange(0, n as int) =~= s@);
    loop
        invariant
            i <= n,
            n == s@.len(),
            trim_start(s@.subrange(i as int, n as int)) == trim_start(s@),
        ensures
            i <= n,
            trim_start(s@) == s@.subrange(i as int, n as int),
        decreases n - i,
    {
        let k = leading_space_at(s, i, n);
        if k == 0 {
            break;
        }
        assert(s@.subrange(i as int, n as int).skip(k as int) =~= s@.subrange(
            i + k,
            n as int,
        ));
        i = i + k;
    }
    let mut j: usize = n;
    loop
        invariant
            i <= j <= n,
            n == s@.len(),
            trim_end(s@.subrange(i as int, j as int)) == trimmed(s@),
        ensures
            i <= j <= n,
            s@.subrange(i as int, j as int) == trimmed(s@),
        decreases j - i,
    {
        let k = trailing_space_at(s, i, j);
        if k == 0 {
            break;
        }
        assert(s@.subrange(i as int, j as int).take(j - i - k) =~= s@.subrange(
            i as int,
            j - k,
        ));
        j = j - k;
    }
    (i, j)
}

/// A run of digits is worth at least any of its prefixes.
proof fn lemma_digits_value_prefix(d: Seq<u8>, k: int)
    requires
        0 <= k <= d.len(),
        forall|i: int| 0 <= i < d.len() ==> is_ascii_digit(#[trigger] d[i]),
    ensures
        digits_value(d.subrange(0, k)) <= digits_value(d),
    decreases d.len(),
{
    if k < d.len() {
        let p = d.drop_last();
        assert(p.subrange(0, k) =~= d.subrange(0, k));
        assert forall|i: int| 0 <= i < p.len() implies is_ascii_digit(#[trigger] p[i]) by {
            assert(p[i] == d[i]);
        }
        lemma_digits_value_prefix(p, k);
    } else {
        assert(d.subrange(0, k) =~= d);
    }
}

/// Parses unsigned decimal text, such as the contents of a counter file,
/// into a `u64`. Surrounding whitespace, as `str::trim` removes it, is
/// ignored and one leading `+` is accepted; anything else but digits, or a value above `u64::MAX`, gives
/// `None`.
pub fn parse_decimal_u64(text: &[u8]) -> (r: Option<u64>)
    ensures
        r == decimal_u64(text@),
{
    let (start, end) = trim_bounds(text);
    let ghost t = text@.subrange(start as int, end as int);
    let mut a = start;
    if a < end && text[a] == 0x2b {
        a = a + 1;
    }
    let ghost d = unsigned_part(t);
    assert(d =~= text@.subrange(a as int, end as int));
    if a == end {
        return None;
    }
    let mut value: u64 = 0;
    let mut k = a;
    while k < end
        invariant
            a <= k <= end,
            end <= text@.len(),
            d == text@.subrange(a as int, end as int),
            d == unsigned_part(trimmed(text@)),
            forall|i: int| 0 <= i < k - a ==> is_ascii_digit(#[trigger] d[i]),
            value == digits_value(d.subrange(0, k - a)),
        decreases end - k,
    {
        let b = text[k];
        if b < 0x30 || b > 0x39 {
            assert(d[k - a] == b);
            assert(!is_ascii_digit(d[k - a]));
            return None;
        }
        let digit = (b - 0x30) as u64;
        let ghost next = d.subrange(0, k - a + 1);
        assert(next.drop_last() =~= d.subrange(0, k - a));
        assert(d[k - a] == b);
        assert(digits_value(next) == value * 10 + digit);
        if value > (u64::MAX - digit) / 10 {
            assert(value * 10 + digit > u64::MAX) by (nonlinear_arith)
                requires
                    value > (u64::MAX - digit) / 10,
                    digit <= 9,
            ;
            proof {
                if forall|i: int| 0 <= i < d.len() ==> is_ascii_digit(#[trigger] d[i]) {
                    lemma_digits_value_prefix(d, k - a + 1);
                }
            }
            return None;
        }
        assert(value * 10 + digit <= u64::MAX) by (nonlinear_arith)
            requires
                value <= (u64::MAX - digit) / 10,
                digit <= 9,
        ;
        value = value * 10 + digit;
        k = k + 1;
    }
    assert(d.subrange(0, end - a) =~= d);
    Some(value)
}

/// The display name of a domain: `dir_name`, a slash, and `name_text` with
/// surrounding whitespace trimmed.
pub fn display_name(dir_name: &[u8], name_text: &[u8]) -> (r: Vec<u8>)
    ensures
        r@ == display_name_of(dir_name@, name_text@),
{
    let mut out: Vec<u8> = Vec::new();
    let mut i: usize = 0;
    while i < dir_name.len()
        invariant
            i <= dir_name@.len(),
            out@ == dir_name@.subrange(0, i as int),
        decreases dir_name@.len() - i,
    {
        out.push(dir_name[i]);
        i = i + 1;
        assert(out@ =~= dir_name@.subrange(0, i as int));
    }
    assert(dir_name@.subrange(0, i as int) =~= dir_name@);
    out.push(0x2f);
    let ghost head = out@;
    let (start, end) = trim_bounds(name_text);
    let mut k = start;
    while k < end
        invariant
            start <= k <= end,
            end <= name_text@.len(),
            out@ == head + name_text@.subrange(start as int, k as int),
        decreases end - k,
    {
        out.push(name_text[k]);
        k = k + 1;
        assert(out@ =~= head + name_text@.subrange(start as int, k as int));
    }
    assert(out@ =~= display_name_of(dir_name@, name_text@));
    out
}

} // verus!
