//! Character-level building blocks: searching, trimming, joining,
//! decimal and hexadecimal rendering, and integer parsing as `str::parse` does it.

use vstd::prelude::*;

verus! {

/// Appends one character to a string (`String::push`).
#[verifier::external_body]
pub fn push_char(s: &mut String, c: char)
    ensures
        final(s)@ == old(s)@.push(c),
{
    s.push(c);
}

// ---------------------------------------------------------------------------
// Searching
// ---------------------------------------------------------------------------

/// Index of the first `c` in `s` at or after position `k`, or -1.
pub open spec fn index_from(s: Seq<char>, c: char, k: int) -> int
    decreases s.len() - k,
{
    if k < 0 || k >= s.len() {
        -1
    } else if s[k] == c {
        k
    } else {
        index_from(s, c, k + 1)
    }
}

/// What `index_from` returns: the first occurrence at or after `k`, or -1 when there is none.
pub proof fn lemma_index_from(s: Seq<char>, c: char, k: int)
    requires
        0 <= k,
    ensures
        index_from(s, c, k) == -1 || (k <= index_from(s, c, k) < s.len() && s[index_from(
            s,
            c,
            k,
        )] == c),
        index_from(s, c, k) == -1 ==> forall|j: int| k <= j < s.len() ==> s[j] != c,
        index_from(s, c, k) != -1 ==> forall|j: int| k <= j < index_from(s, c, k) ==> s[j] != c,
    decreases s.len() - k,
{
    if k < s.len() && s[k] != c {
        lemma_index_from(s, c, k + 1);
    }
}

/// Position of the first `c` in `s` at or after `from`.
pub fn find_char_from(s: &str, c: char, from: usize) -> (r: Option<usize>)
    requires
        from <= s@.len(),
    ensures
        match r {
            Some(i) => i as int == index_from(s@, c, from as int),
            None => index_from(s@, c, from as int) == -1,
        },
{
    let n = s.unicode_len();
    let mut i = from;
    while i < n
        invariant
            from <= i <= n,
            n == s@.len(),
            index_from(s@, c, from as int) == index_from(s@, c, i as int),
        decreases n - i,
    {
        if s.get_char(i) == c {
            return Some(i);
        }
        i = i + 1;
    }
    None
}

/// Whether two strings hold the same characters.
pub fn same_text(a: &str, b: &str) -> (r: bool)
    ensures
        r == (a@ == b@),
{
    let n = a.unicode_len();
    if n != b.unicode_len() {
        return false;
    }
    let mut i: usize = 0;
    while i < n
        invariant
            i <= n,
            n == a@.len(),
            n == b@.len(),
            forall|j: int| 0 <= j < i ==> a@[j] == b@[j],
        decreases n - i,
    {
        if a.get_char(i) != b.get_char(i) {
            return false;
        }
        i = i + 1;
    }
    proof {
        assert(a@ =~= b@);
    }
    true
}

/// `Some(rest)` when `prefix` starts `s`, with `rest` what follows it (`str::strip_prefix`).
pub fn strip_prefix<'a>(s: &'a str, prefix: &str) -> (r: Option<&'a str>)
    ensures
        match r {
            Some(rest) => prefix@.is_prefix_of(s@) && rest@ == s@.skip(prefix@.len() as int),
            None => !prefix@.is_prefix_of(s@),
        },
{
    let n = s.unicode_len();
    let m = prefix.unicode_len();
    if m > n {
        return None;
    }
    let mut i: usize = 0;
    while i < m
        invariant
            i <= m <= n,
            n == s@.len(),
            m == prefix@.len(),
            forall|j: int| 0 <= j < i ==> prefix@[j] == s@[j],
        decreases m - i,
    {
        if prefix.get_char(i) != s.get_char(i) {
            return None;
        }
        i = i + 1;
    }
    Some(s.substring_char(m, n))
}

// ---------------------------------------------------------------------------
// Whitespace
// ---------------------------------------------------------------------------

/// The Unicode `White_Space` property, which `char::is_whitespace` tests.
pub open spec fn is_whitespace(c: char) -> bool {
    let u = c as u32;
    (0x9 <= u <= 0xd) || u == 0x20 || u == 0x85 || u == 0xa0 || u == 0x1680 || (0x2000 <= u
        <= 0x200a) || u == 0x2028 || u == 0x2029 || u == 0x202f || u == 0x205f || u == 0x3000
}

/// Whether `c` is whitespace.
pub fn is_whitespace_char(c: char) -> (r: bool)
    ensures
        r == is_whitespace(c),
{
    let u = c as u32;
    (0x9 <= u && u <= 0xd) || u == 0x20 || u == 0x85 || u == 0xa0 || u == 0x1680 || (0x2000 <= u
        && u <= 0x200a) || u == 0x2028 || u == 0x2029 || u == 0x202f || u == 0x205f || u == 0x3000
}

/// The first position at or after `k` that does not hold whitespace (or the length).
pub open spec fn whitespace_end(s: Seq<char>, k: nat) -> nat
    decreases s.len() - k,
{
    if k >= s.len() {
        s.len()
    } else if is_whitespace(s[k as int]) {
        whitespace_end(s, k + 1)
    } else {
        k
    }
}

/// `s` without its leading whitespace (`str::trim_start`).
pub open spec fn trimmed_start(s: Seq<char>) -> Seq<char> {
    s.skip(whitespace_end(s, 0) as int)
}

/// `whitespace_end` lies between `k` and the length, with only whitespace before it.
pub proof fn lemma_whitespace_end(s: Seq<char>, k: nat)
    requires
        k <= s.len(),
    ensures
        k <= whitespace_end(s, k) <= s.len(),
        forall|j: int| k <= j < whitespace_end(s, k) ==> is_whitespace(#[trigger] s[j]),
        whitespace_end(s, k) < s.len() ==> !is_whitespace(s[whitespace_end(s, k) as int]),
    decreases s.len() - k,
{
    if k < s.len() && is_whitespace(s[k as int]) {
        lemma_whitespace_end(s, k + 1);
    }
}

/// The first position at or after `from` that does not hold whitespace (or the length).
pub fn skip_whitespace(s: &str, from: usize) -> (r: usize)
    requires
        from <= s@.len(),
    ensures
        r == whitespace_end(s@, from as nat),
        r <= s@.len(),
{
    let n = s.unicode_len();
    let mut i: usize = from;
    loop
        invariant
            from <= i <= n,
            n == s@.len(),
            whitespace_end(s@, from as nat) == whitespace_end(s@, i as nat),
        ensures
            i <= n,
            whitespace_end(s@, from as nat) == i,
        decreases n - i,
    {
        if i >= n {
            break;
        }
        if !is_whitespace_char(s.get_char(i)) {
            break;
        }
        i = i + 1;
    }
    i
}

/// Removes leading whitespace.
pub fn trim_start(s: &str) -> (r: &str)
    ensures
        r@ == trimmed_start(s@),
{
    let i = skip_whitespace(s, 0);
    s.substring_char(i, s.unicode_len())
}

// ---------------------------------------------------------------------------
// Joining and prefixes
// ---------------------------------------------------------------------------

/// `parts` joined with `sep` between neighbours (`[String]::join`).
pub open spec fn join(parts: Seq<Seq<char>>, sep: Seq<char>) -> Seq<char>
    decreases parts.len(),
{
    if parts.len() == 0 {
        seq![]
    } else if parts.len() == 1 {
        parts[0]
    } else {
        join(parts.drop_last(), sep) + sep + parts.last()
    }
}

/// The character views of a list of strings.
pub open spec fn views(parts: Seq<String>) -> Seq<Seq<char>> {
    parts.map_values(|p: String| p@)
}

/// Joins `parts` with `sep`.
pub fn join_strings(parts: &Vec<String>, sep: &str) -> (r: String)
    ensures
        r@ == join(views(parts@), sep@),
{
    let mut r = String::new();
    let ghost all = views(parts@);
    let mut i: usize = 0;
    while i < parts.len()
        invariant
            i <= parts@.len(),
            all == views(parts@),
            r@ == join(all.take(i as int), sep@),
        decreases parts@.len() - i,
    {
        proof {
            assert(all.take(i + 1).drop_last() =~= all.take(i as int));
        }
        if i != 0 {
            r.append(sep);
        }
        r.append(parts[i].as_str());
        i = i + 1;
    }
    proof {
        assert(all.take(parts@.len() as int) =~= all);
    }
    r
}

/// The first `n` characters of `s`, or all of it when it is shorter (`chars().take(n)`).
pub open spec fn first_chars(s: Seq<char>, n: nat) -> Seq<char> {
    if s.len() <= n {
        s
    } else {
        s.take(n as int)
    }
}

/// Copies at most the first `n` characters of `s`.
pub fn take_chars(s: &str, n: usize) -> (r: String)
    ensures
        r@ == first_chars(s@, n as nat),
{
    let len = s.unicode_len();
    let end = if len <= n {
        len
    } else {
        n
    };
    let part = s.substring_char(0, end);
    proof {
        assert(s@.subrange(0, len as int) =~= s@);
    }
    part.to_owned()
}

// ---------------------------------------------------------------------------
// Digits
// ---------------------------------------------------------------------------

/// The lower-case hexadecimal digit of `d` (0 to 15); the first ten are the decimal digits.
pub open spec fn digit_char(d: int) -> char {
    if d == 0 {
        '0'
    } else if d == 1 {
        '1'
    } else if d == 2 {
        '2'
    } else if d == 3 {
        '3'
    } else if d == 4 {
        '4'
    } else if d == 5 {
        '5'
    } else if d == 6 {
        '6'
    } else if d == 7 {
        '7'
    } else if d == 8 {
        '8'
    } else if d == 9 {
        '9'
    } else if d == 10 {
        'a'
    } else if d == 11 {
        'b'
    } else if d == 12 {
        'c'
    } else if d == 13 {
        'd'
    } else if d == 14 {
        'e'
    } else {
        'f'
    }
}

/// The digit character of `d`.
pub fn digit_of(d: u64) -> (c: char)
    requires
        d < 16,
    ensures
        c == digit_char(d as int),
{
    match d {
        0 => '0',
        1 => '1',
        2 => '2',
        3 => '3',
        4 => '4',
        5 => '5',
        6 => '6',
        7 => '7',
        8 => '8',
        9 => '9',
        10 => 'a',
        11 => 'b',
        12 => 'c',
        13 => 'd',
        14 => 'e',
        _ => 'f',
    }
}

/// The decimal rendering of `n`, as `Display` writes an unsigned integer.
pub open spec fn decimal(n: nat) -> Seq<char>
    decreases n,
{
    if n < 10 {
        seq![digit_char(n as int)]
    } else {
        decimal(n / 10).push(digit_char((n % 10) as int))
    }
}

/// Appends the decimal rendering of `n`.
pub fn push_decimal(s: &mut String, n: u64)
    ensures
        final(s)@ == old(s)@ + decimal(n as nat),
    decreases n,
{
    let ghost start = s@;
    if n >= 10 {
        push_decimal(s, n / 10);
    }
    push_char(s, digit_of(n % 10));
    proof {
        if n >= 10 {
            assert(start + decimal((n / 10) as nat).push(digit_char((n % 10) as int)) =~= (start
                + decimal((n / 10) as nat)).push(digit_char((n % 10) as int)));
        } else {
            assert(start.push(digit_char(n as int)) =~= start + seq![digit_char(n as int)]);
        }
    }
}

/// The decimal rendering of `n`.
pub fn decimal_string(n: u64) -> (r: String)
    ensures
        r@ == decimal(n as nat),
{
    let mut s = String::new();
    push_decimal(&mut s, n);
    proof {
        assert(seq![] + decimal(n as nat) =~= decimal(n as nat));
    }
    s
}

/// `n` in decimal, zero-padded to at least two characters (`{:02}`).
pub open spec fn decimal_pad2(n: nat) -> Seq<char> {
    if n < 10 {
        seq!['0'] + decimal(n)
    } else {
        decimal(n)
    }
}

/// Renders `n` as `{:02}` does.
pub fn decimal_pad2_string(n: u64) -> (r: String)
    ensures
        r@ == decimal_pad2(n as nat),
{
    let mut s = String::new();
    if n < 10 {
        push_char(&mut s, '0');
    }
    let ghost start = s@;
    push_decimal(&mut s, n);
    proof {
        if n >= 10 {
            assert(start =~= seq![]);
            assert(start + decimal(n as nat) =~= decimal(n as nat));
        } else {
            assert(start =~= seq!['0']);
        }
    }
    s
}

/// Distinct numbers have distinct decimal renderings.
pub proof fn lemma_decimal_injective(a: nat, b: nat)
    requires
        decimal(a) == decimal(b),
    ensures
        a == b,
    decreases a + b,
{
    lemma_decimal_len(a);
    lemma_decimal_len(b);
    if a < 10 && b < 10 {
        assert(decimal(a)[0] == digit_char(a as int));
        assert(decimal(b)[0] == digit_char(b as int));
        lemma_digit_char_injective(a as int, b as int);
    } else if a >= 10 && b >= 10 {
        let da = decimal(a);
        let db = decimal(b);
        assert(da.last() == digit_char((a % 10) as int));
        assert(db.last() == digit_char((b % 10) as int));
        lemma_digit_char_injective((a % 10) as int, (b % 10) as int);
        assert(da.drop_last() =~= decimal(a / 10));
        assert(db.drop_last() =~= decimal(b / 10));
        lemma_decimal_injective(a / 10, b / 10);
    } else if a < 10 {
        lemma_decimal_len((b / 10) as nat);
        assert(decimal(b).len() >= 2);
    } else {
        lemma_decimal_len((a / 10) as nat);
        assert(decimal(a).len() >= 2);
    }
}

/// A decimal rendering is never empty, and it is a single digit exactly below ten.
pub proof fn lemma_decimal_len(n: nat)
    ensures
        decimal(n).len() >= 1,
        n < 10 <==> decimal(n).len() == 1,
    decreases n,
{
    if n >= 10 {
        lemma_decimal_len(n / 10);
    }
}

/// The decimal rendering of `n` is made of digits, denotes `n`, and starts with
/// no `0` unless it is `0` itself; so it reads back as `n`.
pub proof fn lemma_decimal_value(n: nat)
    ensures
        all_digits(decimal(n)),
        digits_value(decimal(n)) == n,
        n > 0 ==> decimal(n)[0] != '0',
        n <= u64::MAX ==> parsed_u64(decimal(n)) == Some(n as int),
    decreases n,
{
    lemma_decimal_len(n);
    if n >= 10 {
        lemma_decimal_value(n / 10);
        let d = decimal(n);
        let h = decimal(n / 10);
        assert(d.drop_last() =~= h);
        assert(d[0] == h[0]);
        let c = digit_char((n % 10) as int);
        assert((c as u32) - 0x30 == n % 10);
        assert(d.last() == c);
        assert(digits_value(d) == 10 * digits_value(h) + ((c as u32) - 0x30));
        assert(n == 10 * (n / 10) + n % 10);
        assert forall|i: int| 0 <= i < d.len() implies is_digit(#[trigger] d[i]) by {
            if i < h.len() {
                assert(d[i] == h[i]);
            }
        }
    } else {
        assert((digit_char(n as int) as u32) - 0x30 == n);
        assert(decimal(n).drop_last() =~= Seq::<char>::empty());
        reveal_with_fuel(digits_value, 2);
    }
    assert(decimal(n)[0] != '+');
}

/// Rendering with two digits at least (`{:02}`) gives digits that denote `n`,
/// as many as the plain rendering but never fewer than two.
pub proof fn lemma_decimal_pad2_value(n: nat)
    ensures
        all_digits(decimal_pad2(n)),
        digits_value(decimal_pad2(n)) == n,
        decimal_pad2(n).len() == if decimal(n).len() < 2 {
            2
        } else {
            decimal(n).len()
        },
{
    lemma_decimal_value(n);
    lemma_decimal_len(n);
    if n < 10 {
        let d = decimal_pad2(n);
        assert(d.drop_last() =~= seq!['0']);
        assert(digits_value(seq!['0']) == 0) by {
            assert(seq!['0'].drop_last() =~= Seq::<char>::empty());
            reveal_with_fuel(digits_value, 2);
        }
        assert(d.last() == decimal(n)[0]);
        assert(digits_value(decimal(n)) == 10 * digits_value(decimal(n).drop_last()) + ((
        decimal(n).last() as u32) - 0x30));
        assert(decimal(n).drop_last() =~= Seq::<char>::empty());
        assert forall|i: int| 0 <= i < d.len() implies is_digit(#[trigger] d[i]) by {
            if i == 1 {
                assert(d[1] == decimal(n)[0]);
            }
        }
    }
}

/// Distinct digit values have distinct digit characters.
pub proof fn lemma_digit_char_injective(a: int, b: int)
    requires
        0 <= a < 16,
        0 <= b < 16,
        digit_char(a) == digit_char(b),
    ensures
        a == b,
{
}


// ---------------------------------------------------------------------------
// Hexadecimal
// ---------------------------------------------------------------------------

/// The last `count` hexadecimal digits of `h`, most significant first.
pub open spec fn hex_digits(h: nat, count: nat) -> Seq<char>
    decreases count,
{
    if count == 0 {
        seq![]
    } else {
        hex_digits(h / 16, (count - 1) as nat).push(digit_char((h % 16) as int))
    }
}

/// `h` in lower-case hexadecimal padded with zeros to sixteen digits (`{:016x}`).
pub open spec fn hex16(h: u64) -> Seq<char> {
    hex_digits(h as nat, 16)
}

/// Appends the last `count` hexadecimal digits of `h`.
pub fn push_hex_digits(s: &mut String, h: u64, count: u64)
    ensures
        final(s)@ == old(s)@ + hex_digits(h as nat, count as nat),
    decreases count,
{
    let ghost start = s@;
    if count == 0 {
        proof {
            assert(start + seq![] =~= start);
        }
        return;
    }
    push_hex_digits(s, h / 16, count - 1);
    push_char(s, digit_of(h % 16));
    proof {
        assert(start + hex_digits((h / 16) as nat, (count - 1) as nat).push(digit_char((h % 16) as int))
            =~= (start + hex_digits((h / 16) as nat, (count - 1) as nat)).push(digit_char((h % 16) as int)));
    }
}

/// Renders `h` as `{:016x}` does.
pub fn hex16_string(h: u64) -> (r: String)
    ensures
        r@ == hex16(h),
{
    let mut s = String::new();
    push_hex_digits(&mut s, h, 16);
    proof {
        assert(seq![] + hex16(h) =~= hex16(h));
    }
    s
}

/// The value of a hexadecimal digit character (0 to 15).
pub open spec fn hex_value_of(c: char) -> int {
    let u = c as u32;
    if 0x30 <= u <= 0x39 {
        u - 0x30
    } else {
        u - 0x61 + 10
    }
}

/// The number that a string of hexadecimal digits denotes.
pub open spec fn hex_value(s: Seq<char>) -> int
    decreases s.len(),
{
    if s.len() == 0 {
        0
    } else {
        16 * hex_value(s.drop_last()) + hex_value_of(s.last())
    }
}

/// Sixteen to the power `n`.
pub open spec fn pow16(n: nat) -> nat
    decreases n,
{
    if n == 0 {
        1
    } else {
        16 * pow16((n - 1) as nat)
    }
}

proof fn lemma_hex_digits_value(h: nat, count: nat)
    ensures
        hex_digits(h, count).len() == count,
        hex_value(hex_digits(h, count)) == h % pow16(count),
    decreases count,
{
    if count > 0 {
        let m = pow16((count - 1) as nat);
        lemma_hex_digits_value(h / 16, (count - 1) as nat);
        lemma_pow16_positive((count - 1) as nat);
        let s = hex_digits(h, count);
        assert(s.drop_last() =~= hex_digits(h / 16, (count - 1) as nat));
        let d = (h % 16) as int;
        assert(hex_value_of(digit_char(d)) == d) by {
            assert(0 <= d < 16);
        }
        vstd::arithmetic::div_mod::lemma_mod_breakdown(h as int, 16, m as int);
    }
}

proof fn lemma_pow16_positive(n: nat)
    ensures
        pow16(n) > 0,
    decreases n,
{
    if n > 0 {
        lemma_pow16_positive((n - 1) as nat);
    }
}

/// The sixteen-digit hexadecimal rendering of `h` denotes `h` again, so distinct
/// numbers never share a rendering.
pub proof fn lemma_hex16_value(h: u64)
    ensures
        hex16(h).len() == 16,
        hex_value(hex16(h)) == h,
{
    lemma_hex_digits_value(h as nat, 16);
    assert(pow16(16) == 0x1_0000_0000_0000_0000) by {
        reveal_with_fuel(pow16, 17);
    }
}

// ---------------------------------------------------------------------------
// Parsing integers as `str::parse` does
// ---------------------------------------------------------------------------

/// An ASCII decimal digit.
pub open spec fn is_digit(c: char) -> bool {
    0x30 <= (c as u32) <= 0x39
}

/// Every character is a decimal digit.
pub open spec fn all_digits(s: Seq<char>) -> bool {
    forall|i: int| 0 <= i < s.len() ==> is_digit(#[trigger] s[i])
}

/// The number that a string of decimal digits denotes.
pub open spec fn digits_value(s: Seq<char>) -> int
    decreases s.len(),
{
    if s.len() == 0 {
        0
    } else {
        10 * digits_value(s.drop_last()) + ((s.last() as u32) - 0x30)
    }
}

/// What `str::parse::<u64>` accepts: an optional `+`, then one or more digits
/// denoting a number that fits in 64 bits.
pub open spec fn parsed_u64(s: Seq<char>) -> Option<int> {
    let d = if s.len() > 0 && s[0] == '+' {
        s.drop_first()
    } else {
        s
    };
    if d.len() > 0 && all_digits(d) && digits_value(d) <= u64::MAX {
        Some(digits_value(d))
    } else {
        None
    }
}

/// What `str::parse::<i32>` accepts: an optional `+` or `-`, then one or more
/// digits, with the signed value in the range of `i32`.
pub open spec fn parsed_i32(s: Seq<char>) -> Option<int> {
    let neg = s.len() > 0 && s[0] == '-';
    let d = if s.len() > 0 && (s[0] == '+' || s[0] == '-') {
        s.drop_first()
    } else {
        s
    };
    if d.len() > 0 && all_digits(d) {
        if neg && digits_value(d) <= 0x8000_0000 {
            Some(-digits_value(d))
        } else if !neg && digits_value(d) <= 0x7fff_ffff {
            Some(digits_value(d))
        } else {
            None
        }
    } else {
        None
    }
}

proof fn lemma_digits_value_nonneg(s: Seq<char>)
    requires
        all_digits(s),
    ensures
        digits_value(s) >= 0,
    decreases s.len(),
{
    if s.len() > 0 {
        assert(all_digits(s.drop_last()));
        assert(is_digit(s[s.len() - 1]));
        lemma_digits_value_nonneg(s.drop_last());
    }
}

/// Reads the digits of `s` from `start` on: `None` when one is not a digit, else
/// `Some` of the value, capped at `limit + 1` once it exceeds `limit`.
fn read_digits(s: &str, start: usize, limit: u64) -> (r: Option<u128>)
    requires
        start <= s@.len(),
    ensures
        match r {
            None => !all_digits(s@.skip(start as int)),
            Some(v) => all_digits(s@.skip(start as int)) && (if digits_value(s@.skip(start as int))
                <= limit {
                v == digits_value(s@.skip(start as int))
            } else {
                v == limit + 1
            }),
        },
{
    let n = s.unicode_len();
    let mut acc: u128 = 0;
    let mut i = start;
    proof {
        assert(s@.subrange(start as int, start as int) =~= Seq::<char>::empty());
    }
    while i < n
        invariant
            start <= i <= n,
            n == s@.len(),
            all_digits(s@.subrange(start as int, i as int)),
            digits_value(s@.subrange(start as int, i as int)) <= limit ==> acc == digits_value(
                s@.subrange(start as int, i as int),
            ),
            digits_value(s@.subrange(start as int, i as int)) > limit ==> acc == limit + 1,
        decreases n - i,
    {
        let c = s.get_char(i);
        let u = c as u32;
        let ghost prev = s@.subrange(start as int, i as int);
        let ghost next = s@.subrange(start as int, i + 1);
        proof {
            assert(next.drop_last() =~= prev);
            assert(next.last() == c);
        }
        if u < 0x30 || u > 0x39 {
            proof {
                assert(s@.skip(start as int)[i - start] == c);
            }
            return None;
        }
        let d = (u - 0x30) as u128;
        proof {
            assert forall|j: int| 0 <= j < next.len() implies is_digit(#[trigger] next[j]) by {
                if j < prev.len() {
                    assert(next[j] == prev[j]);
                }
            }
            lemma_digits_value_nonneg(prev);
            assert(digits_value(next) == 10 * digits_value(prev) + d);
        }
        if acc <= limit as u128 {
            let nv = acc * 10 + d;
            if nv > limit as u128 {
                acc = limit as u128 + 1;
            } else {
                acc = nv;
            }
        }
        i = i + 1;
    }
    proof {
        assert(s@.subrange(start as int, n as int) =~= s@.skip(start as int));
    }
    Some(acc)
}

/// Index where the digits start after an optional sign; `allow_minus` also skips `-`.
fn sign_len(s: &str, allow_minus: bool) -> (r: usize)
    ensures
        r <= s@.len(),
        r == 1 <==> (s@.len() > 0 && (s@[0] == '+' || (allow_minus && s@[0] == '-'))),
        r == 0 || r == 1,
{
    if s.unicode_len() > 0 {
        let c = s.get_char(0);
        if c == '+' || (allow_minus && c == '-') {
            return 1;
        }
    }
    0
}

/// Whether `s` parses as a `u64` (`s.parse::<u64>().is_ok()`).
pub fn parses_as_u64(s: &str) -> (r: bool)
    ensures
        r == parsed_u64(s@).is_some(),
{
    let n = s.unicode_len();
    let start = sign_len(s, false);
    proof {
        if start == 1 {
            assert(s@.skip(1) =~= s@.drop_first());
        } else {
            assert(s@.skip(0) =~= s@);
        }
    }
    if start >= n {
        return false;
    }
    match read_digits(s, start, 0xffff_ffff_ffff_ffff) {
        None => false,
        Some(v) => v <= 0xffff_ffff_ffff_ffff,
    }
}

/// Parses `s` as an `i32` (`s.parse::<i32>().ok()`).
pub fn parse_i32(s: &str) -> (r: Option<i32>)
    ensures
        match r {
            Some(v) => parsed_i32(s@) == Some(v as int),
            None => parsed_i32(s@).is_none(),
        },
{
    let n = s.unicode_len();
    let start = sign_len(s, true);
    let neg = start == 1 && s.get_char(0) == '-';
    proof {
        if start == 1 {
            assert(s@.skip(1) =~= s@.drop_first());
        } else {
            assert(s@.skip(0) =~= s@);
        }
    }
    if start >= n {
        return None;
    }
    match read_digits(s, start, 0x8000_0000) {
        None => None,
        Some(v) => {
            if neg {
                if v <= 0x8000_0000 {
                    Some((0 - (v as i64)) as i32)
                } else {
                    None
                }
            } else if v <= 0x7fff_ffff {
                Some(v as i32)
            } else {
                None
            }
        },
    }
}

} // verus!
