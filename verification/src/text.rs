//! Text helpers: trimming, searching, and writing numbers.
use vstd::prelude::*;

verus! {

/// The characters with the Unicode property White_Space.
pub open spec fn is_white(c: char) -> bool {
    ||| '\u{9}' <= c <= '\u{d}'
    ||| c == ' '
    ||| c == '\u{85}'
    ||| c == '\u{a0}'
    ||| c == '\u{1680}'
    ||| '\u{2000}' <= c <= '\u{200a}'
    ||| c == '\u{2028}'
    ||| c == '\u{2029}'
    ||| c == '\u{202f}'
    ||| c == '\u{205f}'
    ||| c == '\u{3000}'
}

/// `s` without its leading white space.
pub open spec fn trim_left(s: Seq<char>) -> Seq<char>
    decreases s.len(),
{
    if s.len() > 0 && is_white(s[0]) {
        trim_left(s.subrange(1, s.len() as int))
    } else {
        s
    }
}

/// `s` without its trailing white space.
pub open spec fn trim_right(s: Seq<char>) -> Seq<char>
    decreases s.len(),
{
    if s.len() > 0 && is_white(s.last()) {
        trim_right(s.drop_last())
    } else {
        s
    }
}

/// `s` without white space at either end.
pub open spec fn trim(s: Seq<char>) -> Seq<char> {
    trim_right(trim_left(s))
}

/// A digit in base 16, upper case.
pub open spec fn hex_digit(d: int) -> char {
    if d == 0 {
        '0'
    } else if d == 1 {
        '1'
    } else if d == 2 {
        '2'
    } else if d == 3 {
        '3'
    } else if d == 4 {
        '4'
    } else if d == 5 {
        '5'
    } else if d == 6 {
        '6'
    } else if d == 7 {
        '7'
    } else if d == 8 {
        '8'
    } else if d == 9 {
        '9'
    } else if d == 10 {
        'A'
    } else if d == 11 {
        'B'
    } else if d == 12 {
        'C'
    } else if d == 13 {
        'D'
    } else if d == 14 {
        'E'
    } else {
        'F'
    }
}

/// `n` in base 10.
pub open spec fn decimal(n: nat) -> Seq<char>
    decreases n,
{
    if n < 10 {
        seq![hex_digit(n as int)]
    } else {
        decimal(n / 10).push(hex_digit((n % 10) as int))
    }
}

/// A signed number in base 10.
pub open spec fn signed_decimal(n: int) -> Seq<char> {
    if n < 0 {
        seq!['-'] + decimal((-n) as nat)
    } else {
        decimal(n as nat)
    }
}

/// `n` in base 16, upper case, without leading zeros.
pub open spec fn hex(n: nat) -> Seq<char>
    decreases n,
{
    if n < 16 {
        seq![hex_digit(n as int)]
    } else {
        hex(n / 16).push(hex_digit((n % 16) as int))
    }
}

/// The last `width` base-16 digits of `n`, upper case, zeros included.
pub open spec fn hex_fixed(n: nat, width: nat) -> Seq<char>
    decreases width,
{
    if width == 0 {
        seq![]
    } else {
        hex_fixed(n / 16, (width - 1) as nat).push(hex_digit((n % 16) as int))
    }
}

/// The contents of each string.
pub open spec fn contents(parts: Seq<String>) -> Seq<Seq<char>> {
    Seq::new(parts.len(), |i: int| parts[i]@)
}

/// The parts one after the other, with `sep` between neighbours.
pub open spec fn joined(parts: Seq<Seq<char>>, sep: Seq<char>) -> Seq<char>
    decreases parts.len(),
{
    if parts.len() == 0 {
        seq![]
    } else if parts.len() == 1 {
        parts[0]
    } else {
        joined(parts.drop_last(), sep) + sep + parts.last()
    }
}

/// `pat` occurs in `s` at `at`.
pub open spec fn occurs_at(s: Seq<char>, pat: Seq<char>, at: int) -> bool {
    &&& 0 <= at
    &&& at + pat.len() <= s.len()
    &&& s.subrange(at, at + pat.len()) == pat
}

/// `pat` occurs somewhere in `s`.
pub open spec fn occurs(s: Seq<char>, pat: Seq<char>) -> bool {
    exists|at: int| #[trigger] occurs_at(s, pat, at)
}

fn white(c: char) -> (r: bool)
    ensures
        r == is_white(c),
{
    ('\u{9}' <= c && c <= '\u{d}') || c == ' ' || c == '\u{85}' || c == '\u{a0}' || c == '\u{1680}'
        || ('\u{2000}' <= c && c <= '\u{200a}') || c == '\u{2028}' || c == '\u{2029}' || c
        == '\u{202f}' || c == '\u{205f}' || c == '\u{3000}'
}

/// `s` without white space at either end.
pub fn trim_str<'a>(s: &'a str) -> (r: &'a str)
    ensures
        r@ == trim(s@),
{
    let n: usize = s.unicode_len();
    let mut from: usize = 0;
    assert(s@.subrange(0, n as int) =~= s@);
    while from < n && white(s.get_char(from))
        invariant
            from <= n,
            n == s@.len(),
            trim_left(s@) == trim_left(s@.subrange(from as int, n as int)),
        decreases n - from,
    {
        assert(s@.subrange(from as int, n as int)[0] == s@[from as int]);
        assert(s@.subrange(from as int, n as int).subrange(1, n - from) =~= s@.subrange(
            from + 1,
            n as int,
        ));
        from = from + 1;
    }
    assert(trim_left(s@) == s@.subrange(from as int, n as int)) by {
        if from < n {
            assert(s@.subrange(from as int, n as int)[0] == s@[from as int]);
        }
    }
    let mut to: usize = n;
    while from < to && white(s.get_char(to - 1))
        invariant
            from <= to <= n,
            n == s@.len(),
            trim(s@) == trim_right(s@.subrange(from as int, to as int)),
        decreases to,
    {
        assert(s@.subrange(from as int, to as int).last() == s@[to - 1]);
        assert(s@.subrange(from as int, to as int).drop_last() =~= s@.subrange(
            from as int,
            to - 1,
        ));
        to = to - 1;
    }
    proof {
        if from < to {
            assert(s@.subrange(from as int, to as int).last() == s@[to - 1]);
        }
    }
    s.substring_char(from, to)
}

/// `s` without white space at either end, as a string of its own.
pub fn trimmed(s: &str) -> (r: String)
    ensures
        r@ == trim(s@),
{
    trim_str(s).to_owned()
}

/// Trimming twice is trimming once: what is left has no white space at its
/// ends.
pub proof fn law_trim_idempotent(s: Seq<char>)
    ensures
        trim(trim(s)) == trim(s),
        trim(s).len() > 0 ==> !is_white(trim(s)[0]) && !is_white(trim(s).last()),
{
    let left = trim_left(s);
    lemma_trim_left_head(s);
    lemma_trim_right_ends(left);
    let t = trim_right(left);
    assert(trim_left(t) == t);
    assert(trim_right(t) == t);
}

proof fn lemma_trim_left_head(s: Seq<char>)
    ensures
        trim_left(s).len() > 0 ==> !is_white(trim_left(s)[0]),
    decreases s.len(),
{
    if s.len() > 0 && is_white(s[0]) {
        lemma_trim_left_head(s.subrange(1, s.len() as int));
    }
}

proof fn lemma_trim_right_ends(s: Seq<char>)
    ensures
        trim_right(s).len() > 0 ==> !is_white(trim_right(s).last()) && trim_right(s)[0] == s[0],
    decreases s.len(),
{
    if s.len() > 0 && is_white(s.last()) {
        lemma_trim_right_ends(s.drop_last());
    }
}

/// Adds one base-16 digit.
pub fn push_digit(out: &mut String, d: u8)
    requires
        d < 16,
    ensures
        final(out)@ == old(out)@.push(hex_digit(d as int)),
{
    proof {
        reveal_strlit("0");
        reveal_strlit("1");
        reveal_strlit("2");
        reveal_strlit("3");
        reveal_strlit("4");
        reveal_strlit("5");
        reveal_strlit("6");
        reveal_strlit("7");
        reveal_strlit("8");
        reveal_strlit("9");
        reveal_strlit("A");
        reveal_strlit("B");
        reveal_strlit("C");
        reveal_strlit("D");
        reveal_strlit("E");
        reveal_strlit("F");
    }
    let digit: &str = match d {
        0 => "0",
        1 => "1",
        2 => "2",
        3 => "3",
        4 => "4",
        5 => "5",
        6 => "6",
        7 => "7",
        8 => "8",
        9 => "9",
        10 => "A",
        11 => "B",
        12 => "C",
        13 => "D",
        14 => "E",
        _ => "F",
    };
    assert(digit@ =~= seq![hex_digit(d as int)]);
    out.append(digit);
    assert(final(out)@ =~= old(out)@.push(hex_digit(d as int)));
}

/// Adds `n` in base 10.
pub fn push_wide_decimal(out: &mut String, n: u128)
    ensures
        final(out)@ == old(out)@ + decimal(n as nat),
    decreases n,
{
    if n < 10 {
        push_digit(out, n as u8);
        assert(final(out)@ =~= old(out)@ + decimal(n as nat));
    } else {
        push_wide_decimal(out, n / 10);
        push_digit(out, (n % 10) as u8);
        assert(final(out)@ =~= old(out)@ + decimal(n as nat));
    }
}

/// Adds `n` in base 10.
pub fn push_decimal(out: &mut String, n: u64)
    ensures
        final(out)@ == old(out)@ + decimal(n as nat),
{
    push_wide_decimal(out, n as u128);
}

/// Adds a signed number in base 10.
pub fn push_signed(out: &mut String, n: i32)
    ensures
        final(out)@ == old(out)@ + signed_decimal(n as int),
{
    if n < 0 {
        proof {
            reveal_strlit("-");
        }
        out.append("-");
        let magnitude: i64 = -(n as i64);
        push_decimal(out, magnitude as u64);
        assert("-"@ =~= seq!['-']);
        assert(final(out)@ =~= old(out)@ + signed_decimal(n as int));
    } else {
        push_decimal(out, n as u64);
    }
}

/// Adds `n` in base 16 without leading zeros.
pub fn push_hex(out: &mut String, n: u32)
    ensures
        final(out)@ == old(out)@ + hex(n as nat),
    decreases n,
{
    if n < 16 {
        push_digit(out, n as u8);
        assert(final(out)@ =~= old(out)@ + hex(n as nat));
    } else {
        push_hex(out, n / 16);
        push_digit(out, (n % 16) as u8);
        assert(final(out)@ =~= old(out)@ + hex(n as nat));
    }
}

/// Adds the last `width` base-16 digits of `n`.
pub fn push_hex_fixed(out: &mut String, n: u32, width: u8)
    ensures
        final(out)@ == old(out)@ + hex_fixed(n as nat, width as nat),
    decreases width,
{
    if width == 0 {
        assert(final(out)@ =~= old(out)@ + hex_fixed(n as nat, width as nat));
    } else {
        push_hex_fixed(out, n / 16, width - 1);
        push_digit(out, (n % 16) as u8);
        assert(final(out)@ =~= old(out)@ + hex_fixed(n as nat, width as nat));
    }
}

/// The parts one after the other, with `sep` between neighbours.
pub fn join(parts: &Vec<String>, sep: &str) -> (r: String)
    ensures
        r@ == joined(contents(parts@), sep@),
{
    let mut out = String::new();
    let mut i: usize = 0;
    while i < parts.len()
        invariant
            i <= parts@.len(),
            out@ == joined(contents(parts@.subrange(0, i as int)), sep@),
        decreases parts@.len() - i,
    {
        let ghost before = contents(parts@.subrange(0, i as int));
        let ghost after = contents(parts@.subrange(0, i + 1));
        assert(after.drop_last() =~= before);
        assert(after.last() == parts@[i as int]@);
        let ghost old_out = out@;
        if i > 0 {
            out.append(sep);
        }
        out.append(parts[i].as_str());
        assert(out@ =~= joined(after, sep@));
        i = i + 1;
    }
    assert(parts@.subrange(0, i as int) =~= parts@);
    out
}

/// Whether `s` begins with `prefix`.
pub fn starts_with(s: &str, prefix: &str) -> (r: bool)
    ensures
        r == occurs_at(s@, prefix@, 0),
{
    occurs_here(s, prefix, 0)
}

fn occurs_here(s: &str, pat: &str, at: usize) -> (r: bool)
    ensures
        r == occurs_at(s@, pat@, at as int),
{
    let n: usize = s.unicode_len();
    let m: usize = pat.unicode_len();
    if at > n || m > n - at {
        return false;
    }
    let mut i: usize = 0;
    while i < m
        invariant
            i <= m,
            m == pat@.len(),
            n == s@.len(),
            at + m <= n,
            forall|j: int| 0 <= j < i ==> s@[at + j] == pat@[j],
        decreases m - i,
    {
        if s.get_char(at + i) != pat.get_char(i) {
            assert(s@.subrange(at as int, at + m)[i as int] != pat@[i as int]);
            return false;
        }
        i = i + 1;
    }
    assert(s@.subrange(at as int, at + m) =~= pat@);
    true
}

/// Whether `pat` occurs in `s`.
pub fn contains(s: &str, pat: &str) -> (r: bool)
    ensures
        r == occurs(s@, pat@),
{
    let n: usize = s.unicode_len();
    let mut at: usize = 0;
    loop
        invariant
            at <= n,
            n == s@.len(),
            forall|j: int| 0 <= j < at ==> !#[trigger] occurs_at(s@, pat@, j),
        decreases n - at,
    {
        if occurs_here(s, pat, at) {
            assert(occurs_at(s@, pat@, at as int));
            return true;
        }
        if at == n {
            assert forall|j: int| !#[trigger] occurs_at(s@, pat@, j) by {
                if occurs_at(s@, pat@, j) {
                    assert(0 <= j <= n);
                }
            }
            return false;
        }
        at = at + 1;
    }
}

/// Whether two strings hold the same characters.
pub fn same_text(a: &str, b: &str) -> (r: bool)
    ensures
        r == (a@ == b@),
{
    let n: usize = a.unicode_len();
    if n != b.unicode_len() {
        return false;
    }
    assert(occurs_at(a@, b@, 0) == (a@ == b@)) by {
        assert(a@.subrange(0, n as int) =~= a@);
    }
    occurs_here(a, b, 0)
}

/// The code of a character, with the letters A to Z as a to z.
pub open spec fn lower_code(c: char) -> int {
    if 'A' <= c && c <= 'Z' {
        c as int + 32
    } else {
        c as int
    }
}

/// `s` in lower case has `pat` at `at`.
pub open spec fn occurs_lowered_at(s: Seq<char>, pat: Seq<char>, at: int) -> bool {
    &&& 0 <= at
    &&& at + pat.len() <= s.len()
    &&& forall|j: int| 0 <= j < pat.len() ==> lower_code(s[at + j]) == #[trigger] pat[j] as int
}

/// `pat` occurs somewhere in `s` in lower case.
pub open spec fn occurs_lowered(s: Seq<char>, pat: Seq<char>) -> bool {
    exists|at: int| #[trigger] occurs_lowered_at(s, pat, at)
}

fn lowered(c: char) -> (r: u32)
    ensures
        r == lower_code(c),
{
    if 'A' <= c && c <= 'Z' {
        c as u32 + 32
    } else {
        c as u32
    }
}

fn occurs_lowered_here(s: &str, pat: &str, at: usize) -> (r: bool)
    ensures
        r == occurs_lowered_at(s@, pat@, at as int),
{
    let n: usize = s.unicode_len();
    let m: usize = pat.unicode_len();
    if at > n || m > n - at {
        return false;
    }
    let mut i: usize = 0;
    while i < m
        invariant
            i <= m,
            m == pat@.len(),
            n == s@.len(),
            at + m <= n,
            forall|j: int| 0 <= j < i ==> lower_code(s@[at + j]) == #[trigger] pat@[j] as int,
        decreases m - i,
    {
        let p: char = pat.get_char(i);
        if lowered(s.get_char(at + i)) != p as u32 {
            assert(lower_code(s@[at + i]) != pat@[i as int] as int);
            return false;
        }
        i = i + 1;
    }
    true
}

/// Whether `pat` occurs in `s` once its letters A to Z are in lower case.
pub fn contains_lowered(s: &str, pat: &str) -> (r: bool)
    ensures
        r == occurs_lowered(s@, pat@),
{
    let n: usize = s.unicode_len();
    let mut at: usize = 0;
    loop
        invariant
            at <= n,
            n == s@.len(),
            forall|j: int| 0 <= j < at ==> !#[trigger] occurs_lowered_at(s@, pat@, j),
        decreases n - at,
    {
        if occurs_lowered_here(s, pat, at) {
            assert(occurs_lowered_at(s@, pat@, at as int));
            return true;
        }
        if at == n {
            assert forall|j: int| !#[trigger] occurs_lowered_at(s@, pat@, j) by {
                if occurs_lowered_at(s@, pat@, j) {
                    assert(0 <= j <= n);
                }
            }
            return false;
        }
        at = at + 1;
    }
}

/// Trimming cuts white space off both ends and nothing else: what is left is a
/// stretch of the text that neither begins nor ends with white space, and all
/// that was cut is white space.
pub proof fn law_trim_cuts_white_space(s: Seq<char>)
    ensures
        exists|a: int, b: int|
            {
                &&& 0 <= a <= b <= s.len()
                &&& trim(s) == #[trigger] s.subrange(a, b)
                &&& forall|i: int| 0 <= i < s.len() && !(a <= i < b) ==> is_white(#[trigger] s[i])
                &&& a < b ==> !is_white(s[a]) && !is_white(s[b - 1])
            },
{
    let a = lemma_trim_left_part(s);
    let left = s.subrange(a, s.len() as int);
    let n = lemma_trim_right_part(left);
    assert(left.subrange(0, n) =~= s.subrange(a, a + n));
    assert forall|i: int| 0 <= i < s.len() && !(a <= i < a + n) implies is_white(#[trigger] s[i]) by {
        if i >= a {
            assert(left[i - a] == s[i]);
        }
    }
    if n > 0 {
        lemma_trim_left_head(s);
        assert(left[0] == s[a]);
        assert(left[n - 1] == s[a + n - 1]);
    }
}

proof fn lemma_trim_left_part(s: Seq<char>) -> (a: int)
    ensures
        0 <= a <= s.len(),
        trim_left(s) == s.subrange(a, s.len() as int),
        forall|i: int| 0 <= i < a ==> is_white(#[trigger] s[i]),
    decreases s.len(),
{
    if s.len() > 0 && is_white(s[0]) {
        let rest = s.subrange(1, s.len() as int);
        let a = lemma_trim_left_part(rest);
        assert(rest.subrange(a, rest.len() as int) =~= s.subrange(a + 1, s.len() as int));
        assert forall|i: int| 0 <= i < a + 1 implies is_white(#[trigger] s[i]) by {
            if i > 0 {
                assert(rest[i - 1] == s[i]);
            }
        }
        a + 1
    } else {
        assert(s.subrange(0, s.len() as int) =~= s);
        0
    }
}

proof fn lemma_trim_right_part(s: Seq<char>) -> (n: int)
    ensures
        0 <= n <= s.len(),
        trim_right(s) == s.subrange(0, n),
        forall|i: int| n <= i < s.len() ==> is_white(#[trigger] s[i]),
        n > 0 ==> !is_white(s[n - 1]),
    decreases s.len(),
{
    if s.len() > 0 && is_white(s.last()) {
        let n = lemma_trim_right_part(s.drop_last());
        assert(s.drop_last().subrange(0, n) =~= s.subrange(0, n));
        assert forall|i: int| n <= i < s.len() implies is_white(#[trigger] s[i]) by {
            if i < s.len() - 1 {
                assert(s.drop_last()[i] == s[i]);
            }
        }
        n
    } else {
        assert(s.subrange(0, s.len() as int) =~= s);
        s.len() as int
    }
}

/// White space by its code points.
pub proof fn law_white_space(c: char)
    ensures
        is_white(c) <==> {
            let n = c as u32;
            ||| n == 0x09 || n == 0x0a || n == 0x0b || n == 0x0c || n == 0x0d || n == 0x20
            ||| n == 0x85 || n == 0xa0 || n == 0x1680 || (n >= 0x2000 && n <= 0x200a)
            ||| n == 0x2028 || n == 0x2029 || n == 0x202f || n == 0x205f || n == 0x3000
        },
{
}

/// The value of a digit in base 16.
pub open spec fn digit_value(c: char) -> int {
    if '0' <= c <= '9' {
        c as int - '0' as int
    } else {
        c as int - 'A' as int + 10
    }
}

/// The number that some digits stand for.
pub open spec fn digits_value(s: Seq<char>, base: int) -> int
    decreases s.len(),
{
    if s.len() == 0 {
        0
    } else {
        digits_value(s.drop_last(), base) * base + digit_value(s.last())
    }
}

proof fn lemma_digit(d: int)
    requires
        0 <= d < 16,
    ensures
        digit_value(hex_digit(d)) == d,
{
}

/// A number that is written down reads as that number, without a needless zero
/// in front.
pub proof fn law_decimal_reads_back(n: nat)
    ensures
        digits_value(decimal(n), 10) == n,
        decimal(n).len() > 0,
        n > 0 ==> decimal(n)[0] != '0',
        n == 0 ==> decimal(n).len() == 1,
        forall|i: int| 0 <= i < decimal(n).len() ==> '0' <= #[trigger] decimal(n)[i] <= '9',
    decreases n,
{
    lemma_digit((n % 10) as int);
    if n < 10 {
        lemma_digit(n as int);
        assert(decimal(n).drop_last().len() == 0);
        assert(digits_value(decimal(n).drop_last(), 10) == 0);
    } else {
        law_decimal_reads_back(n / 10);
        assert(decimal(n).drop_last() =~= decimal(n / 10));
    }
}

/// The sign comes first, and only where the number is below zero.
pub proof fn law_signed_reads_back(n: int)
    ensures
        n >= 0 ==> digits_value(signed_decimal(n), 10) == n && signed_decimal(n)[0] != '-',
        n < 0 ==> signed_decimal(n)[0] == '-' && digits_value(
            signed_decimal(n).subrange(1, signed_decimal(n).len() as int),
            10,
        ) == -n,
{
    if n >= 0 {
        law_decimal_reads_back(n as nat);
    } else {
        law_decimal_reads_back((-n) as nat);
        assert(signed_decimal(n).subrange(1, signed_decimal(n).len() as int) =~= decimal(
            (-n) as nat,
        ));
    }
}

/// The same in base 16.
pub proof fn law_hex_reads_back(n: nat)
    ensures
        digits_value(hex(n), 16) == n,
        hex(n).len() > 0,
        n > 0 ==> hex(n)[0] != '0',
        n == 0 ==> hex(n).len() == 1,
    decreases n,
{
    lemma_digit((n % 16) as int);
    if n < 16 {
        lemma_digit(n as int);
        assert(hex(n).drop_last().len() == 0);
        assert(digits_value(hex(n).drop_last(), 16) == 0);
    } else {
        law_hex_reads_back(n / 16);
        assert(hex(n).drop_last() =~= hex(n / 16));
    }
}

/// In eight digits of base 16 every number of 32 bits reads back, and in two
/// every byte.
pub proof fn law_hex_fixed_reads_back(n: nat)
    ensures
        n < 0x1_0000_0000 ==> digits_value(hex_fixed(n, 8), 16) == n && hex_fixed(n, 8).len() == 8,
        n < 0x100 ==> digits_value(hex_fixed(n, 2), 16) == n && hex_fixed(n, 2).len() == 2,
{
    lemma_hex_fixed(n, 8);
    lemma_hex_fixed(n, 2);
    assert(vstd::arithmetic::power::pow(16, 8) == 0x1_0000_0000) by {
        reveal_with_fuel(vstd::arithmetic::power::pow, 9);
    }
    assert(vstd::arithmetic::power::pow(16, 2) == 0x100) by {
        reveal_with_fuel(vstd::arithmetic::power::pow, 3);
    }
}

proof fn lemma_hex_fixed(n: nat, width: nat)
    ensures
        hex_fixed(n, width).len() == width,
        n < vstd::arithmetic::power::pow(16, width) ==> digits_value(hex_fixed(n, width), 16) == n,
    decreases width,
{
    reveal(vstd::arithmetic::power::pow);
    if width > 0 {
        lemma_digit((n % 16) as int);
        lemma_hex_fixed(n / 16, (width - 1) as nat);
        assert(hex_fixed(n, width).drop_last() =~= hex_fixed(n / 16, (width - 1) as nat));
        let rest = vstd::arithmetic::power::pow(16, (width - 1) as nat);
        assert(vstd::arithmetic::power::pow(16, width) == 16 * rest);
    }
}

/// Joining puts the parts in their order, with the separator between each two
/// and nowhere else.
pub proof fn law_joined(parts: Seq<Seq<char>>, last: Seq<char>, sep: Seq<char>)
    ensures
        joined(seq![], sep) == Seq::<char>::empty(),
        joined(seq![last], sep) == last,
        parts.len() > 0 ==> joined(parts.push(last), sep) == joined(parts, sep) + sep + last,
{
    assert(parts.push(last).drop_last() =~= parts);
}

/// A pattern occurs in a text where the text reads as it does, character by
/// character.
pub proof fn law_occurs(s: Seq<char>, pat: Seq<char>)
    ensures
        occurs(s, pat) <==> exists|before: Seq<char>, after: Seq<char>|
            s == #[trigger] (before + pat + after),
        occurs_at(s, pat, 0) <==> s.len() >= pat.len() && forall|i: int|
            0 <= i < pat.len() ==> s[i] == pat[i],
{
    if occurs(s, pat) {
        let at = choose|at: int| #[trigger] occurs_at(s, pat, at);
        let before = s.subrange(0, at);
        let after = s.subrange(at + pat.len(), s.len() as int);
        assert(s.subrange(at, at + pat.len()) == pat);
        assert(s =~= before + pat + after) by {
            assert forall|i: int| at <= i < at + pat.len() implies s[i] == pat[i - at] by {
                assert(s.subrange(at, at + pat.len())[i - at] == s[i]);
            }
        }
    }
    if exists|before: Seq<char>, after: Seq<char>| s == #[trigger] (before + pat + after) {
        let (before, after) = choose|before: Seq<char>, after: Seq<char>|
            s == #[trigger] (before + pat + after);
        assert(s.subrange(before.len() as int, before.len() as int + pat.len()) =~= pat);
        assert(occurs_at(s, pat, before.len() as int));
    }
    if occurs_at(s, pat, 0) {
        assert forall|i: int| 0 <= i < pat.len() implies s[i] == pat[i] by {
            assert(s.subrange(0, pat.len() as int)[i] == s[i]);
        }
    }
    if s.len() >= pat.len() && forall|i: int| 0 <= i < pat.len() ==> s[i] == pat[i] {
        assert(s.subrange(0, pat.len() as int) =~= pat);
    }
}

/// Letters of the alphabet are found whether they are written large or small,
/// and every other character as it is.
pub proof fn law_occurs_lowered(s: Seq<char>, pat: Seq<char>, at: int)
    ensures
        occurs_lowered_at(s, pat, at) <==> 0 <= at && at + pat.len() <= s.len() && forall|j: int|
            0 <= j < pat.len() ==> {
                let c = s[at + j] as int;
                let p = #[trigger] pat[j] as int;
                if 65 <= c <= 90 {
                    p == c + 32
                } else {
                    p == c
                }
            },
{
}

} // verus!
