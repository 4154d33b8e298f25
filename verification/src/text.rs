//! Small verified text utilities: decimal numbers and line splitting.

use vstd::prelude::*;
use vstd::string::*;

verus! {

/// A decimal digit.
pub open spec fn is_digit(c: char) -> bool {
    '0' <= c && c <= '9'
}

/// Numeric value of one digit character.
pub open spec fn digit_val(c: char) -> int {
    c as int - '0' as int
}

/// The digit character for a value in 0..9.
pub open spec fn digit_char(d: int) -> char {
    if d == 0 {
        '0'
    } else if d == 1 {
        '1'
    } else if d == 2 {
        '2'
    } else if d == 3 {
        '3'
    } else if d == 4 {
        '4'
    } else if d == 5 {
        '5'
    } else if d == 6 {
        '6'
    } else if d == 7 {
        '7'
    } else if d == 8 {
        '8'
    } else {
        '9'
    }
}

pub open spec fn all_digits(s: Seq<char>) -> bool {
    forall|i: int| 0 <= i < s.len() ==> is_digit(#[trigger] s[i])
}

/// Value of a digit string read as a decimal number.
pub open spec fn dec_val(s: Seq<char>) -> int
    decreases s.len(),
{
    if s.len() == 0 {
        0
    } else {
        dec_val(s.drop_last()) * 10 + digit_val(s.last())
    }
}

/// Canonical decimal rendering of a non-negative number (no leading zeros).
pub open spec fn dec_str(n: int) -> Seq<char>
    decreases n,
{
    if n < 10 {
        seq![digit_char(n)]
    } else {
        dec_str(n / 10).push(digit_char(n % 10))
    }
}

pub proof fn lemma_dec_val_nonneg(s: Seq<char>)
    requires
        all_digits(s),
    ensures
        dec_val(s) >= 0,
    decreases s.len(),
{
    if s.len() > 0 {
        assert(all_digits(s.drop_last())) by {
            assert(forall|i: int|
                0 <= i < s.drop_last().len() ==> s.drop_last()[i] == s[i]);
        }
        lemma_dec_val_nonneg(s.drop_last());
    }
}

/// Extending a digit string with more digits never shrinks its value.
pub proof fn lemma_dec_val_prefix(s: Seq<char>, i: int)
    requires
        all_digits(s),
        0 <= i <= s.len(),
    ensures
        dec_val(s) >= dec_val(s.take(i)),
    decreases s.len() - i,
{
    if i < s.len() {
        assert(all_digits(s.take(i + 1))) by {
            assert(forall|j: int|
                0 <= j < s.take(i + 1).len() ==> s.take(i + 1)[j] == s[j]);
        }
        assert(s.take(i + 1).drop_last() =~= s.take(i));
        assert(s.take(i + 1).last() == s[i]);
        lemma_dec_val_nonneg(s.take(i));
        assert(dec_val(s.take(i + 1)) == dec_val(s.take(i)) * 10 + digit_val(s[i]));
        lemma_dec_val_prefix(s, i + 1);
    } else {
        assert(s.take(i) =~= s);
    }
}

/// Parse a decimal string into a 16-bit number: every character a digit and
/// the value at most 65535. Rejects the empty string, any non-digit, overflow.
pub fn parse_u16(s: &str) -> (r: Option<u16>)
    ensures
        r is Some <==> s@.len() > 0 && all_digits(s@) && dec_val(s@) <= 65535,
        r is Some ==> r->Some_0 as int == dec_val(s@),
{
    let n = s.unicode_len();
    if n == 0 {
        return None;
    }
    let mut acc: u32 = 0;
    let mut i: usize = 0;
    while i < n
        invariant
            0 < n == s@.len(),
            0 <= i <= n,
            all_digits(s@.take(i as int)),
            acc as int == dec_val(s@.take(i as int)),
            acc <= 65535,
        decreases n - i,
    {
        let c = s.get_char(i);
        if !('0' <= c && c <= '9') {
            assert(!all_digits(s@)) by {
                assert(s@[i as int] == c);
            }
            return None;
        }
        let d: u32 = c as u32 - 48;
        assert(d == digit_val(c)) by {
            assert('0' as u32 == 48);
        }
        proof {
            assert(s@.take(i + 1).drop_last() =~= s@.take(i as int));
            assert(s@.take(i + 1).last() == c);
            assert(forall|j: int|
                0 <= j < s@.take(i + 1).len() ==> s@.take(i + 1)[j] == s@[j]);
        }
        let next: u32 = acc * 10 + d;
        if next > 65535 {
            proof {
                assert(dec_val(s@.take(i + 1)) > 65535);
                if all_digits(s@) {
                    lemma_dec_val_prefix(s@, i + 1);
                }
            }
            return None;
        }
        acc = next;
        i = i + 1;
    }
    proof {
        assert(s@.take(n as int) =~= s@);
    }
    Some(acc as u16)
}

/// Parse a decimal port string: every character a digit, value in 1..=65535.
/// Rejects the empty string, any non-digit, the value zero, and overflow.
pub fn parse_port_number(s: &str) -> (r: Option<u16>)
    ensures
        r is Some <==> s@.len() > 0 && all_digits(s@) && 1 <= dec_val(s@) <= 65535,
        r is Some ==> r->Some_0 as int == dec_val(s@),
{
    match parse_u16(s) {
        Some(v) => if v > 0 { Some(v) } else { None },
        None => None,
    }
}

/// Character-for-character equality of two string slices.
pub fn str_eq(a: &str, b: &str) -> (r: bool)
    ensures
        r == (a@ == b@),
{
    let na: usize = a.unicode_len();
    let nb: usize = b.unicode_len();
    if na != nb {
        return false;
    }
    let mut i: usize = 0;
    while i < na
        invariant
            0 <= i <= na == a@.len(),
            na == nb == b@.len(),
            forall|k: int| 0 <= k < i ==> a@[k] == b@[k],
        decreases na - i,
    {
        if a.get_char(i) != b.get_char(i) {
            return false;
        }
        i = i + 1;
    }
    proof {
        assert(a@ =~= b@);
    }
    true
}

/// Whitespace recognized when a member line is trimmed.
pub open spec fn is_space(c: char) -> bool {
    c == ' ' || c == '\t' || c == '\r' || c == '\n'
}

/// The input with trailing whitespace removed.
pub open spec fn trim_end_spec(s: Seq<char>) -> Seq<char>
    decreases s.len(),
{
    if s.len() > 0 && is_space(s.last()) {
        trim_end_spec(s.drop_last())
    } else {
        s
    }
}

/// The input with leading whitespace removed.
pub open spec fn trim_start_spec(s: Seq<char>) -> Seq<char>
    decreases s.len(),
{
    if s.len() > 0 && is_space(s[0]) {
        trim_start_spec(s.drop_first())
    } else {
        s
    }
}

/// The input with surrounding whitespace removed.
pub open spec fn trim_spec(s: Seq<char>) -> Seq<char> {
    trim_start_spec(trim_end_spec(s))
}

/// Remove surrounding whitespace.
pub fn trim(s: &str) -> (r: &str)
    ensures
        r@ == trim_spec(s@),
{
    let n: usize = s.unicode_len();
    let mut b: usize = n;
    proof {
        assert(s@.take(n as int) =~= s@);
    }
    loop
        invariant
            0 <= b <= n == s@.len(),
            trim_end_spec(s@) == trim_end_spec(s@.take(b as int)),
        ensures
            0 <= b <= n,
            trim_end_spec(s@) == s@.take(b as int),
        decreases b,
    {
        if b == 0 {
            proof {
                assert(s@.take(0) =~= Seq::<char>::empty());
            }
            break;
        }
        let c = s.get_char(b - 1);
        proof {
            assert(s@.take(b as int).last() == s@[b - 1]);
        }
        if !(c == ' ' || c == '\t' || c == '\r' || c == '\n') {
            break;
        }
        proof {
            assert(s@.take(b as int).drop_last() =~= s@.take(b - 1));
        }
        b = b - 1;
    }
    let ghost t = s@.take(b as int);
    let mut a: usize = 0;
    proof {
        assert(t.skip(0) =~= t);
    }
    loop
        invariant
            0 <= a <= b <= n == s@.len(),
            t == s@.take(b as int),
            trim_start_spec(t) == trim_start_spec(t.skip(a as int)),
        ensures
            0 <= a <= b,
            trim_start_spec(t) == t.skip(a as int),
        decreases b - a,
    {
        if a == b {
            proof {
                assert(t.skip(a as int) =~= Seq::<char>::empty());
            }
            break;
        }
        let c = s.get_char(a);
        proof {
            assert(t.skip(a as int)[0] == s@[a as int]);
        }
        if !(c == ' ' || c == '\t' || c == '\r' || c == '\n') {
            break;
        }
        proof {
            assert(t.skip(a as int).drop_first() =~= t.skip(a + 1));
        }
        a = a + 1;
    }
    proof {
        assert(t.skip(a as int) =~= s@.subrange(a as int, b as int));
    }
    s.substring_char(a, b)
}

/// Index of the first occurrence of a character, or -1 if there is none.
pub open spec fn first_index(s: Seq<char>, c: char) -> int
    decreases s.len(),
{
    if s.len() == 0 {
        -1
    } else if s[0] == c {
        0
    } else {
        let r = first_index(s.drop_first(), c);
        if r < 0 {
            -1
        } else {
            r + 1
        }
    }
}

pub proof fn lemma_first_index(s: Seq<char>, c: char, k: int)
    requires
        0 <= k <= s.len(),
        forall|j: int| 0 <= j < k ==> s[j] != c,
        k == s.len() || s[k] == c,
    ensures
        first_index(s, c) == if k == s.len() { -1int } else { k },
    decreases s.len(),
{
    if s.len() > 0 && k > 0 {
        assert(s.drop_first().len() == s.len() - 1);
        assert(forall|j: int| 0 <= j < k - 1 ==> s.drop_first()[j] == s[j + 1]);
        if k < s.len() {
            assert(s.drop_first()[k - 1] == s[k]);
        }
        lemma_first_index(s.drop_first(), c, k - 1);
    }
}

/// A line terminator's carriage return, removed.
pub open spec fn strip_cr(s: Seq<char>) -> Seq<char> {
    if s.len() > 0 && s.last() == '\r' {
        s.drop_last()
    } else {
        s
    }
}

/// The lines of a text, in the manner of `str::lines`: terminators are `\n`
/// or `\r\n`, and a final terminator does not open an extra empty line.
pub open spec fn lines_of(s: Seq<char>) -> Seq<Seq<char>>
    decreases s.len(),
{
    if s.len() == 0 {
        seq![]
    } else {
        let i = first_index(s, '\n');
        if 0 <= i < s.len() {
            seq![strip_cr(s.take(i))] + lines_of(s.skip(i + 1))
        } else {
            seq![s]
        }
    }
}

/// Split a text into its lines.
pub fn split_lines(s: &str) -> (r: Vec<String>)
    ensures
        r.deep_view() == lines_of(s@),
{
    let n: usize = s.unicode_len();
    let mut out: Vec<String> = Vec::new();
    let mut start: usize = 0;
    let mut i: usize = 0;
    proof {
        assert(out.deep_view() =~= Seq::<Seq<char>>::empty());
        assert(s@.skip(0) =~= s@);
    }
    while i < n
        invariant
            0 <= start <= i <= n == s@.len(),
            forall|j: int| start <= j < i ==> s@[j] != '\n',
            lines_of(s@) == out.deep_view() + lines_of(s@.skip(start as int)),
        decreases n - i,
    {
        let c = s.get_char(i);
        if c == '\n' {
            let mut end: usize = i;
            if end > start && s.get_char(end - 1) == '\r' {
                end = end - 1;
            }
            let line = String::from_str(s.substring_char(start, end));
            proof {
                let rest = s@.skip(start as int);
                assert(forall|j: int| 0 <= j < i - start ==> rest[j] == s@[j + start]);
                assert(rest[i - start] == s@[i as int]);
                lemma_first_index(rest, '\n', i - start);
                assert(rest.take(i - start) =~= s@.subrange(start as int, i as int));
                assert(strip_cr(rest.take(i - start)) =~= s@.subrange(
                    start as int,
                    end as int,
                ));
                assert(rest.skip(i - start + 1) =~= s@.skip(i + 1));
                assert(lines_of(rest) == seq![strip_cr(rest.take(i - start))] + lines_of(
                    s@.skip(i + 1),
                ));
            }
            let ghost prev = out.deep_view();
            out.push(line);
            proof {
                assert(out.deep_view() =~= prev.push(line@));
                assert(out.deep_view() + lines_of(s@.skip(i + 1)) =~= prev + lines_of(
                    s@.skip(start as int),
                ));
            }
            start = i + 1;
        }
        i = i + 1;
    }
    if start < n {
        let line = String::from_str(s.substring_char(start, n));
        proof {
            let rest = s@.skip(start as int);
            assert(forall|j: int| 0 <= j < n - start ==> rest[j] == s@[j + start]);
            lemma_first_index(rest, '\n', n - start);
            assert(rest =~= s@.subrange(start as int, n as int));
            assert(lines_of(rest) == seq![rest]);
            assert(line@ == rest);
        }
        let ghost prev = out.deep_view();
        out.push(line);
        proof {
            assert(out.deep_view() =~= prev.push(line@));
            assert(out.deep_view() =~= prev + lines_of(s@.skip(start as int)));
        }
    } else {
        proof {
            assert(s@.skip(start as int) =~= Seq::<char>::empty());
        }
    }
    proof {
        assert(out.deep_view() =~= lines_of(s@));
    }
    out
}

/// The subsequence of non-empty entries, in order.
pub open spec fn keep_non_empty(ls: Seq<Seq<char>>) -> Seq<Seq<char>>
    decreases ls.len(),
{
    if ls.len() == 0 {
        seq![]
    } else {
        keep_non_empty(ls.drop_last()) + (if ls.last().len() > 0 {
            seq![ls.last()]
        } else {
            seq![]
        })
    }
}

/// The lines that carry content: line splitting followed by dropping empties.
pub open spec fn non_empty_lines(s: Seq<char>) -> Seq<Seq<char>> {
    keep_non_empty(lines_of(s))
}

/// The digit character for a value in 0..9, as a one-character string slice.
fn digit_str(d: u16) -> (r: &'static str)
    requires
        d < 10,
    ensures
        r@ =~= seq![digit_char(d as int)],
{
    proof {
        reveal_strlit("0");
        reveal_strlit("1");
        reveal_strlit("2");
        reveal_strlit("3");
        reveal_strlit("4");
        reveal_strlit("5");
        reveal_strlit("6");
        reveal_strlit("7");
        reveal_strlit("8");
        reveal_strlit("9");
    }
    match d {
        0 => "0",
        1 => "1",
        2 => "2",
        3 => "3",
        4 => "4",
        5 => "5",
        6 => "6",
        7 => "7",
        8 => "8",
        _ => "9",
    }
}

/// Render a number as its canonical decimal string.
pub fn u16_to_dec_string(n: u16) -> (r: String)
    ensures
        r@ == dec_str(n as int),
    decreases n,
{
    if n < 10 {
        let mut s = String::new();
        s.append(digit_str(n));
        assert(s@ =~= dec_str(n as int));
        s
    } else {
        let mut s = u16_to_dec_string(n / 10);
        s.append(digit_str(n % 10));
        assert(s@ =~= dec_str(n as int));
        s
    }
}

} // verus!
