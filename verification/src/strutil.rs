//! String facts the pipeline rests on: case folding (through the standard
//! library), decimal parsing and printing of identifiers, and the filename
//! tests that select archive and table files.

use vstd::prelude::*;
use vstd::string::*;

verus! {

/// What `str::to_lowercase` returns for a given character sequence; the
/// result depends on the characters alone.
pub uninterp spec fn lower_of(s: Seq<char>) -> Seq<char>;

/// Relies on `str::to_lowercase`: the lowercase mapping of the input,
/// a function of the characters alone.
#[verifier::external_body]
pub(crate) fn lowercase(s: &str) -> (r: String)
    ensures
        r@ == lower_of(s@),
{
    s.to_lowercase()
}

/// A decimal digit.
pub open spec fn is_digit(c: char) -> bool {
    '0' <= c && c <= '9'
}

pub open spec fn digit_val(c: char) -> int {
    c as int - '0' as int
}

pub open spec fn all_digits(s: Seq<char>) -> bool {
    forall|i: int| 0 <= i < s.len() ==> is_digit(#[trigger] s[i])
}

/// The value of a digit string read in base ten.
pub open spec fn digits_val(s: Seq<char>) -> int
    decreases s.len(),
{
    if s.len() == 0 {
        0
    } else {
        digits_val(s.drop_last()) * 10 + digit_val(s.last())
    }
}

/// What `str::parse::<i32>` accepts and returns: an optional sign followed by
/// one or more digits, valued in base ten, rejected outside `i32`'s range.
pub open spec fn spec_parse_i32(s: Seq<char>) -> Option<i32> {
    let signed = s.len() > 0 && (s[0] == '+' || s[0] == '-');
    let body = if signed {
        s.drop_first()
    } else {
        s
    };
    let neg = s.len() > 0 && s[0] == '-';
    if body.len() == 0 || !all_digits(body) {
        None
    } else {
        let v = if neg {
            -digits_val(body)
        } else {
            digits_val(body)
        };
        if i32::MIN <= v <= i32::MAX {
            Some(v as i32)
        } else {
            None
        }
    }
}

proof fn lemma_digits_val_nonneg(s: Seq<char>)
    requires
        all_digits(s),
    ensures
        digits_val(s) >= 0,
    decreases s.len(),
{
    if s.len() > 0 {
        assert(all_digits(s.drop_last()));
        lemma_digits_val_nonneg(s.drop_last());
    }
}

/// A digit string is at least as large as any of its prefixes.
proof fn lemma_digits_val_prefix(s: Seq<char>, k: int)
    requires
        all_digits(s),
        0 <= k <= s.len(),
    ensures
        digits_val(s) >= digits_val(s.take(k)),
    decreases s.len() - k,
{
    if k < s.len() {
        lemma_digits_val_prefix(s, k + 1);
        let t = s.take(k + 1);
        assert(t.drop_last() =~= s.take(k));
        assert(all_digits(s.take(k)));
        lemma_digits_val_nonneg(s.take(k));
        assert(digits_val(t) == digits_val(s.take(k)) * 10 + digit_val(t.last()));
        assert(digit_val(t.last()) >= 0);
        assert(digits_val(s.take(k)) * 10 >= digits_val(s.take(k))) by (nonlinear_arith)
            requires
                digits_val(s.take(k)) >= 0,
        ;
    } else {
        assert(s.take(k) =~= s);
    }
}

/// Parse a decimal integer exactly as `str::parse::<i32>` does.
pub fn parse_i32(s: &str) -> (r: Option<i32>)
    ensures
        r == spec_parse_i32(s@),
{
    let n = s.unicode_len();
    let ghost sq = s@;
    let mut start: usize = 0;
    let mut neg = false;
    if n > 0 {
        let c0 = s.get_char(0);
        if c0 == '+' {
            start = 1;
        } else if c0 == '-' {
            start = 1;
            neg = true;
        }
    }
    let ghost body = if start == 1 {
        sq.drop_first()
    } else {
        sq
    };
    assert(body.len() == n - start);
    if start == n {
        assert(body.len() == 0);
        return None;
    }
    let mut mag: u64 = 0;
    let mut i: usize = start;
    while i < n
        invariant
            start <= i <= n,
            n == s@.len(),
            start <= 1,
            (start == 1) <==> (s@.len() > 0 && (s@[0] == '+' || s@[0] == '-')),
            neg <==> (s@.len() > 0 && s@[0] == '-'),
            start == 1 ==> body =~= s@.drop_first(),
            start == 0 ==> body =~= s@,
            body.len() == n - start,
            forall|j: int| 0 <= j < i - start ==> is_digit(#[trigger] body[j]),
            mag == digits_val(body.take(i - start)),
            mag <= 0x8000_0000u64,
        decreases n - i,
    {
        let c = s.get_char(i);
        assert(c == body[i - start]);
        if c < '0' || c > '9' {
            return None;
        }
        let d: u64 = (c as u32 as u64) - ('0' as u32 as u64);
        assert(d == digit_val(body[i - start]));
        let next: u64 = mag * 10 + d;
        proof {
            assert(body.take(i + 1 - start).drop_last() =~= body.take(i - start));
            assert(digits_val(body.take(i + 1 - start)) == mag * 10 + d);
        }
        if next > 0x8000_0000u64 {
            proof {
                let k = i + 1 - start;
                if all_digits(body) {
                    lemma_digits_val_prefix(body, k);
                    assert(digits_val(body) >= next);
                }
            }
            return None;
        }
        mag = next;
        i = i + 1;
    }
    proof {
        assert(body.take(n - start) =~= body);
        assert(mag == digits_val(body));
        assert(all_digits(body));
    }
    if neg {
        if mag == 0x8000_0000u64 {
            Some(i32::MIN)
        } else {
            Some(-(mag as i32))
        }
    } else {
        if mag <= 0x7FFF_FFFFu64 {
            Some(mag as i32)
        } else {
            None
        }
    }
}

/// Character-for-character string equality.
pub fn str_eq(a: &str, b: &str) -> (r: bool)
    ensures
        r == (a@ == b@),
{
    let na = a.unicode_len();
    let nb = b.unicode_len();
    if na != nb {
        return false;
    }
    let mut i: usize = 0;
    while i < na
        invariant
            0 <= i <= na,
            na == a@.len(),
            na == b@.len(),
            forall|j: int| 0 <= j < i ==> a@[j] == b@[j],
        decreases na - i,
    {
        if a.get_char(i) != b.get_char(i) {
            return false;
        }
        i = i + 1;
    }
    proof {
        assert(a@ =~= b@);
    }
    true
}

/// Copy a vector of strings, element for element.
pub fn clone_string_vec(v: &Vec<String>) -> (r: Vec<String>)
    ensures
        r@ == v@,
{
    let mut out: Vec<String> = Vec::new();
    let n = v.len();
    let mut i: usize = 0;
    while i < n
        invariant
            0 <= i <= n,
            n == v@.len(),
            out@ =~= v@.take(i as int),
        decreases n - i,
    {
        out.push(v[i].clone());
        proof {
            assert(out@ =~= v@.take(i + 1));
        }
        i = i + 1;
    }
    proof {
        assert(v@.take(n as int) =~= v@);
    }
    out
}

pub open spec fn spec_digit_char(d: int) -> char {
    (d + '0' as int) as char
}

/// The decimal digit string of a nonnegative number.
pub open spec fn spec_nat_string(n: int) -> Seq<char>
    recommends
        n >= 0,
    decreases n,
{
    if n < 10 {
        seq![spec_digit_char(n)]
    } else {
        spec_nat_string(n / 10).push(spec_digit_char(n % 10))
    }
}

/// The canonical decimal string of an integer, as `i32::to_string` writes it.
pub open spec fn spec_i32_string(n: int) -> Seq<char> {
    if n < 0 {
        seq!['-'] + spec_nat_string(-n)
    } else {
        spec_nat_string(n)
    }
}

fn digit_str(d: u64) -> (r: &'static str)
    requires
        d < 10,
    ensures
        r@ =~= seq![spec_digit_char(d as int)],
{
    proof {
        reveal_strlit("0");
        reveal_strlit("1");
        reveal_strlit("2");
        reveal_strlit("3");
        reveal_strlit("4");
        reveal_strlit("5");
        reveal_strlit("6");
        reveal_strlit("7");
        reveal_strlit("8");
        reveal_strlit("9");
    }
    match d {
        0 => "0",
        1 => "1",
        2 => "2",
        3 => "3",
        4 => "4",
        5 => "5",
        6 => "6",
        7 => "7",
        8 => "8",
        _ => "9",
    }
}

/// The reversal of a digit vector, read as characters.
spec fn rev_chars(digs: Seq<u64>) -> Seq<char> {
    Seq::new(digs.len(), |i: int| spec_digit_char(digs[digs.len() - 1 - i] as int))
}

/// Print an integer in decimal, exactly as `i32::to_string` does.
pub fn i32_to_string(n: i32) -> (r: String)
    ensures
        r@ == spec_i32_string(n as int),
{
    let ghost orig: int = if n < 0 {
        -(n as int)
    } else {
        n as int
    };
    let mut m: u64 = if n < 0 {
        (-(n as i64)) as u64
    } else {
        n as u64
    };
    assert(m == orig);
    let mut digs: Vec<u64> = Vec::new();
    loop
        invariant_except_break
            m == 0 ==> digs@.len() == 0 && orig == 0,
            m > 0 ==> spec_nat_string(orig) =~= spec_nat_string(m as int) + rev_chars(digs@),
        invariant
            orig >= 0,
            forall|j: int| 0 <= j < digs@.len() ==> #[trigger] digs@[j] < 10,
        ensures
            digs@.len() > 0,
            spec_nat_string(orig) =~= rev_chars(digs@),
            forall|j: int| 0 <= j < digs@.len() ==> #[trigger] digs@[j] < 10,
        decreases m,
    {
        let d: u64 = m % 10;
        let m2: u64 = m / 10;
        proof {
            if m2 > 0 {
                assert(m >= 10);
                assert(spec_nat_string(m as int) == spec_nat_string(m2 as int).push(
                    spec_digit_char(d as int),
                ));
                assert(spec_nat_string(m2 as int) + rev_chars(digs@.push(d)) =~= spec_nat_string(
                    m as int,
                ) + rev_chars(digs@));
            } else {
                assert(m < 10);
                assert(spec_nat_string(m as int) =~= seq![spec_digit_char(d as int)]);
                assert(rev_chars(digs@.push(d)) =~= spec_nat_string(m as int) + rev_chars(digs@));
            }
        }
        digs.push(d);
        m = m2;
        if m == 0 {
            break;
        }
    }
    let mut out: String = if n < 0 {
        proof {
            reveal_strlit("-");
        }
        String::from_str("-")
    } else {
        String::new()
    };
    let ghost sign: Seq<char> = if n < 0 {
        seq!['-']
    } else {
        Seq::empty()
    };
    assert(out@ =~= sign);
    let total = digs.len();
    let mut count: usize = 0;
    while count < total
        invariant
            0 <= count <= total,
            total == digs@.len(),
            forall|j: int| 0 <= j < digs@.len() ==> #[trigger] digs@[j] < 10,
            out@ =~= sign + rev_chars(digs@).take(count as int),
        decreases total - count,
    {
        let idx = total - 1 - count;
        let d = digs[idx];
        let piece = digit_str(d);
        proof {
            assert(rev_chars(digs@).take(count + 1) =~= rev_chars(digs@).take(count as int) + seq![
                spec_digit_char(digs@[total - 1 - count] as int),
            ]);
        }
        out.append(piece);
        count = count + 1;
    }
    proof {
        assert(rev_chars(digs@).take(total as int) =~= rev_chars(digs@));
        assert(spec_nat_string(orig) =~= rev_chars(digs@));
        if n < 0 {
            assert(out@ =~= spec_i32_string(n as int));
        } else {
            assert(sign =~= Seq::<char>::empty());
            assert(out@ =~= spec_i32_string(n as int));
        }
    }
    out
}

} // verus!
