//! Decimal rendering and parsing of 32-bit ids, the number form used in
//! snapshot lines, with a proof that parsing undoes rendering.

use vstd::prelude::*;

verus! {

/// Is `c` a decimal digit?
pub open spec fn is_digit(c: char) -> bool {
    '0' as int <= c as int <= '9' as int
}

/// The numeric value of a digit character.
pub open spec fn digit_val(c: char) -> int {
    c as int - '0' as int
}

/// The digit character of a value below ten.
pub open spec fn digit_char(d: int) -> char {
    if d == 0 {
        '0'
    } else if d == 1 {
        '1'
    } else if d == 2 {
        '2'
    } else if d == 3 {
        '3'
    } else if d == 4 {
        '4'
    } else if d == 5 {
        '5'
    } else if d == 6 {
        '6'
    } else if d == 7 {
        '7'
    } else if d == 8 {
        '8'
    } else {
        '9'
    }
}

/// The canonical decimal rendering of `n`: no sign, no leading zero
/// (except for the single digit of 0 itself).
pub open spec fn dec_digits(n: nat) -> Seq<char>
    decreases n,
{
    if n < 10 {
        seq![digit_char(n as int)]
    } else {
        dec_digits(n / 10).push(digit_char((n % 10) as int))
    }
}

/// Greedy digit accumulation from position `i` with accumulator `acc`;
/// yields the value and the first position past the run.
pub open spec fn sp_num(s: Seq<char>, i: int, acc: nat) -> (nat, int)
    decreases s.len() - i,
    when 0 <= i <= s.len()
{
    if i < s.len() && is_digit(s[i]) {
        sp_num(s, i + 1, ((acc * 10 + digit_val(s[i])) as nat))
    } else {
        (acc, i)
    }
}

/// Parse a canonical `u32` at position `i`: at least one digit, no leading
/// zero, value within range. Yields the value and the position past it.
pub open spec fn sp_parse_u32(s: Seq<char>, i: int) -> Option<(u32, int)> {
    if 0 <= i < s.len() && is_digit(s[i]) {
        if s[i] == '0' {
            Some((0u32, i + 1))
        } else {
            let (v, j) = sp_num(s, i, 0);
            if v <= u32::MAX {
                Some(((v as u32), j))
            } else {
                None
            }
        }
    } else {
        None
    }
}

/// Every character of a decimal rendering is a digit.
pub proof fn lemma_dec_all_digits(n: nat)
    ensures
        dec_digits(n).len() >= 1,
        forall|m: int| 0 <= m < dec_digits(n).len() ==> is_digit(#[trigger] dec_digits(n)[m]),
    decreases n,
{
    if n >= 10 {
        lemma_dec_all_digits(n / 10);
    }
}

/// A positive number never renders with a leading zero.
pub proof fn lemma_dec_no_leading_zero(n: nat)
    requires
        n > 0,
    ensures
        dec_digits(n).len() >= 1,
        dec_digits(n)[0] != '0',
    decreases n,
{
    lemma_dec_all_digits(n);
    if n >= 10 {
        lemma_dec_no_leading_zero(n / 10);
    }
}

/// The digit-run mirror of `sp_num` with an explicit run length.
spec fn numval(s: Seq<char>, i: int, k: int, acc: nat) -> nat
    decreases k,
{
    if k <= 0 {
        acc
    } else {
        numval(s, i + 1, k - 1, ((acc * 10 + digit_val(s[i])) as nat))
    }
}

/// On a digit run of length `k` that is followed by a non-digit (or the
/// end), `sp_num` accumulates exactly that run.
proof fn lemma_sp_num_run(s: Seq<char>, i: int, k: int, acc: nat)
    requires
        0 <= i,
        0 <= k,
        i + k <= s.len(),
        forall|m: int| i <= m < i + k ==> is_digit(#[trigger] s[m]),
        i + k == s.len() || !is_digit(s[i + k]),
    ensures
        sp_num(s, i, acc) == (numval(s, i, k, acc), i + k),
    decreases k,
{
    if k > 0 {
        lemma_sp_num_run(s, i + 1, k - 1, ((acc * 10 + digit_val(s[i])) as nat));
    }
}

/// Peeling the last digit off a run.
proof fn lemma_numval_snoc(s: Seq<char>, i: int, k: int, acc: nat)
    requires
        k >= 1,
        0 <= i,
        forall|m: int| i <= m < i + k ==> is_digit(#[trigger] s[m]),
    ensures
        numval(s, i, k, acc) == numval(s, i, k - 1, acc) * 10 + digit_val(s[i + k - 1]),
    decreases k,
{
    if k > 1 {
        lemma_numval_snoc(s, i + 1, k - 1, ((acc * 10 + digit_val(s[i])) as nat));
    } else {
        assert(numval(s, i + 1, 0, ((acc * 10 + digit_val(s[i])) as nat)) == (acc * 10 + digit_val(
            s[i],
        )) as nat);
    }
}

/// The accumulated value of a rendered number is the number.
proof fn lemma_numval_of_dec(n: nat, s: Seq<char>, i: int)
    requires
        0 <= i,
        i + dec_digits(n).len() <= s.len(),
        s.subrange(i, i + dec_digits(n).len() as int) == dec_digits(n),
    ensures
        numval(s, i, dec_digits(n).len() as int, 0) == n,
    decreases n,
{
    lemma_dec_all_digits(n);
    let d = dec_digits(n);
    let k = d.len() as int;
    assert(forall|m: int| i <= m < i + k ==> is_digit(#[trigger] s[m])) by {
        assert(forall|m: int| i <= m < i + k ==> s[m] == d[m - i]);
    }
    if n < 10 {
        assert(s[i] == d[0]);
        assert(digit_val(digit_char(n as int)) == n);
        assert(numval(s, i + 1, 0, ((0 * 10 + digit_val(s[i])) as nat)) == (digit_val(s[i]) as nat));
    } else {
        let dh = dec_digits(n / 10);
        let kh = dh.len() as int;
        assert(d == dh.push(digit_char((n % 10) as int)));
        assert(k == kh + 1);
        assert(s.subrange(i, i + kh) == dh) by {
            assert(s.subrange(i, i + kh) =~= d.subrange(0, kh));
            assert(d.subrange(0, kh) =~= dh);
        }
        lemma_numval_of_dec(n / 10, s, i);
        lemma_numval_snoc(s, i, k, 0);
        assert(s[i + k - 1] == d[k - 1]);
        assert(digit_val(digit_char((n % 10) as int)) == n % 10);
        assert(numval(s, i, k, 0) == (n / 10) * 10 + n % 10);
        assert((n / 10) * 10 + n % 10 == n) by {
            vstd::arithmetic::div_mod::lemma_fundamental_div_mod(n as int, 10);
        }
    }
}

/// Parsing undoes rendering: at a rendered `u32` followed by a non-digit,
/// the parser returns exactly that value and stops right after it.
pub proof fn lemma_parse_dec(s: Seq<char>, i: int, n: u32)
    requires
        0 <= i,
        i + dec_digits(n as nat).len() <= s.len(),
        s.subrange(i, i + dec_digits(n as nat).len() as int) == dec_digits(n as nat),
        i + dec_digits(n as nat).len() == s.len() || !is_digit(
            s[i + dec_digits(n as nat).len() as int],
        ),
    ensures
        sp_parse_u32(s, i) == Some((n, i + dec_digits(n as nat).len() as int)),
{
    lemma_dec_all_digits(n as nat);
    let d = dec_digits(n as nat);
    let k = d.len() as int;
    assert(forall|m: int| i <= m < i + k ==> is_digit(#[trigger] s[m])) by {
        assert(forall|m: int| i <= m < i + k ==> s[m] == d[m - i]);
    }
    assert(s[i] == d[0]);
    if n == 0 {
        assert(d == seq![digit_char(0)]);
        assert(s[i] == '0');
    } else {
        lemma_dec_no_leading_zero(n as nat);
        assert(s[i] != '0');
        lemma_sp_num_run(s, i, k, 0);
        lemma_numval_of_dec(n as nat, s, i);
    }
}

/// Is `c` a decimal digit? (Executable form.)
pub fn is_digit_char(c: char) -> (r: bool)
    ensures
        r == is_digit(c),
{
    let u = c as u32;
    48 <= u && u <= 57
}

/// The digit character of a value below ten. (Executable form.)
fn digit_char_of(d: u32) -> (c: char)
    requires
        d < 10,
    ensures
        c == digit_char(d as int),
{
    match d {
        0 => '0',
        1 => '1',
        2 => '2',
        3 => '3',
        4 => '4',
        5 => '5',
        6 => '6',
        7 => '7',
        8 => '8',
        _ => '9',
    }
}

/// Append the canonical decimal rendering of `n` to `out`.
pub fn push_dec(out: &mut Vec<char>, n: u32)
    ensures
        final(out)@ == old(out)@ + dec_digits(n as nat),
    decreases n,
{
    if n < 10 {
        out.push(digit_char_of(n));
    } else {
        push_dec(out, n / 10);
        out.push(digit_char_of(n % 10));
        proof {
            assert(final(out)@ =~= old(out)@ + dec_digits(n as nat));
        }
    }
}

/// Parse a canonical `u32` at position `i` of `s`.
pub fn parse_u32_at(s: &Vec<char>, i: usize) -> (r: Option<(u32, usize)>)
    requires
        i <= s@.len(),
    ensures
        match r {
            Some(p) => sp_parse_u32(s@, i as int) == Some((p.0, p.1 as int)) && i < p.1 <= s@.len(),
            None => sp_parse_u32(s@, i as int) is None,
        },
{
    if i >= s.len() || !is_digit_char(s[i]) {
        return None;
    }
    if s[i] == '0' {
        return Some((0, i + 1));
    }
    let mut v: u32 = 0;
    let mut j: usize = i;
    while j < s.len() && is_digit_char_at(s, j)
        invariant
            i <= j <= s@.len(),
            i < s@.len(),
            is_digit(s@[i as int]),
            s@[i as int] != '0',
            sp_num(s@, i as int, 0) == sp_num(s@, j as int, v as nat),
        decreases s@.len() - j,
    {
        let d = (s[j] as u32) - 48;
        proof {
            assert(d == digit_val(s@[j as int]));
            assert(0 <= d < 10);
        }
        let next = (v as u64) * 10 + (d as u64);
        if next > u32::MAX as u64 {
            proof {
                assert(sp_num(s@, j as int, v as nat) == sp_num(s@, j as int + 1, (next as nat)));
                lemma_sp_num_lower_bound(s@, j as int + 1, (next as nat));
                assert(sp_num(s@, i as int, 0).0 > u32::MAX);
            }
            return None;
        }
        proof {
            assert(sp_num(s@, j as int, v as nat) == sp_num(s@, j as int + 1, (next as nat)));
        }
        v = next as u32;
        j = j + 1;
    }
    proof {
        assert(!(j < s@.len() && is_digit(s@[j as int])));
    }
    Some((v, j))
}

/// Reading `s[j]` for the loop condition above.
fn is_digit_char_at(s: &Vec<char>, j: usize) -> (r: bool)
    requires
        j < s@.len(),
    ensures
        r == is_digit(s@[j as int]),
{
    is_digit_char(s[j])
}

/// The accumulated value only grows.
proof fn lemma_sp_num_lower_bound(s: Seq<char>, i: int, acc: nat)
    requires
        0 <= i <= s.len(),
    ensures
        sp_num(s, i, acc).0 >= acc,
    decreases s.len() - i,
{
    if i < s.len() && is_digit(s[i]) {
        lemma_sp_num_lower_bound(s, i + 1, ((acc * 10 + digit_val(s[i])) as nat));
    }
}

} // verus!
