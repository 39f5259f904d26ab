//! The text layer of snapshot lines: locating literal tokens, escaping and
//! unescaping string content, with proofs that reading undoes writing.

use vstd::prelude::*;

verus! {

/// `t` stands verbatim in `s` at position `i`.
pub open spec fn at(s: Seq<char>, i: int, t: Seq<char>) -> bool {
    &&& 0 <= i
    &&& i + t.len() <= s.len()
    &&& s.subrange(i, i + t.len()) == t
}

/// A token splits: `a + b` stands at `i` exactly when `a` stands at `i`
/// and `b` right after it.
pub proof fn lemma_at_concat(s: Seq<char>, i: int, a: Seq<char>, b: Seq<char>)
    ensures
        at(s, i, a + b) <==> at(s, i, a) && at(s, i + a.len(), b),
{
    if at(s, i, a + b) {
        assert forall|m: int| 0 <= m < a.len() implies s[i + m] == a[m] by {
            assert(s.subrange(i, i + (a + b).len() as int)[m] == (a + b)[m]);
        }
        assert forall|m: int| 0 <= m < b.len() implies s[i + a.len() + m] == b[m] by {
            assert(s.subrange(i, i + (a + b).len() as int)[a.len() + m] == (a + b)[a.len() + m]);
        }
        assert(s.subrange(i, i + a.len()) =~= a);
        assert(s.subrange(i + a.len(), i + a.len() + b.len()) =~= b);
    }
    if at(s, i, a) && at(s, i + a.len(), b) {
        assert forall|m: int| 0 <= m < (a + b).len() implies s[i + m] == (a + b)[m] by {
            if m < a.len() {
                assert(s.subrange(i, i + a.len())[m] == a[m]);
            } else {
                assert(s.subrange(i + a.len(), i + a.len() + b.len())[m - a.len()] == b[m
                    - a.len()]);
            }
        }
        assert(s.subrange(i, i + (a + b).len() as int) =~= a + b);
    }
}

/// A one-character token pins the character at its position.
pub proof fn lemma_at_char(s: Seq<char>, i: int, c: char)
    requires
        at(s, i, seq![c]),
    ensures
        0 <= i < s.len() && s[i] == c,
{
    assert(s.subrange(i, i + 1)[0] == c);
}

/// A token that stands at `i` pins the character there to its first one.
pub proof fn lemma_at_first(s: Seq<char>, i: int, t: Seq<char>)
    requires
        at(s, i, t),
        t.len() > 0,
    ensures
        0 <= i < s.len() && s[i] == t[0],
{
    assert(s.subrange(i, i + t.len())[0] == t[0]);
}

/// Is `c` a lower-case hexadecimal digit?
pub open spec fn is_hex(c: char) -> bool {
    ('0' as int <= c as int <= '9' as int) || ('a' as int <= c as int <= 'f' as int)
}

/// The numeric value of a hexadecimal digit character.
pub open spec fn hex_val(c: char) -> int {
    if '0' as int <= c as int <= '9' as int {
        c as int - '0' as int
    } else {
        c as int - 'a' as int + 10
    }
}

/// The hexadecimal digit character of a value below sixteen.
pub open spec fn hex_char(d: int) -> char {
    if d < 10 {
        crate::decimal::digit_char(d)
    } else if d == 10 {
        'a'
    } else if d == 11 {
        'b'
    } else if d == 12 {
        'c'
    } else if d == 13 {
        'd'
    } else if d == 14 {
        'e'
    } else {
        'f'
    }
}

/// The escaped form of one character: quotes and backslashes get a
/// backslash escape, control characters a `\u00..` escape, everything
/// else stands for itself.
pub open spec fn esc_char(c: char) -> Seq<char> {
    if c == '"' {
        seq!['\\', '"']
    } else if c == '\\' {
        seq!['\\', '\\']
    } else if 0 <= (c as int) && (c as int) < 32 {
        seq!['\\', 'u', '0', '0', hex_char(c as int / 16), hex_char(c as int % 16)]
    } else {
        seq![c]
    }
}

/// The escaped form of a whole string.
pub open spec fn esc(t: Seq<char>) -> Seq<char>
    decreases t.len(),
{
    if t.len() == 0 {
        Seq::empty()
    } else {
        esc_char(t[0]) + esc(t.drop_first())
    }
}

/// Escaping distributes over concatenation.
pub proof fn lemma_esc_app(a: Seq<char>, b: Seq<char>)
    ensures
        esc(a + b) == esc(a) + esc(b),
    decreases a.len(),
{
    if a.len() == 0 {
        assert(a + b =~= b);
        assert(esc(a) + esc(b) =~= esc(b));
    } else {
        assert((a + b).drop_first() =~= a.drop_first() + b);
        lemma_esc_app(a.drop_first(), b);
        assert(esc_char((a + b)[0]) + (esc(a.drop_first()) + esc(b)) =~= (esc_char(a[0]) + esc(
            a.drop_first(),
        )) + esc(b));
    }
}

/// The serialized form of a string: escaped content between quotes.
pub open spec fn sp_ser_string(t: Seq<char>) -> Seq<char> {
    seq!['"'] + esc(t) + seq!['"']
}

/// Read escaped string content from position `i` up to and over the
/// closing quote. Accepts exactly the escapes the writer produces.
pub open spec fn sp_str_body(s: Seq<char>, i: int) -> Option<(Seq<char>, int)>
    decreases s.len() - i,
    when 0 <= i <= s.len()
{
    if i >= s.len() {
        None
    } else if s[i] == '"' {
        Some((Seq::empty(), i + 1))
    } else if s[i] == '\\' {
        if i + 1 < s.len() && (s[i + 1] == '"' || s[i + 1] == '\\') {
            match sp_str_body(s, i + 2) {
                Some(p) => Some((seq![s[i + 1]] + p.0, p.1)),
                None => None,
            }
        } else if i + 5 < s.len() && s[i + 1] == 'u' && s[i + 2] == '0' && s[i + 3] == '0' && is_hex(
            s[i + 4],
        ) && is_hex(s[i + 5]) && hex_val(s[i + 4]) * 16 + hex_val(s[i + 5]) < 32 {
            match sp_str_body(s, i + 6) {
                Some(p) => Some(
                    (seq![(((hex_val(s[i + 4]) * 16 + hex_val(s[i + 5])) as u8) as char)] + p.0, p.1),
                ),
                None => None,
            }
        } else {
            None
        }
    } else {
        match sp_str_body(s, i + 1) {
            Some(p) => Some((seq![s[i]] + p.0, p.1)),
            None => None,
        }
    }
}

/// Parse a serialized string at position `i`: an opening quote, escaped
/// content, a closing quote.
pub open spec fn sp_parse_string(s: Seq<char>, i: int) -> Option<(Seq<char>, int)> {
    if 0 <= i < s.len() && s[i] == '"' {
        sp_str_body(s, i + 1)
    } else {
        None
    }
}

/// Hexadecimal digits round-trip.
proof fn lemma_hex_roundtrip(d: int)
    requires
        0 <= d < 16,
    ensures
        is_hex(hex_char(d)),
        hex_val(hex_char(d)) == d,
{
}

/// Reading undoes escaping: escaped content followed by a closing quote
/// parses back to the original content, ending right past the quote.
pub proof fn lemma_str_body_of_esc(t: Seq<char>, s: Seq<char>, i: int)
    requires
        at(s, i, esc(t)),
        i + esc(t).len() < s.len(),
        s[i + esc(t).len()] == '"',
    ensures
        sp_str_body(s, i) == Some((t, i + esc(t).len() + 1)),
    decreases t.len(),
{
    if t.len() == 0 {
        assert(s[i] == '"');
    } else {
        let c = t[0];
        let rest = t.drop_first();
        assert(esc(t) == esc_char(c) + esc(rest));
        lemma_at_concat(s, i, esc_char(c), esc(rest));
        let i2 = i + esc_char(c).len();
        lemma_str_body_of_esc(rest, s, i2);
        if c == '"' {
            assert(esc_char(c) =~= seq!['\\'] + seq!['"']);
            lemma_at_concat(s, i, seq!['\\'], seq!['"']);
            lemma_at_char(s, i, '\\');
            lemma_at_char(s, i + 1, '"');
            assert(seq![s[i + 1]] + rest =~= t);
        } else if c == '\\' {
            assert(esc_char(c) =~= seq!['\\'] + seq!['\\']);
            lemma_at_concat(s, i, seq!['\\'], seq!['\\']);
            lemma_at_char(s, i, '\\');
            lemma_at_char(s, i + 1, '\\');
            assert(seq![s[i + 1]] + rest =~= t);
        } else if 0 <= (c as int) && (c as int) < 32 {
            let hi = c as int / 16;
            let lo = c as int % 16;
            lemma_hex_roundtrip(hi);
            lemma_hex_roundtrip(lo);
            assert(at(s, i, seq!['\\']) && at(s, i + 1, seq!['u']) && at(s, i + 2, seq!['0']) && at(
                s,
                i + 3,
                seq!['0'],
            ) && at(s, i + 4, seq![hex_char(hi)]) && at(s, i + 5, seq![hex_char(lo)])) by {
                assert(esc_char(c) =~= seq!['\\'] + (seq!['u'] + (seq!['0'] + (seq!['0'] + (seq![
                    hex_char(hi),
                ] + seq![hex_char(lo)])))));
                lemma_at_concat(s, i, seq!['\\'], seq!['u'] + (seq!['0'] + (seq!['0'] + (seq![
                    hex_char(hi),
                ] + seq![hex_char(lo)]))));
                lemma_at_concat(s, i + 1, seq!['u'], seq!['0'] + (seq!['0'] + (seq![hex_char(hi)]
                    + seq![hex_char(lo)])));
                lemma_at_concat(s, i + 2, seq!['0'], seq!['0'] + (seq![hex_char(hi)] + seq![
                    hex_char(lo),
                ]));
                lemma_at_concat(s, i + 3, seq!['0'], seq![hex_char(hi)] + seq![hex_char(lo)]);
                lemma_at_concat(s, i + 4, seq![hex_char(hi)], seq![hex_char(lo)]);
            }
            lemma_at_char(s, i, '\\');
            lemma_at_char(s, i + 1, 'u');
            lemma_at_char(s, i + 2, '0');
            lemma_at_char(s, i + 3, '0');
            lemma_at_char(s, i + 4, hex_char(hi));
            lemma_at_char(s, i + 5, hex_char(lo));
            assert(hex_val(s[i + 4]) * 16 + hex_val(s[i + 5]) == c as int);
            assert((((c as int) as u8) as char) == c);
            assert(seq![(((hex_val(s[i + 4]) * 16 + hex_val(s[i + 5])) as u8) as char)] + rest =~= t);
        } else {
            lemma_at_char(s, i, c);
            assert(s[i] != '"' && s[i] != '\\');
            assert(seq![s[i]] + rest =~= t);
        }
    }
}

/// Parsing undoes serializing, for a serialized string standing at `i`.
pub proof fn lemma_parse_string_of_ser(t: Seq<char>, s: Seq<char>, i: int)
    requires
        at(s, i, sp_ser_string(t)),
    ensures
        sp_parse_string(s, i) == Some((t, i + sp_ser_string(t).len())),
{
    assert(sp_ser_string(t) =~= seq!['"'] + (esc(t) + seq!['"']));
    lemma_at_concat(s, i, seq!['"'], esc(t) + seq!['"']);
    lemma_at_char(s, i, '"');
    lemma_at_concat(s, i + 1, esc(t), seq!['"']);
    lemma_at_char(s, i + 1 + esc(t).len(), '"');
    lemma_str_body_of_esc(t, s, i + 1);
}

/// The hexadecimal digit character of a value below sixteen. (Executable
/// form.)
fn hex_char_of(d: u32) -> (c: char)
    requires
        d < 16,
    ensures
        c == hex_char(d as int),
{
    match d {
        0 => '0',
        1 => '1',
        2 => '2',
        3 => '3',
        4 => '4',
        5 => '5',
        6 => '6',
        7 => '7',
        8 => '8',
        9 => '9',
        10 => 'a',
        11 => 'b',
        12 => 'c',
        13 => 'd',
        14 => 'e',
        _ => 'f',
    }
}

/// Append the escaped form of one character to `out`.
fn push_esc_char(out: &mut Vec<char>, c: char)
    ensures
        final(out)@ == old(out)@ + esc_char(c),
{
    if c == '"' {
        out.push('\\');
        out.push('"');
        proof {
            assert(final(out)@ =~= old(out)@ + esc_char(c));
        }
    } else if c == '\\' {
        out.push('\\');
        out.push('\\');
        proof {
            assert(final(out)@ =~= old(out)@ + esc_char(c));
        }
    } else if (c as u32) < 32 {
        let u = c as u32;
        out.push('\\');
        out.push('u');
        out.push('0');
        out.push('0');
        out.push(hex_char_of(u / 16));
        out.push(hex_char_of(u % 16));
        proof {
            assert(final(out)@ =~= old(out)@ + esc_char(c));
        }
    } else {
        out.push(c);
        proof {
            assert(final(out)@ =~= old(out)@ + esc_char(c));
        }
    }
}

/// Append the escaped form of a whole string to `out`.
pub fn push_escaped(out: &mut Vec<char>, cs: &Vec<char>)
    ensures
        final(out)@ == old(out)@ + esc(cs@),
{
    let mut k: usize = 0;
    while k < cs.len()
        invariant
            k <= cs@.len(),
            out@ == old(out)@ + esc(cs@.take(k as int)),
        decreases cs@.len() - k,
    {
        push_esc_char(out, cs[k]);
        proof {
            assert(cs@.take(k + 1 as int) =~= cs@.take(k as int) + seq![cs@[k as int]]);
            lemma_esc_app(cs@.take(k as int), seq![cs@[k as int]]);
            assert(esc(seq![cs@[k as int]]) =~= esc_char(cs@[k as int])) by {
                assert(seq![cs@[k as int]].drop_first() =~= Seq::<char>::empty());
                assert(esc(Seq::<char>::empty()) =~= Seq::<char>::empty());
                assert(esc_char(cs@[k as int]) + Seq::<char>::empty() =~= esc_char(cs@[k as int]));
            }
            assert(old(out)@ + esc(cs@.take(k + 1 as int)) =~= (old(out)@ + esc(cs@.take(k as int)))
                + esc_char(cs@[k as int]));
        }
        k = k + 1;
    }
    proof {
        assert(cs@.take(cs@.len() as int) =~= cs@);
    }
}

/// Append the serialized form of a string (quotes and escapes) to `out`.
pub fn push_ser_string(out: &mut Vec<char>, cs: &Vec<char>)
    ensures
        final(out)@ == old(out)@ + sp_ser_string(cs@),
{
    out.push('"');
    push_escaped(out, cs);
    out.push('"');
    proof {
        assert(final(out)@ =~= old(out)@ + sp_ser_string(cs@));
    }
}

/// Is `c` a lower-case hexadecimal digit? (Executable form.)
fn is_hex_char(c: char) -> (r: bool)
    ensures
        r == is_hex(c),
{
    let u = c as u32;
    (48 <= u && u <= 57) || (97 <= u && u <= 102)
}

/// The numeric value of a hexadecimal digit character. (Executable form.)
fn hex_val_of(c: char) -> (d: u32)
    requires
        is_hex(c),
    ensures
        d == hex_val(c),
{
    let u = c as u32;
    if u <= 57 {
        u - 48
    } else {
        u - 97 + 10
    }
}

/// Parse a serialized string at position `i`: the content with escapes
/// undone, and the position past the closing quote.
pub fn parse_string_at(s: &Vec<char>, i: usize) -> (r: Option<(Vec<char>, usize)>)
    requires
        i <= s@.len(),
    ensures
        match r {
            Some(p) => sp_parse_string(s@, i as int) == Some((p.0@, p.1 as int)) && i < p.1
                <= s@.len(),
            None => sp_parse_string(s@, i as int) is None,
        },
{
    if i >= s.len() || s[i] != '"' {
        return None;
    }
    let mut acc: Vec<char> = Vec::new();
    let mut j: usize = i + 1;
    loop
        invariant
            i + 1 <= j <= s@.len(),
            i < s@.len(),
            s@[i as int] == '"',
            sp_str_body(s@, j as int) matches Some(p) ==> sp_str_body(s@, i + 1 as int) == Some(
                (acc@ + p.0, p.1),
            ),
            sp_str_body(s@, j as int) is None ==> sp_str_body(s@, i + 1 as int) is None,
        decreases s@.len() - j,
    {
        if j >= s.len() {
            return None;
        }
        let c = s[j];
        if c == '"' {
            proof {
                assert(sp_str_body(s@, j as int) == Some((Seq::<char>::empty(), j + 1 as int)));
                assert(acc@ + Seq::<char>::empty() =~= acc@);
            }
            return Some((acc, j + 1));
        } else if c == '\\' {
            if j + 1 < s.len() && (s[j + 1] == '"' || s[j + 1] == '\\') {
                let e = s[j + 1];
                proof {
                    lemma_step_prepend(s@, i + 1 as int, j as int, j + 2, acc@, seq![e]);
                }
                acc.push(e);
                j = j + 2;
            } else if s.len() - j > 5 && s[j + 1] == 'u' && s[j + 2] == '0' && s[j + 3] == '0'
                && is_hex_char(s[j + 4]) && is_hex_char(s[j + 5]) && hex_val_of(s[j + 4]) * 16
                + hex_val_of(s[j + 5]) < 32 {
                let v = hex_val_of(s[j + 4]) * 16 + hex_val_of(s[j + 5]);
                let e = (v as u8) as char;
                proof {
                    lemma_step_prepend(s@, i + 1 as int, j as int, j + 6, acc@, seq![e]);
                }
                acc.push(e);
                j = j + 6;
            } else {
                proof {
                    assert(sp_str_body(s@, j as int) is None);
                }
                return None;
            }
        } else {
            proof {
                lemma_step_prepend(s@, i + 1 as int, j as int, j + 1, acc@, seq![c]);
            }
            acc.push(c);
            j = j + 1;
        }
    }
}

/// One parser step: when the content at `j` starts with the decoded
/// characters `piece` and continues at `j2`, accumulated content moves
/// from `acc` to `acc + piece`.
proof fn lemma_step_prepend(s: Seq<char>, i0: int, j: int, j2: int, acc: Seq<char>, piece: Seq<char>)
    requires
        0 <= i0 <= s.len(),
        0 <= j <= s.len(),
        0 <= j2 <= s.len(),
        sp_str_body(s, j) matches Some(p) ==> sp_str_body(s, i0) == Some((acc + p.0, p.1)),
        sp_str_body(s, j) is None ==> sp_str_body(s, i0) is None,
        sp_str_body(s, j2) matches Some(p) ==> sp_str_body(s, j) == Some((piece + p.0, p.1)),
        sp_str_body(s, j2) is None ==> sp_str_body(s, j) is None,
    ensures
        sp_str_body(s, j2) matches Some(p) ==> sp_str_body(s, i0) == Some(((acc + piece) + p.0, p.1)),
        sp_str_body(s, j2) is None ==> sp_str_body(s, i0) is None,
{
    match sp_str_body(s, j2) {
        Some(p) => {
            assert(acc + (piece + p.0) =~= (acc + piece) + p.0);
        },
        None => {},
    }
}

/// Locate the literal token `tok` at position `i`.
pub fn expect(s: &Vec<char>, i: usize, tok: &Vec<char>) -> (r: Option<usize>)
    requires
        i <= s@.len(),
    ensures
        match r {
            Some(j) => at(s@, i as int, tok@) && j == i + tok@.len() && j <= s@.len(),
            None => !at(s@, i as int, tok@),
        },
{
    if tok.len() > s.len() - i {
        return None;
    }
    let mut k: usize = 0;
    while k < tok.len()
        invariant
            k <= tok@.len(),
            i + tok@.len() <= s@.len(),
            s@.len() <= usize::MAX,
            forall|m: int| 0 <= m < k ==> s@[i + m] == tok@[m],
        decreases tok@.len() - k,
    {
        if s[i + k] != tok[k] {
            proof {
                assert(s@.subrange(i as int, i + tok@.len()) != tok@) by {
                    assert(s@.subrange(i as int, i + tok@.len())[k as int] != tok@[k as int]);
                }
            }
            return None;
        }
        k = k + 1;
    }
    proof {
        assert(s@.subrange(i as int, i + tok@.len()) =~= tok@);
    }
    Some(i + tok.len())
}

} // verus!
