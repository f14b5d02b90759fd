//! Character-level helpers shared by the parsers and formatters.
use vstd::prelude::*;

verus! {

/// The ASCII digit for a value below ten.
pub open spec fn digit_char(d: nat) -> char {
    if d == 0 {
        '0'
    } else if d == 1 {
        '1'
    } else if d == 2 {
        '2'
    } else if d == 3 {
        '3'
    } else if d == 4 {
        '4'
    } else if d == 5 {
        '5'
    } else if d == 6 {
        '6'
    } else if d == 7 {
        '7'
    } else if d == 8 {
        '8'
    } else {
        '9'
    }
}

/// The decimal writing of a natural number, without leading zeros.
pub open spec fn dec(n: nat) -> Seq<char>
    decreases n,
{
    if n < 10 {
        seq![digit_char(n)]
    } else {
        dec(n / 10).push(digit_char(n % 10))
    }
}

/// Relies on String::push: the character is appended at the end.
#[verifier::external_body]
pub(crate) fn push_char(s: &mut String, c: char)
    ensures
        final(s)@ == old(s)@.push(c),
{
    s.push(c)
}

fn digit_of(d: u64) -> (c: char)
    requires
        d < 10,
    ensures
        c == digit_char(d as nat),
{
    if d == 0 {
        '0'
    } else if d == 1 {
        '1'
    } else if d == 2 {
        '2'
    } else if d == 3 {
        '3'
    } else if d == 4 {
        '4'
    } else if d == 5 {
        '5'
    } else if d == 6 {
        '6'
    } else if d == 7 {
        '7'
    } else if d == 8 {
        '8'
    } else {
        '9'
    }
}

/// Appends the decimal writing of `n`.
pub fn push_decimal(s: &mut String, n: u64)
    ensures
        final(s)@ == old(s)@ + dec(n as nat),
    decreases n,
{
    if n >= 10 {
        push_decimal(s, n / 10);
    }
    push_char(s, digit_of(n % 10));
    proof {
        if n < 10 {
            assert(n % 10 == n);
        }
    }
}

/// The decimal writing of `n`.
pub fn decimal(n: u64) -> (r: String)
    ensures
        r@ == dec(n as nat),
{
    let mut s = String::new();
    push_decimal(&mut s, n);
    assert(s@ =~= dec(n as nat));
    s
}

/// Index of the first `c` in `s`, or -1.
pub open spec fn find_char(s: Seq<char>, c: char) -> int
    decreases s.len(),
{
    if s.len() == 0 {
        -1
    } else if s[0] == c {
        0
    } else {
        let r = find_char(s.drop_first(), c);
        if r < 0 {
            -1
        } else {
            r + 1
        }
    }
}

pub proof fn lemma_find_char_bounds(s: Seq<char>, c: char)
    ensures
        -1 <= find_char(s, c) < s.len(),
        find_char(s, c) >= 0 ==> s[find_char(s, c)] == c,
        find_char(s, c) >= 0 ==> forall|j: int| 0 <= j < find_char(s, c) ==> s[j] != c,
        find_char(s, c) < 0 ==> forall|j: int| 0 <= j < s.len() ==> s[j] != c,
    decreases s.len(),
{
    if s.len() > 0 && s[0] != c {
        lemma_find_char_bounds(s.drop_first(), c);
        assert forall|j: int| 1 <= j < s.len() implies s[j] == s.drop_first()[j - 1] by {}
    }
}

/// Where `cur` holds no `c` and `rest` starts with `c`, the first `c` of
/// `cur + rest` is at `cur.len()`.
pub proof fn lemma_find_after_prefix(cur: Seq<char>, rest: Seq<char>, c: char)
    requires
        forall|j: int| 0 <= j < cur.len() ==> cur[j] != c,
        rest.len() > 0,
        rest[0] == c,
    ensures
        find_char(cur + rest, c) == cur.len(),
    decreases cur.len(),
{
    if cur.len() > 0 {
        lemma_find_after_prefix(cur.drop_first(), rest, c);
        assert((cur + rest).drop_first() =~= cur.drop_first() + rest);
    }
}

/// Where `s` holds no `c`, it has no `c` to find.
pub proof fn lemma_find_none(s: Seq<char>, c: char)
    requires
        forall|j: int| 0 <= j < s.len() ==> s[j] != c,
    ensures
        find_char(s, c) == -1,
    decreases s.len(),
{
    if s.len() > 0 {
        lemma_find_none(s.drop_first(), c);
    }
}

/// An ASCII digit.
pub open spec fn is_digit(c: char) -> bool {
    48 <= (c as u32) && (c as u32) <= 57
}

/// The value of an ASCII digit.
pub open spec fn digit_val(c: char) -> int {
    (c as u32) as int - 48
}

/// A non-empty run of ASCII digits.
pub open spec fn all_digits(s: Seq<char>) -> bool {
    s.len() > 0 && forall|i: int| 0 <= i < s.len() ==> is_digit(#[trigger] s[i])
}

/// The value of a run of decimal digits.
pub open spec fn digits_value(s: Seq<char>) -> int
    decreases s.len(),
{
    if s.len() == 0 {
        0
    } else {
        digits_value(s.drop_last()) * 10 + digit_val(s.last())
    }
}

/// The text up to the first newline.
pub open spec fn first_line(s: Seq<char>) -> Seq<char> {
    let i = find_char(s, '\n');
    if i < 0 {
        s
    } else {
        s.subrange(0, i)
    }
}

/// The first line read as a decimal integer with an optional leading `-`:
/// its sign and magnitude.
pub open spec fn decimal_line(s: Seq<char>) -> Option<(bool, int)> {
    signed_digits(first_line(s), '-')
}

/// The whole text read as a run of decimal digits with an optional leading
/// `sign`: whether the sign was there, and the value of the digits.
pub open spec fn signed_digits(l: Seq<char>, sign: char) -> Option<(bool, int)> {
    let neg = l.len() > 0 && l[0] == sign;
    let body = if neg {
        l.drop_first()
    } else {
        l
    };
    if all_digits(body) {
        Some((neg, digits_value(body)))
    } else {
        None
    }
}

proof fn lemma_digit_char(d: nat)
    requires
        d < 10,
    ensures
        is_digit(digit_char(d)),
        digit_val(digit_char(d)) == d,
        digit_char(d) != '-',
        digit_char(d) != '\n',
{
}

/// The decimal writing of `n` is a run of digits worth `n`.
pub proof fn lemma_dec_value(n: nat)
    ensures
        all_digits(dec(n)),
        digits_value(dec(n)) == n,
        forall|i: int| 0 <= i < dec(n).len() ==> #[trigger] dec(n)[i] != '\n' && dec(n)[i] != '-',
    decreases n,
{
    lemma_digit_char(n % 10);
    if n >= 10 {
        lemma_dec_value(n / 10);
        assert(dec(n).drop_last() =~= dec(n / 10));
        assert((n / 10) * 10 + n % 10 == n) by (nonlinear_arith);
        assert(dec(n).last() == digit_char(n % 10));
        assert(digits_value(dec(n)) == digits_value(dec(n / 10)) * 10 + digit_val(
            digit_char(n % 10),
        ));
        assert forall|i: int| 0 <= i < dec(n).len() implies is_digit(#[trigger] dec(n)[i]) by {
            if i < dec(n).len() - 1 {
                assert(dec(n)[i] == dec(n / 10)[i]);
            }
        }
    } else {
        assert(dec(n).drop_last() =~= Seq::<char>::empty());
        assert(n % 10 == n);
        assert(dec(n).last() == digit_char(n));
        assert(digits_value(dec(n)) == digits_value(Seq::<char>::empty()) * 10 + digit_val(
            digit_char(n),
        ));
    }
}

proof fn lemma_digits_grow(s: Seq<char>, c: char)
    requires
        is_digit(c),
        digits_value(s) >= 0,
    ensures
        digits_value(s.push(c)) >= digits_value(s),
        digits_value(s.push(c)) == digits_value(s) * 10 + digit_val(c),
{
    assert(s.push(c).drop_last() =~= s);
}

proof fn lemma_digits_nonneg(s: Seq<char>)
    requires
        forall|i: int| 0 <= i < s.len() ==> is_digit(#[trigger] s[i]),
    ensures
        digits_value(s) >= 0,
    decreases s.len(),
{
    if s.len() > 0 {
        lemma_digits_nonneg(s.drop_last());
    }
}

/// The text of `s` up to its first newline.
pub fn first_line_of(s: &str) -> (r: String)
    ensures
        r@ == first_line(s@),
{
    let ghost v = s@;
    let mut line = String::new();
    let mut ended = false;
    proof {
        lemma_find_char_bounds(v, '\n');
    }
    for c in it: s.chars()
        invariant
            it.seq() == v,
            0 <= it.index() <= v.len(),
            -1 <= find_char(v, '\n') < v.len(),
            !ended ==> line@ == v.subrange(0, it.index() as int) && forall|j: int|
                0 <= j < it.index() ==> v[j] != '\n',
            ended ==> 0 <= find_char(v, '\n') < it.index() && line@ == v.subrange(
                0,
                find_char(v, '\n'),
            ),
    {
        let ghost i = it.index() as int;
        if !ended {
            if c == '\n' {
                proof {
                    lemma_find_after_prefix(v.subrange(0, i), v.subrange(i, v.len() as int), '\n');
                    assert(v.subrange(0, i) + v.subrange(i, v.len() as int) =~= v);
                }
                ended = true;
            } else {
                push_char(&mut line, c);
                assert(line@ =~= v.subrange(0, i + 1));
            }
        }
    }
    if !ended {
        proof {
            lemma_find_none(v, '\n');
            assert(v.subrange(0, v.len() as int) =~= v);
        }
    }
    line
}

/// Reads the first line of `s` as a decimal integer with an optional
/// leading `-`: its sign and magnitude, or `None` where the line is not
/// such a number or its magnitude exceeds `u64::MAX`.
pub fn parse_decimal_line(s: &str) -> (r: Option<(bool, u64)>)
    ensures
        r matches Some((neg, m)) ==> decimal_line(s@) == Some((neg, m as int)),
        r is None ==> (decimal_line(s@) is None || decimal_line(s@).unwrap().1 > u64::MAX),
{
    let line = first_line_of(s);
    parse_signed_digits(line.as_str(), '-')
}

/// Reads all of `text` as decimal digits with an optional leading `sign`
/// (a character that is no digit): whether the sign was there and the
/// value, or `None` where the text is not such a number or the value
/// exceeds `u64::MAX`.
pub fn parse_signed_digits(text: &str, sign: char) -> (r: Option<(bool, u64)>)
    requires
        !is_digit(sign),
    ensures
        r matches Some((neg, m)) ==> signed_digits(text@, sign) == Some((neg, m as int)),
        r is None ==> (signed_digits(text@, sign) is None || signed_digits(text@, sign).unwrap().1
            > u64::MAX),
{
    let ghost l = text@;
    let mut neg = false;
    let mut ok = true;
    let mut big = false;
    let mut value: u64 = 0;
    let mut seen = false;
    let mut pos: usize = 0;
    let len = text.unicode_len();
    for c in it: text.chars()
        invariant
            it.seq() == l,
            l.len() == len,
            pos == it.index(),
            0 <= it.index() <= l.len(),
            neg <==> (l.len() > 0 && l[0] == sign && it.index() > 0),
            ok ==> (seen <==> it.index() > (if neg { 1int } else { 0int })),
            ok ==> forall|j: int|
                (if neg { 1int } else { 0int }) <= j < it.index() ==> is_digit(#[trigger] l[j]),
            !ok ==> !all_digits(if l.len() > 0 && l[0] == sign { l.drop_first() } else { l }),
            ok && !big ==> value as int == digits_value(
                l.subrange(if neg { 1int } else { 0int }, it.index() as int),
            ),
            ok && big ==> digits_value(
                l.subrange(if neg { 1int } else { 0int }, it.index() as int),
            ) > u64::MAX,
    {
        let ghost i = it.index() as int;
        let ghost start: int = if neg { 1int } else { 0int };
        if pos == 0 && c == sign {
            neg = true;
            assert(l.subrange(1, 1) =~= Seq::<char>::empty());
        } else if ok {
            let code = c as u32;
            if code < 48 || code > 57 {
                ok = false;
                proof {
                    let body = if l.len() > 0 && l[0] == sign { l.drop_first() } else { l };
                    assert(body[i - start] == c);
                }
            } else {
                let d = (code - 48) as u64;
                proof {
                    lemma_digits_nonneg(l.subrange(start, i));
                    lemma_digits_grow(l.subrange(start, i), c);
                    assert(l.subrange(start, i).push(c) =~= l.subrange(start, i + 1));
                }
                if !big {
                    match value.checked_mul(10) {
                        Some(m) => match m.checked_add(d) {
                            Some(v) => {
                                value = v;
                            },
                            None => {
                                big = true;
                            },
                        },
                        None => {
                            big = true;
                        },
                    }
                }
                seen = true;
            }
        }
        if pos < len {
            pos = pos + 1;
        }
    }
    proof {
        let start: int = if neg { 1int } else { 0int };
        assert(l.subrange(start, l.len() as int) =~= (if neg { l.drop_first() } else { l }));
        if ok && !seen {
            assert(l.subrange(start, l.len() as int).len() == 0);
        }
    }
    if ok && !big && seen {
        Some((neg, value))
    } else {
        None
    }
}

/// The decimal writing of an integer, with a leading `-` when negative.
pub open spec fn signed_dec(v: int) -> Seq<char> {
    if v < 0 {
        "-"@ + dec((-v) as nat)
    } else {
        dec(v as nat)
    }
}

/// Appends the decimal writing of `v`.
pub fn push_signed(s: &mut String, v: i64)
    ensures
        final(s)@ == old(s)@ + signed_dec(v as int),
{
    if v < 0 {
        s.append("-");
        let m: u64 = if v == i64::MIN {
            9223372036854775808u64
        } else {
            (-v) as u64
        };
        push_decimal(s, m);
    } else {
        push_decimal(s, v as u64);
    }
}

/// The integer that a sign and a magnitude stand for.
pub open spec fn signed_value(p: (bool, int)) -> int {
    if p.0 {
        -p.1
    } else {
        p.1
    }
}

/// The first line of `signed_dec(v)` followed by anything that starts with
/// a newline reads back as `v`.
pub proof fn lemma_signed_round_trip(v: int, rest: Seq<char>)
    requires
        rest.len() > 0,
        rest[0] == '\n',
    ensures
        decimal_line(signed_dec(v) + rest) matches Some(p) && signed_value(p) == v && p.1
            == if v < 0 { -v } else { v },
{
    reveal_strlit("-");
    let m: nat = if v < 0 { (-v) as nat } else { v as nat };
    lemma_dec_value(m);
    let sd = signed_dec(v);
    assert forall|j: int| 0 <= j < sd.len() implies sd[j] != '\n' by {
        if v < 0 && j > 0 {
            assert(sd[j] == dec(m)[j - 1]);
        }
    }
    lemma_find_after_prefix(sd, rest, '\n');
    assert((sd + rest).subrange(0, sd.len() as int) =~= sd);
    if v < 0 {
        assert(sd.drop_first() =~= dec(m));
    } else {
        assert(sd[0] != '-');
    }
}

} // verus!
