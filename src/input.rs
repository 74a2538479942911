use vstd::prelude::*;

verus! {

/// ASCII whitespace: space, tab, line feed, form feed, carriage return.
pub open spec fn is_space(c: char) -> bool {
    c == ' ' || c == '\t' || c == '\n' || c == '\x0C' || c == '\r'
}

/// A decimal digit.
pub open spec fn is_digit(c: char) -> bool {
    '0' <= c && c <= '9'
}

/// The value of a decimal digit.
pub open spec fn digit_value(c: char) -> nat {
    (c as u32 - '0' as u32) as nat
}

/// The whitespace-separated tokens of `s`, in order; none of them is empty.
pub open spec fn tokens(s: Seq<char>) -> Seq<Seq<char>>
    decreases s.len(),
{
    if s.len() == 0 {
        seq![]
    } else {
        let prev = tokens(s.drop_last());
        let c = s.last();
        if is_space(c) {
            prev
        } else if s.len() == 1 || is_space(s[s.len() - 2]) {
            prev.push(seq![c])
        } else {
            prev.update(prev.len() - 1, prev.last().push(c))
        }
    }
}

/// Every character of `t` is a decimal digit.
pub open spec fn all_digits(t: Seq<char>) -> bool {
    forall|i: int| 0 <= i < t.len() ==> is_digit(#[trigger] t[i])
}

/// The number written in decimal by the digits of `t`.
pub open spec fn digits_value(t: Seq<char>) -> nat
    decreases t.len(),
{
    if t.len() == 0 {
        0
    } else {
        digits_value(t.drop_last()) * 10 + digit_value(t.last())
    }
}

/// `v`, or the largest `usize` where `v` is larger.
pub open spec fn saturate(v: nat) -> nat {
    if v > usize::MAX {
        usize::MAX as nat
    } else {
        v
    }
}

/// A move request: exactly two tokens, each made of decimal digits, read as
/// row then column. A coordinate too large for `usize` reads as `usize::MAX`,
/// which is off the board all the same.
pub open spec fn parsed_move(s: Seq<char>) -> Option<(nat, nat)> {
    let t = tokens(s);
    if t.len() == 2 && all_digits(t[0]) && all_digits(t[1]) {
        Some((saturate(digits_value(t[0])), saturate(digits_value(t[1]))))
    } else {
        None
    }
}

/// Extends the reading of a token by one character: `ok` says the token so
/// far is all digits and `acc` is its saturated value.
fn extend_number(ok: bool, acc: usize, c: char) -> (r: (bool, usize))
    ensures
        r.0 == (ok && is_digit(c)),
        r.0 ==> r.1 as nat == saturate(acc as nat * 10 + digit_value(c)),
{
    if !ok || c < '0' || c > '9' {
        return (false, 0);
    }
    let d = (c as u32 - '0' as u32) as usize;
    if acc > (usize::MAX - d) / 10 {
        assert(acc as nat * 10 + d > usize::MAX) by (nonlinear_arith)
            requires
                acc > (usize::MAX - d) / 10,
                d <= 9,
        ;
        (true, usize::MAX)
    } else {
        assert(acc * 10 + d <= usize::MAX) by (nonlinear_arith)
            requires
                acc <= (usize::MAX - d) / 10,
                d <= 9,
        ;
        (true, acc * 10 + d)
    }
}

/// Saturation can be applied before appending a digit as well as after.
proof fn lemma_saturate_step(v: nat, d: nat)
    requires
        d <= 9,
    ensures
        saturate(saturate(v) * 10 + d) == saturate(v * 10 + d),
{
    if v > usize::MAX {
        assert(v * 10 + d > usize::MAX) by (nonlinear_arith)
            requires
                v > usize::MAX,
        ;
        assert(usize::MAX as nat * 10 + d > usize::MAX) by (nonlinear_arith);
    }
}

/// Reads a move request "row col": `Some((row, col))` for exactly two
/// whitespace-separated tokens of decimal digits, `None` (malformed input)
/// for any other text.
pub fn parse_move(line: &str) -> (r: Option<(usize, usize)>)
    ensures
        parsed_move(line@) is None ==> r is None,
        parsed_move(line@) matches Some((a, b)) ==> r matches Some((x, y)) && x as nat == a
            && y as nat == b,
{
    let n = line.unicode_len();
    let mut count: usize = 0;
    let mut in_token = false;
    let mut ok0 = false;
    let mut val0: usize = 0;
    let mut ok1 = false;
    let mut val1: usize = 0;
    let mut i: usize = 0;
    while i < n
        invariant
            n == line@.len(),
            i <= n,
            count == tokens(line@.take(i as int)).len(),
            count <= i,
            in_token == (i > 0 && !is_space(line@[i - 1])),
            in_token ==> count > 0,
            count >= 1 ==> ok0 == all_digits(tokens(line@.take(i as int))[0]),
            count >= 1 && ok0 ==> val0 as nat == saturate(digits_value(tokens(line@.take(i as int))[0])),
            count >= 2 ==> ok1 == all_digits(tokens(line@.take(i as int))[1]),
            count >= 2 && ok1 ==> val1 as nat == saturate(digits_value(tokens(line@.take(i as int))[1])),
        decreases n - i,
    {
        let c = line.get_char(i);
        let ghost prefix = line@.take(i as int);
        let ghost t = tokens(prefix);
        let ghost next = line@.take(i as int + 1);
        assert(next.drop_last() =~= prefix);
        assert(next.last() == c);
        assert(i > 0 ==> next[i - 1] == line@[i - 1]);
        let space = c == ' ' || c == '\t' || c == '\n' || c == '\x0C' || c == '\r';
        if space {
            in_token = false;
            assert(tokens(next) == t);
        } else if !in_token {
            assert(tokens(next) == t.push(seq![c]));
            if count == 0 {
                ok0 = c >= '0' && c <= '9';
                if ok0 {
                    val0 = (c as u32 - '0' as u32) as usize;
                }
            } else if count == 1 {
                ok1 = c >= '0' && c <= '9';
                if ok1 {
                    val1 = (c as u32 - '0' as u32) as usize;
                }
            }
            proof {
                let tok = seq![c];
                assert(tok.drop_last() =~= Seq::<char>::empty());
                assert(all_digits(tok) == is_digit(c)) by {
                    assert(tok[0] == c);
                }
                assert(digits_value(tok.drop_last()) == 0);
                assert(tok.last() == c);
                assert(digits_value(tok) == digit_value(c));
            }
            count = count + 1;
            in_token = true;
        } else {
            let ghost last = t.last();
            assert(tokens(next) == t.update(t.len() - 1, last.push(c)));
            assert(last.push(c).drop_last() =~= last);
            assert(digits_value(last.push(c)) == digits_value(last) * 10 + digit_value(c));
            assert(all_digits(last.push(c)) == (all_digits(last) && is_digit(c))) by {
                assert(last.push(c)[last.len() as int] == c);
                assert forall|k: int| 0 <= k < last.len() implies last.push(c)[k] == last[k] by {}
            }
            if count == 1 {
                proof {
                    if ok0 && is_digit(c) {
                        lemma_saturate_step(digits_value(last), digit_value(c));
                    }
                }
                let (o, v) = extend_number(ok0, val0, c);
                ok0 = o;
                val0 = v;
            } else if count == 2 {
                proof {
                    if ok1 && is_digit(c) {
                        lemma_saturate_step(digits_value(last), digit_value(c));
                    }
                }
                let (o, v) = extend_number(ok1, val1, c);
                ok1 = o;
                val1 = v;
            }
        }
        i = i + 1;
    }
    assert(line@.take(n as int) =~= line@);
    if count == 2 && ok0 && ok1 {
        Some((val0, val1))
    } else {
        None
    }
}

} // verus!
