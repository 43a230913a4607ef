use vstd::prelude::*;
use vstd::string::StrSliceExecFns;
use vstd::string::StringExecFns;

verus! {

/// The digit character for a value below ten.
pub open spec fn spec_digit_char(d: int) -> char {
    (48 + d) as char
}

/// The decimal digits of a nonnegative number, most significant first.
pub open spec fn spec_digits(n: int) -> Seq<char>
    recommends
        n >= 0,
    decreases n,
{
    if n < 10 {
        seq![spec_digit_char(if n >= 0 {
            n
        } else {
            0
        })]
    } else {
        spec_digits(n / 10) + seq![spec_digit_char(n % 10)]
    }
}

/// The decimal rendering of a number: its digits, with a leading minus
/// for a negative one.
pub open spec fn spec_render_int(n: int) -> Seq<char> {
    if n < 0 {
        seq!['-'] + spec_digits(-n)
    } else {
        spec_digits(n)
    }
}

/// The numeric value of a digit string.
pub open spec fn spec_digits_val(s: Seq<char>) -> int
    decreases s.len(),
{
    if s.len() == 0 {
        0
    } else {
        spec_digits_val(s.drop_last()) * 10 + (s.last() as int - 48)
    }
}

/// Whether every character is a decimal digit.
pub open spec fn spec_all_digits(s: Seq<char>) -> bool {
    forall|i: int| 0 <= i < s.len() ==> '0' <= #[trigger] s[i] <= '9'
}

/// The strict parse of an unsigned decimal string: digits only, no
/// leading zero except for "0" itself.
pub open spec fn spec_parse_uint(s: Seq<char>) -> Option<int> {
    if s.len() == 0 || !spec_all_digits(s) {
        Option::None
    } else if s[0] == '0' && s.len() > 1 {
        Option::None
    } else {
        Option::Some(spec_digits_val(s))
    }
}

/// The strict parse of a signed decimal string: an optional minus (never
/// before zero) followed by a strict unsigned number.
pub open spec fn spec_parse_int(s: Seq<char>) -> Option<int> {
    if s.len() > 0 && s[0] == '-' {
        match spec_parse_uint(s.drop_first()) {
            Option::Some(n) => if n > 0 {
                Option::Some(-n)
            } else {
                Option::None
            },
            Option::None => Option::None,
        }
    } else {
        spec_parse_uint(s)
    }
}

proof fn lemma_digits_props(n: int)
    requires
        n >= 0,
    ensures
        spec_digits(n).len() >= 1,
        spec_all_digits(spec_digits(n)),
        spec_digits_val(spec_digits(n)) == n,
        n > 0 ==> spec_digits(n)[0] != '0',
        n == 0 ==> spec_digits(n) =~= seq!['0'],
    decreases n,
{
    if n < 10 {
        assert(spec_digits(n) =~= seq![spec_digit_char(n)]);
        assert(spec_digits(n).drop_last() =~= Seq::<char>::empty());
        assert(spec_digit_char(n) as int == 48 + n);
        assert('0' <= spec_digit_char(n) <= '9') by {
            assert(spec_digit_char(n) as int == 48 + n);
        }
        assert(spec_digits_val(Seq::<char>::empty()) == 0);
        assert(spec_digits(n).last() == spec_digit_char(n));
        assert(spec_digits_val(spec_digits(n)) == 0 * 10 + (spec_digit_char(n) as int - 48));
    } else {
        lemma_digits_props(n / 10);
        let s = spec_digits(n);
        assert(s =~= spec_digits(n / 10) + seq![spec_digit_char(n % 10)]);
        assert(s.drop_last() =~= spec_digits(n / 10));
        assert(spec_digit_char(n % 10) as int == 48 + n % 10);
        assert('0' <= spec_digit_char(n % 10) <= '9');
        assert(spec_digits_val(s) == (n / 10) * 10 + n % 10);
        assert((n / 10) * 10 + n % 10 == n) by {
            vstd::arithmetic::div_mod::lemma_fundamental_div_mod(n, 10);
        }
        assert(s[0] == spec_digits(n / 10)[0]);
    }
}

/// Strict decimal parsing undoes decimal rendering: the rendering of any
/// number parses back to exactly that number.
pub proof fn lemma_decimal_round_trip(n: int)
    ensures
        spec_parse_int(spec_render_int(n)) == Option::Some(n),
{
    if n < 0 {
        lemma_digits_props(-n);
        let s = spec_render_int(n);
        assert(s =~= seq!['-'] + spec_digits(-n));
        assert(s[0] == '-');
        assert(s.drop_first() =~= spec_digits(-n));
        assert(spec_parse_uint(spec_digits(-n)) == Option::Some(-n));
    } else {
        lemma_digits_props(n);
        let s = spec_render_int(n);
        if n == 0 {
            assert(s =~= seq!['0']);
            assert(s[0] == '0');
            assert(s.len() == 1);
        } else {
            assert(s[0] != '0');
            assert(s[0] != '-');
        }
    }
}

/// Appends the digit character for `d`.
fn push_digit(s: &mut String, d: u64)
    requires
        d < 10,
    ensures
        final(s)@ == old(s)@ + seq![spec_digit_char(d as int)],
{
    if d == 0 {
        s.append("0");
        proof {
            reveal_strlit("0");
            assert("0"@ =~= seq![spec_digit_char(0)]);
        }
    } else if d == 1 {
        s.append("1");
        proof {
            reveal_strlit("1");
            assert("1"@ =~= seq![spec_digit_char(1)]);
        }
    } else if d == 2 {
        s.append("2");
        proof {
            reveal_strlit("2");
            assert("2"@ =~= seq![spec_digit_char(2)]);
        }
    } else if d == 3 {
        s.append("3");
        proof {
            reveal_strlit("3");
            assert("3"@ =~= seq![spec_digit_char(3)]);
        }
    } else if d == 4 {
        s.append("4");
        proof {
            reveal_strlit("4");
            assert("4"@ =~= seq![spec_digit_char(4)]);
        }
    } else if d == 5 {
        s.append("5");
        proof {
            reveal_strlit("5");
            assert("5"@ =~= seq![spec_digit_char(5)]);
        }
    } else if d == 6 {
        s.append("6");
        proof {
            reveal_strlit("6");
            assert("6"@ =~= seq![spec_digit_char(6)]);
        }
    } else if d == 7 {
        s.append("7");
        proof {
            reveal_strlit("7");
            assert("7"@ =~= seq![spec_digit_char(7)]);
        }
    } else if d == 8 {
        s.append("8");
        proof {
            reveal_strlit("8");
            assert("8"@ =~= seq![spec_digit_char(8)]);
        }
    } else {
        s.append("9");
        proof {
            reveal_strlit("9");
            assert("9"@ =~= seq![spec_digit_char(9)]);
        }
    }
}

/// Renders a number in decimal.
pub fn render_i64(n: i64) -> (r: String)
    ensures
        r@ == spec_render_int(n as int),
{
    let mut out = String::new();
    let mut m: u64;
    if n < 0 {
        out.append("-");
        proof {
            reveal_strlit("-");
            assert("-"@ =~= seq!['-']);
        }
        m = (-(n as i128)) as u64;
    } else {
        m = n as u64;
    }
    let ghost m0 = m as int;
    let mut rev: Vec<u64> = Vec::new();
    while m >= 10
        invariant
            m0 >= 0,
            m >= 0,
            forall|k: int| 0 <= k < rev@.len() ==> #[trigger] rev@[k] < 10,
            spec_digits(m0) =~= spec_digits(m as int) + spec_rev_digit_chars(rev@),
        decreases m,
    {
        let d = m % 10;
        let ghost rev_before = rev@;
        rev.push(d);
        proof {
            assert(spec_rev_digit_chars(rev@) =~= seq![spec_digit_char(d as int)]
                + spec_rev_digit_chars(rev_before));
            assert(spec_digits(m as int) =~= spec_digits(m as int / 10) + seq![
                spec_digit_char(m as int % 10),
            ]);
            assert(spec_digits(m as int) + spec_rev_digit_chars(rev_before) =~= spec_digits(
                (m / 10) as int,
            ) + spec_rev_digit_chars(rev@));
        }
        m = m / 10;
    }
    push_digit(&mut out, m);
    proof {
        assert(spec_digits(m as int) =~= seq![spec_digit_char(m as int)]);
    }
    let mut i: usize = rev.len();
    while i > 0
        invariant
            i <= rev@.len(),
            forall|k: int| 0 <= k < rev@.len() ==> #[trigger] rev@[k] < 10,
            out@ == (if n < 0 {
                seq!['-']
            } else {
                Seq::<char>::empty()
            }) + spec_digits(m0).take(spec_digits(m0).len() - i),
            spec_digits(m0).len() == 1 + rev@.len(),
            spec_digits(m0) =~= seq![spec_digit_char(m as int)] + spec_rev_digit_chars(rev@),
        decreases i,
    {
        i = i - 1;
        push_digit(&mut out, rev[i]);
        proof {
            let ds = spec_digits(m0);
            let pos = ds.len() - i - 1;
            assert(ds[pos as int] == spec_rev_digit_chars(rev@)[pos - 1]);
            assert(spec_rev_digit_chars(rev@)[pos - 1] == spec_digit_char(rev@[i as int] as int));
            assert(ds.take(ds.len() - i) =~= ds.take(pos as int).push(ds[pos as int]));
        }
    }
    proof {
        let ds = spec_digits(m0);
        assert(ds.take(ds.len() as int) =~= ds);
        if n < 0 {
            assert(out@ =~= seq!['-'] + spec_digits(-(n as int)));
        } else {
            assert(out@ =~= spec_digits(n as int));
        }
    }
    out
}

/// The digit characters of a reversed digit list, least significant
/// first in the list, so most significant first in the result.
pub open spec fn spec_rev_digit_chars(rev: Seq<u64>) -> Seq<char> {
    Seq::new(rev.len(), |i: int| spec_digit_char(rev[rev.len() - 1 - i] as int))
}

/// Parses a strict decimal string into a number, if it is one and fits.
#[verifier::loop_isolation(false)]
pub fn parse_i64(s: &str) -> (r: Option<i64>)
    ensures
        r == (match spec_parse_int(s@) {
            Option::Some(n) => if i64::MIN <= n <= i64::MAX {
                Option::Some(n as i64)
            } else {
                Option::None::<i64>
            },
            Option::None => Option::None::<i64>,
        }),
{
    let len = s.unicode_len();
    if len == 0 {
        return Option::None;
    }
    let neg = s.get_char(0) == '-';
    let start: usize = if neg {
        1
    } else {
        0
    };
    let ghost digits = if neg {
        s@.drop_first()
    } else {
        s@
    };
    if len == start {
        proof {
            if neg {
                assert(digits =~= Seq::<char>::empty());
            }
        }
        return Option::None;
    }
    let first = s.get_char(start);
    if first < '0' || first > '9' {
        proof {
            assert(digits[0] == s@[start as int]);
            assert(!spec_all_digits(digits));
        }
        return Option::None;
    }
    if first == '0' && len - start > 1 {
        proof {
            assert(digits[0] == '0' && digits.len() > 1);
        }
        return Option::None;
    }
    let mut acc: u128 = 0;
    let mut i: usize = start;
    while i < len
        invariant
            start <= i <= len,
            len == s@.len(),
            start == if neg {
                1int
            } else {
                0int
            },
            digits == (if neg {
                s@.drop_first()
            } else {
                s@
            }),
            spec_all_digits(digits.take(i - start)),
            acc as int == spec_digits_val(digits.take(i - start)),
            acc <= 0x8000_0000_0000_0000,
        decreases len - i,
    {
        let c = s.get_char(i);
        if c < '0' || c > '9' {
            proof {
                assert(digits[i - start] == s@[i as int]);
                assert(!spec_all_digits(digits));
            }
            return Option::None;
        }
        let d: u128 = ((c as u32) - 48) as u128;
        proof {
            assert(digits.take(i - start + 1).drop_last() =~= digits.take(i - start));
            assert(digits.take(i - start + 1).last() == digits[i - start]);
            assert(digits[i - start] == s@[i as int]);
            assert(d as int == s@[i as int] as int - 48);
        }
        acc = acc * 10 + d;
        i = i + 1;
        if acc > 0x8000_0000_0000_0000 {
            proof {
                assert(digits.take(digits.len() as int) =~= digits);
                if spec_all_digits(digits) {
                    lemma_val_prefix_le(digits, i - start);
                    if digits[0] == '0' && digits.len() > 1 {
                        assert(spec_parse_uint(digits) is None);
                    } else {
                        assert(spec_digits_val(digits) >= acc as int > i64::MAX);
                        if neg {
                            assert(spec_parse_int(s@) == (if spec_digits_val(digits) > 0 {
                                Option::Some(-spec_digits_val(digits))
                            } else {
                                Option::None::<int>
                            }));
                            assert(-spec_digits_val(digits) < i64::MIN);
                        }
                    }
                }
            }
            return Option::None;
        }
    }
    proof {
        assert(digits.take(digits.len() as int) =~= digits);
        assert(spec_parse_uint(digits) == Option::Some(spec_digits_val(digits)));
    }
    if neg {
        if acc == 0 {
            return Option::None;
        }
        if acc > 0x8000_0000_0000_0000 {
            return Option::None;
        }
        proof {
            assert(spec_parse_int(s@) == Option::Some(-(acc as int)));
        }
        Option::Some((-(acc as i128)) as i64)
    } else {
        if acc > 0x7FFF_FFFF_FFFF_FFFF {
            return Option::None;
        }
        Option::Some(acc as i64)
    }
}

proof fn lemma_val_prefix_le(s: Seq<char>, i: int)
    requires
        0 <= i <= s.len(),
        spec_all_digits(s),
    ensures
        spec_digits_val(s.take(i)) <= spec_digits_val(s),
        spec_digits_val(s) >= 0,
    decreases s.len() - i,
{
    if i == s.len() {
        assert(s.take(i) =~= s);
        lemma_val_nonneg(s);
    } else {
        lemma_val_prefix_le(s, i + 1);
        lemma_val_nonneg(s.take(i));
        assert(s.take(i + 1).drop_last() =~= s.take(i));
        assert(s.take(i + 1).last() == s[i]);
        assert(spec_digits_val(s.take(i + 1)) == spec_digits_val(s.take(i)) * 10 + (s[i] as int
            - 48));
        assert(spec_digits_val(s.take(i)) * 10 >= spec_digits_val(s.take(i))) by (nonlinear_arith)
            requires
                spec_digits_val(s.take(i)) >= 0,
        ;
    }
}

proof fn lemma_val_nonneg(s: Seq<char>)
    requires
        spec_all_digits(s),
    ensures
        spec_digits_val(s) >= 0,
    decreases s.len(),
{
    if s.len() > 0 {
        assert(spec_all_digits(s.drop_last())) by {
            assert(forall|k: int| 0 <= k < s.len() - 1 ==> s.drop_last()[k] == s[k]);
        }
        lemma_val_nonneg(s.drop_last());
        assert(spec_digits_val(s.drop_last()) * 10 >= 0) by (nonlinear_arith)
            requires
                spec_digits_val(s.drop_last()) >= 0,
        ;
    }
}

} // verus!
