use vstd::prelude::*;

verus! {

/// Whether `c` is an ASCII decimal digit.
pub open spec fn is_digit(c: char) -> bool {
    '0' <= c && c <= '9'
}

/// The value of the digit `c`.
pub open spec fn digit_value(c: char) -> nat {
    (c as nat - '0' as nat) as nat
}

/// The digit that stands for `d < 10`.
pub open spec fn digit_char(d: nat) -> char {
    if d == 0 {
        '0'
    } else if d == 1 {
        '1'
    } else if d == 2 {
        '2'
    } else if d == 3 {
        '3'
    } else if d == 4 {
        '4'
    } else if d == 5 {
        '5'
    } else if d == 6 {
        '6'
    } else if d == 7 {
        '7'
    } else if d == 8 {
        '8'
    } else {
        '9'
    }
}

/// The number that a sequence of decimal digits writes, most significant first.
pub open spec fn digits_value(s: Seq<char>) -> nat
    decreases s.len(),
{
    if s.len() == 0 {
        0
    } else {
        digits_value(s.drop_last()) * 10 + digit_value(s.last())
    }
}

pub open spec fn all_digits(s: Seq<char>) -> bool {
    forall|i: int| 0 <= i < s.len() ==> is_digit(#[trigger] s[i])
}

/// What `str::parse::<u32>` accepts: an optional `+`, then one or more
/// decimal digits whose value fits in a `u32`.
pub open spec fn parse_u32(s: Seq<char>) -> Option<nat> {
    let body = if s.len() > 0 && s[0] == '+' {
        s.drop_first()
    } else {
        s
    };
    if body.len() > 0 && all_digits(body) && digits_value(body) <= u32::MAX {
        Some(digits_value(body))
    } else {
        None
    }
}

/// The number of a version string `v<N>`, or `None` where it is malformed.
pub open spec fn version_number(v: Seq<char>) -> Option<nat> {
    if v.len() > 0 && v[0] == 'v' {
        parse_u32(v.drop_first())
    } else {
        None
    }
}

/// The decimal writing of `n`, without leading zeros.
pub open spec fn decimal(n: nat) -> Seq<char>
    decreases n,
{
    if n < 10 {
        seq![digit_char(n)]
    } else {
        decimal(n / 10) + seq![digit_char(n % 10)]
    }
}

/// The version string `v<n>`.
pub open spec fn version_label(n: nat) -> Seq<char> {
    seq!['v'] + decimal(n)
}

pub proof fn lemma_decimal(n: nat)
    ensures
        decimal(n).len() > 0,
        all_digits(decimal(n)),
        digits_value(decimal(n)) == n,
    decreases n,
{
    if n < 10 {
        assert(seq![digit_char(n)].drop_last() =~= Seq::<char>::empty());
        assert(digit_value(digit_char(n)) == n);
        assert(decimal(n).last() == digit_char(n));
        assert(digits_value(decimal(n).drop_last()) == 0);
    } else {
        lemma_decimal(n / 10);
        let s = decimal(n / 10) + seq![digit_char(n % 10)];
        assert(s.drop_last() =~= decimal(n / 10));
        assert(s.last() == digit_char(n % 10));
        assert(digit_value(digit_char(n % 10)) == n % 10);
        assert(digits_value(s) == (n / 10) * 10 + n % 10);
        assert(decimal(n) == s);
        assert forall|i: int| 0 <= i < s.len() implies is_digit(#[trigger] s[i]) by {
            if i < decimal(n / 10).len() {
                assert(s[i] == decimal(n / 10)[i]);
            }
        }
    }
}

/// Reading back the label of a number gives that number.
pub proof fn lemma_version_label_number(n: nat)
    requires
        n <= u32::MAX,
    ensures
        version_number(version_label(n)) == Some(n),
{
    lemma_decimal(n);
    let l = version_label(n);
    assert(l.drop_first() =~= decimal(n));
    assert(is_digit(decimal(n)[0]));
}

/// Two numbers with the same label are equal.
pub proof fn lemma_version_label_injective(a: nat, b: nat)
    requires
        version_label(a) == version_label(b),
    ensures
        a == b,
{
    lemma_decimal(a);
    lemma_decimal(b);
    assert(version_label(a).drop_first() =~= decimal(a));
    assert(version_label(b).drop_first() =~= decimal(b));
}

/// The text of one digit.
fn digit_text(d: u64) -> (r: &'static str)
    requires
        d < 10,
    ensures
        r@ == seq![digit_char(d as nat)],
{
    proof {
        reveal_strlit("0");
        reveal_strlit("1");
        reveal_strlit("2");
        reveal_strlit("3");
        reveal_strlit("4");
        reveal_strlit("5");
        reveal_strlit("6");
        reveal_strlit("7");
        reveal_strlit("8");
        reveal_strlit("9");
    }
    match d {
        0 => "0",
        1 => "1",
        2 => "2",
        3 => "3",
        4 => "4",
        5 => "5",
        6 => "6",
        7 => "7",
        8 => "8",
        _ => "9",
    }
}

/// Appends the decimal writing of `n` to `s`.
fn push_decimal(s: &mut String, n: u64)
    ensures
        final(s)@ == old(s)@ + decimal(n as nat),
    decreases n,
{
    if n >= 10 {
        push_decimal(s, n / 10);
    }
    let d = digit_text(n % 10);
    s.append(d);
    proof {
        if n >= 10 {
            assert(final(s)@ =~= old(s)@ + decimal(n as nat));
        } else {
            assert(final(s)@ =~= old(s)@ + decimal(n as nat));
        }
    }
}

/// The decimal writing of `n`.
pub fn decimal_text(n: u64) -> (r: String)
    ensures
        r@ == decimal(n as nat),
{
    let mut s = String::new();
    push_decimal(&mut s, n);
    proof {
        assert(s@ =~= decimal(n as nat));
    }
    s
}

/// The version string `v<n>`.
pub fn format_version(n: u64) -> (r: String)
    ensures
        r@ == version_label(n as nat),
{
    proof {
        reveal_strlit("v");
    }
    let mut s = String::from_str("v");
    push_decimal(&mut s, n);
    proof {
        assert(s@ =~= version_label(n as nat));
    }
    s
}

/// The number of the version string `v`, as `str::parse::<u32>` reads what
/// follows the leading `v`; `None` where `v` is malformed.
pub fn parse_version_number(v: &str) -> (r: Option<u32>)
    ensures
        r matches Some(n) ==> version_number(v@) == Some(n as nat),
        r is None ==> version_number(v@) is None,
{
    let len = v.unicode_len();
    if len == 0 || v.get_char(0) != 'v' {
        return None;
    }
    let ghost rest = v@.drop_first();
    let mut start: usize = 1;
    if len > 1 && v.get_char(1) == '+' {
        start = 2;
    }
    let ghost body = v@.subrange(start as int, len as int);
    assert(body =~= (if rest.len() > 0 && rest[0] == '+' { rest.drop_first() } else { rest }));
    if start >= len {
        return None;
    }
    let mut value: u64 = 0;
    let mut i: usize = start;
    while i < len
        invariant
            start <= i <= len,
            len == v@.len(),
            body == v@.subrange(start as int, len as int),
            all_digits(v@.subrange(start as int, i as int)),
            value as nat == digits_value(v@.subrange(start as int, i as int)),
            value <= u32::MAX,
            version_number(v@) == parse_u32(v@.drop_first()),
            parse_u32(v@.drop_first()) == (if body.len() > 0 && all_digits(body) && digits_value(
                body,
            ) <= u32::MAX {
                Some(digits_value(body))
            } else {
                None
            }),
        decreases len - i,
    {
        let c = v.get_char(i);
        if c < '0' || c > '9' {
            proof {
                let j = i as int - start as int;
                assert(body[j] == c);
                assert(!is_digit(body[j]));
            }
            return None;
        }
        let d = (c as u32 - '0' as u32) as u64;
        proof {
            let p = v@.subrange(start as int, i as int + 1);
            assert(p.drop_last() =~= v@.subrange(start as int, i as int));
            assert(p.last() == c);
        }
        value = value * 10 + d;
        if value > u32::MAX as u64 {
            proof {
                let k = (i + 1 - start) as nat;
                assert(body.subrange(0, k as int) =~= v@.subrange(start as int, i as int + 1));
                if all_digits(body) {
                    lemma_digits_prefix_bound(body, k);
                }
            }
            return None;
        }
        i = i + 1;
    }
    assert(v@.subrange(start as int, len as int) =~= body);
    Some(value as u32)
}

/// A prefix of digits bounds the value of the whole sequence from below.
proof fn lemma_digits_prefix_bound(s: Seq<char>, k: nat)
    requires
        k <= s.len(),
        all_digits(s),
    ensures
        digits_value(s) >= digits_value(s.subrange(0, k as int)),
    decreases s.len(),
{
    if k < s.len() {
        assert(s.drop_last() =~= s.subrange(0, s.len() - 1));
        assert forall|i: int| 0 <= i < s.drop_last().len() implies is_digit(
            #[trigger] s.drop_last()[i],
        ) by {
            assert(s.drop_last()[i] == s[i]);
        }
        lemma_digits_prefix_bound(s.drop_last(), k);
        assert(s.drop_last().subrange(0, k as int) =~= s.subrange(0, k as int));
    } else {
        assert(s.subrange(0, k as int) =~= s);
    }
}

} // verus!
