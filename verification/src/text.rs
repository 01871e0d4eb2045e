//! Verified text helpers: decimal rendering of integers and joining of
//! string sequences. Diagnostic messages are built from these, so their
//! exact contents can be stated in contracts.

use vstd::prelude::*;

verus! {

/// The character for a single decimal digit.
pub open spec fn digit_char(d: nat) -> char {
    if d == 0 {
        '0'
    } else if d == 1 {
        '1'
    } else if d == 2 {
        '2'
    } else if d == 3 {
        '3'
    } else if d == 4 {
        '4'
    } else if d == 5 {
        '5'
    } else if d == 6 {
        '6'
    } else if d == 7 {
        '7'
    } else if d == 8 {
        '8'
    } else {
        '9'
    }
}

/// The decimal digits of `n`, most significant first.
pub open spec fn spec_u64_digits(n: nat) -> Seq<char>
    decreases n,
{
    if n < 10 {
        seq![digit_char(n)]
    } else {
        spec_u64_digits(n / 10).push(digit_char(n % 10))
    }
}

/// The decimal rendering of a signed number: a minus sign followed by
/// the digits of the magnitude, or just the digits.
pub open spec fn spec_i64_digits(n: int) -> Seq<char> {
    if n < 0 {
        seq!['-'] + spec_u64_digits((-n) as nat)
    } else {
        spec_u64_digits(n as nat)
    }
}

/// A one-character string slice for a decimal digit.
fn digit_str(d: u64) -> (r: &'static str)
    requires
        d < 10,
    ensures
        r@ =~= seq![digit_char(d as nat)],
{
    let s: &'static str = if d == 0 {
        "0"
    } else if d == 1 {
        "1"
    } else if d == 2 {
        "2"
    } else if d == 3 {
        "3"
    } else if d == 4 {
        "4"
    } else if d == 5 {
        "5"
    } else if d == 6 {
        "6"
    } else if d == 7 {
        "7"
    } else if d == 8 {
        "8"
    } else {
        "9"
    };
    proof {
        reveal_strlit("0");
        reveal_strlit("1");
        reveal_strlit("2");
        reveal_strlit("3");
        reveal_strlit("4");
        reveal_strlit("5");
        reveal_strlit("6");
        reveal_strlit("7");
        reveal_strlit("8");
        reveal_strlit("9");
    }
    s
}

/// Renders `n` in decimal.
pub fn u64_to_string(n: u64) -> (r: String)
    ensures
        r@ == spec_u64_digits(n as nat),
    decreases n,
{
    if n < 10 {
        let r = digit_str(n).to_owned();
        proof {
            assert(r@ =~= spec_u64_digits(n as nat));
        }
        r
    } else {
        let mut s = u64_to_string(n / 10);
        s.append(digit_str(n % 10));
        proof {
            assert(s@ =~= spec_u64_digits(n as nat));
        }
        s
    }
}

/// Renders `n` in decimal, with a leading minus sign when negative.
pub fn i64_to_string(n: i64) -> (r: String)
    ensures
        r@ == spec_i64_digits(n as int),
{
    if n >= 0 {
        let r = u64_to_string(n as u64);
        r
    } else {
        let mag: u64 = ((-(n + 1)) as u64) + 1;
        proof {
            assert(mag == (-(n as int)) as nat);
        }
        let mut s = "-".to_owned();
        let digits = u64_to_string(mag);
        s.append(digits.as_str());
        proof {
            reveal_strlit("-");
            assert(s@ =~= spec_i64_digits(n as int));
        }
        s
    }
}

/// The concatenation of a prefix slice and a string.
pub fn concat_str(prefix: &str, rest: &String) -> (r: String)
    ensures
        r@ == prefix@ + rest@,
{
    let mut s: String = prefix.to_owned();
    s.append(rest.as_str());
    s
}

/// A prefix, a middle piece and a suffix, concatenated.
pub fn wrap_str(prefix: &str, middle: &str, suffix: &str) -> (r: String)
    ensures
        r@ == prefix@ + middle@ + suffix@,
{
    let mut s: String = prefix.to_owned();
    s.append(middle);
    s.append(suffix);
    s
}

/// The views of a sequence of strings.
pub open spec fn views_of(parts: Seq<String>) -> Seq<Seq<char>> {
    parts.map(|i: int, s: String| s@)
}

/// `parts` joined with `sep` between consecutive parts.
pub open spec fn spec_join(parts: Seq<Seq<char>>, sep: Seq<char>) -> Seq<char>
    decreases parts.len(),
{
    if parts.len() == 0 {
        Seq::empty()
    } else if parts.len() == 1 {
        parts[0]
    } else {
        parts[0] + sep + spec_join(parts.skip(1), sep)
    }
}

/// Appending one more part extends the join by a separator and the part.
pub proof fn lemma_join_push(parts: Seq<Seq<char>>, sep: Seq<char>, x: Seq<char>)
    ensures
        spec_join(parts.push(x), sep) == if parts.len() == 0 {
            x
        } else {
            spec_join(parts, sep) + sep + x
        },
    decreases parts.len(),
{
    if parts.len() == 0 {
        assert(parts.push(x).len() == 1);
        assert(parts.push(x)[0] == x);
    } else if parts.len() == 1 {
        assert(parts.push(x).skip(1) =~= seq![x]);
        assert(parts.push(x)[0] == parts[0]);
        assert(spec_join(seq![x], sep) == x);
    } else {
        assert(parts.push(x).skip(1) =~= parts.skip(1).push(x));
        lemma_join_push(parts.skip(1), sep, x);
        assert(parts.push(x)[0] == parts[0]);
        assert(spec_join(parts.push(x), sep) == parts[0] + sep + (spec_join(parts.skip(1), sep)
            + sep + x));
        assert(parts[0] + sep + (spec_join(parts.skip(1), sep) + sep + x) =~= (parts[0] + sep
            + spec_join(parts.skip(1), sep)) + sep + x);
    }
}

/// Joins the strings in `parts` with the separator `sep`.
pub fn join_strings(parts: &Vec<String>, sep: &str) -> (r: String)
    ensures
        r@ == spec_join(views_of(parts@), sep@),
{
    let mut out = String::new();
    let n = parts.len();
    let mut i: usize = 0;
    while i < n
        invariant
            n == parts@.len(),
            i <= n,
            out@ == spec_join(views_of(parts@).take(i as int), sep@),
        decreases n - i,
    {
        if i > 0 {
            out.append(sep);
        }
        out.append(parts[i].as_str());
        proof {
            let m = views_of(parts@);
            assert(m.take(i + 1) =~= m.take(i as int).push(m[i as int]));
            lemma_join_push(m.take(i as int), sep@, m[i as int]);
            assert(m.take(i as int).len() == i);
        }
        i += 1;
    }
    proof {
        assert(views_of(parts@).take(n as int) =~= views_of(parts@));
    }
    out
}

} // verus!
