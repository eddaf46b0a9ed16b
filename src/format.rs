use vstd::prelude::*;
use vstd::string::StringExecFns;

verus! {

pub open spec fn digit_char(d: int) -> char {
    seq!['0', '1', '2', '3', '4', '5', '6', '7', '8', '9'][d]
}

/// Decimal digits of `n`, most significant first, without leading zeros.
pub open spec fn digits(n: nat) -> Seq<char>
    decreases n,
{
    if n < 10 {
        seq![digit_char(n as int)]
    } else {
        digits(n / 10).push(digit_char((n % 10) as int))
    }
}

/// The decimals of `f` thousandths (`f < 1000`) after the point, trailing
/// zeros left out; nothing at all when `f` is zero.
pub open spec fn fraction_text(f: int) -> Seq<char> {
    if f == 0 {
        seq![]
    } else if f % 10 != 0 {
        seq!['.', digit_char(f / 100), digit_char(f / 10 % 10), digit_char(f % 10)]
    } else if f % 100 != 0 {
        seq!['.', digit_char(f / 100), digit_char(f / 10 % 10)]
    } else {
        seq!['.', digit_char(f / 100)]
    }
}

/// The shortest decimal writing of `n / 1000`.
pub open spec fn thousandths_text(n: int) -> Seq<char> {
    let a = if n < 0 { -n } else { n };
    let sign = if n < 0 { seq!['-'] } else { seq![] };
    sign + digits((a / 1000) as nat) + fraction_text(a % 1000)
}

fn digit_str(d: u64) -> (r: &'static str)
    requires
        d < 10,
    ensures
        r@ == seq![digit_char(d as int)],
{
    proof {
        reveal_strlit("0");
        reveal_strlit("1");
        reveal_strlit("2");
        reveal_strlit("3");
        reveal_strlit("4");
        reveal_strlit("5");
        reveal_strlit("6");
        reveal_strlit("7");
        reveal_strlit("8");
        reveal_strlit("9");
    }
    match d {
        0 => "0",
        1 => "1",
        2 => "2",
        3 => "3",
        4 => "4",
        5 => "5",
        6 => "6",
        7 => "7",
        8 => "8",
        _ => "9",
    }
}

fn push_digits(s: &mut String, n: u64)
    ensures
        final(s)@ == old(s)@ + digits(n as nat),
    decreases n,
{
    if n >= 10 {
        push_digits(s, n / 10);
    }
    let d = digit_str(n % 10);
    s.append(d);
    proof {
        if n >= 10 {
            assert(final(s)@ =~= old(s)@ + digits(n as nat));
        } else {
            assert(final(s)@ =~= old(s)@ + digits(n as nat));
        }
    }
}

/// Writes a value held in thousandths as a decimal, as a result rounded to
/// three places is shown: `1396` gives `1.396`, `4760` gives `4.76`,
/// `100000` gives `100`.
pub fn thousandths_to_string(n: i64) -> (r: String)
    ensures
        r@ == thousandths_text(n as int),
{
    let a: u64 = if n < 0 {
        (-(n as i128)) as u64
    } else {
        n as u64
    };
    let mut s = String::new();
    if n < 0 {
        s.append("-");
    }
    push_digits(&mut s, a / 1000);
    let f = a % 1000;
    if f != 0 {
        s.append(".");
        s.append(digit_str(f / 100));
        if f % 100 != 0 {
            s.append(digit_str(f / 10 % 10));
            if f % 10 != 0 {
                s.append(digit_str(f % 10));
            }
        }
    }
    proof {
        reveal_strlit("-");
        reveal_strlit(".");
        assert(s@ =~= thousandths_text(n as int));
    }
    s
}

} // verus!
