use vstd::prelude::*;
use vstd::string::*;

verus! {

/// The decimal digit for `d < 10`.
pub open spec fn digit_char(d: nat) -> char {
    "0123456789"@[d as int]
}

/// The decimal digits of `n`, most significant first, without leading zeros.
pub open spec fn digits(n: nat) -> Seq<char>
    decreases n,
{
    if n < 10 {
        seq![digit_char(n)]
    } else {
        digits(n / 10) + seq![digit_char(n % 10)]
    }
}

/// `n` written in decimal, with a leading `-` when negative.
pub open spec fn decimal(n: int) -> Seq<char> {
    if n < 0 {
        seq!['-'] + digits((-n) as nat)
    } else {
        digits(n as nat)
    }
}

/// The window manager command that sets the opacity of window `id` to the
/// value written `opacity`.
pub open spec fn command_text(id: int, opacity: Seq<char>) -> Seq<char> {
    "[con_id=\""@ + decimal(id) + "\"] opacity "@ + opacity
}

fn push_digits(s: &mut String, n: u64)
    ensures
        final(s)@ == old(s)@ + digits(n as nat),
    decreases n,
{
    if n >= 10 {
        push_digits(s, n / 10);
    }
    let d: usize = (n % 10) as usize;
    proof {
        reveal_strlit("0123456789");
    }
    s.append("0123456789".substring_char(d, d + 1));
    proof {
        assert("0123456789"@.subrange(d as int, d + 1) =~= seq![digit_char(d as nat)]);
        assert(s@ =~= old(s)@ + digits(n as nat));
    }
}

/// Writes `id` in decimal.
pub fn decimal_text(id: i64) -> (r: String)
    ensures
        r@ == decimal(id as int),
{
    let mut s = String::new();
    if id < 0 {
        s.append("-");
        let magnitude: u64 = (-(id as i128)) as u64;
        push_digits(&mut s, magnitude);
        proof {
            reveal_strlit("-");
        }
    } else {
        push_digits(&mut s, id as u64);
    }
    s
}

/// The command that sets the opacity of window `node_id` to `opacity`, the
/// value as the window manager reads it.
pub fn opacity_command(node_id: i64, opacity: &str) -> (r: String)
    ensures
        r@ == command_text(node_id as int, opacity@),
{
    let mut s = String::from_str("[con_id=\"");
    let digits = decimal_text(node_id);
    s.append(digits.as_str());
    s.append("\"] opacity ");
    s.append(opacity);
    proof {
        reveal_strlit("[con_id=\"");
        reveal_strlit("\"] opacity ");
    }
    s
}

} // verus!
