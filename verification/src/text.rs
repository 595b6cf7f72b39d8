use vstd::prelude::*;

verus! {

/// The decimal digit for `d` (`d < 10`).
pub open spec fn digit_char(d: nat) -> char {
    (48 + d) as char
}

/// The decimal text of `n`, without leading zeros.
pub open spec fn nat_text(n: nat) -> Seq<char>
    decreases n,
{
    if n < 10 {
        seq![digit_char(n)]
    } else {
        nat_text(n / 10).push(digit_char(n % 10))
    }
}

/// The decimal text of `v`, with a leading `-` when it is negative.
pub open spec fn int_text(v: int) -> Seq<char> {
    if v < 0 {
        seq!['-'] + nat_text((-v) as nat)
    } else {
        nat_text(v as nat)
    }
}

/// `t` followed by as many spaces as make it `width` characters long.
pub open spec fn pad_right(t: Seq<char>, width: nat) -> Seq<char> {
    if t.len() >= width {
        t
    } else {
        t + Seq::new((width - t.len()) as nat, |i: int| ' ')
    }
}

fn digit_str(d: u64) -> (s: &'static str)
    requires
        d < 10,
    ensures
        s@ == seq![digit_char(d as nat)],
{
    proof {
        reveal_strlit("0");
        reveal_strlit("1");
        reveal_strlit("2");
        reveal_strlit("3");
        reveal_strlit("4");
        reveal_strlit("5");
        reveal_strlit("6");
        reveal_strlit("7");
        reveal_strlit("8");
        reveal_strlit("9");
    }
    if d == 0 {
        assert("0"@ =~= seq![digit_char(0)]);
        "0"
    } else if d == 1 {
        assert("1"@ =~= seq![digit_char(1)]);
        "1"
    } else if d == 2 {
        assert("2"@ =~= seq![digit_char(2)]);
        "2"
    } else if d == 3 {
        assert("3"@ =~= seq![digit_char(3)]);
        "3"
    } else if d == 4 {
        assert("4"@ =~= seq![digit_char(4)]);
        "4"
    } else if d == 5 {
        assert("5"@ =~= seq![digit_char(5)]);
        "5"
    } else if d == 6 {
        assert("6"@ =~= seq![digit_char(6)]);
        "6"
    } else if d == 7 {
        assert("7"@ =~= seq![digit_char(7)]);
        "7"
    } else if d == 8 {
        assert("8"@ =~= seq![digit_char(8)]);
        "8"
    } else {
        assert("9"@ =~= seq![digit_char(9)]);
        "9"
    }
}

/// Appends the decimal text of `n` to `s`.
fn append_nat_text(s: &mut String, n: u64)
    ensures
        final(s)@ == old(s)@ + nat_text(n as nat),
    decreases n,
{
    if n >= 10 {
        append_nat_text(s, n / 10);
    }
    s.append(digit_str(n % 10));
    proof {
        if n >= 10 {
            assert(final(s)@ =~= old(s)@ + nat_text(n as nat));
        } else {
            assert(final(s)@ =~= old(s)@ + nat_text(n as nat));
        }
    }
}

/// The decimal text of `v`.
pub fn i64_text(v: i64) -> (s: String)
    ensures
        s@ == int_text(v as int),
{
    let mut s = String::new();
    if v < 0 {
        s.append("-");
        proof {
            reveal_strlit("-");
        }
        let magnitude: u64 = if v == i64::MIN {
            9223372036854775808u64
        } else {
            (-v) as u64
        };
        append_nat_text(&mut s, magnitude);
        assert(s@ =~= seq!['-'] + nat_text((-v) as nat));
    } else {
        append_nat_text(&mut s, v as u64);
        assert(s@ =~= nat_text(v as nat));
    }
    s
}

/// The decimal text of `v`.
pub fn usize_text(v: usize) -> (s: String)
    ensures
        s@ == nat_text(v as nat),
{
    let mut s = String::new();
    append_nat_text(&mut s, v as u64);
    assert(s@ =~= nat_text(v as nat));
    s
}

/// `t` padded with spaces on the right to `width` characters.
pub fn padded_right(t: String, width: usize) -> (s: String)
    ensures
        s@ == pad_right(t@, width as nat),
{
    let mut s = t;
    let ghost orig = s@;
    let mut n = s.as_str().unicode_len();
    while n < width
        invariant
            orig.len() <= n <= width || (n == orig.len() && n >= width),
            s@ == orig + Seq::new((n - orig.len()) as nat, |i: int| ' '),
        decreases width - n,
    {
        s.append(" ");
        proof {
            reveal_strlit(" ");
        }
        n = n + 1;
        assert(s@ =~= orig + Seq::new((n - orig.len()) as nat, |i: int| ' '));
    }
    assert(s@ =~= pad_right(orig, width as nat));
    s
}

} // verus!
