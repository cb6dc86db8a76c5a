use vstd::prelude::*;

verus! {

/// The decimal digits of `v`.
pub open spec fn decimal(v: nat) -> Seq<char>
    decreases v,
{
    if v < 10 {
        seq![(48 + v) as char]
    } else {
        decimal(v / 10).push((48 + v % 10) as char)
    }
}

/// The digit `d` as text.
pub(crate) fn digit_text(d: u8) -> (s: &'static str)
    requires
        d < 10,
    ensures
        s@ == seq![(48 + d) as char],
{
    proof {
        reveal_strlit("0");
        reveal_strlit("1");
        reveal_strlit("2");
        reveal_strlit("3");
        reveal_strlit("4");
        reveal_strlit("5");
        reveal_strlit("6");
        reveal_strlit("7");
        reveal_strlit("8");
        reveal_strlit("9");
    }
    let s = match d {
        0 => "0",
        1 => "1",
        2 => "2",
        3 => "3",
        4 => "4",
        5 => "5",
        6 => "6",
        7 => "7",
        8 => "8",
        _ => "9",
    };
    assert(s@ =~= seq![(48 + d) as char]);
    s
}

/// Appends the decimal digits of `v` to `out`.
pub(crate) fn push_decimal(out: &mut String, v: u32)
    ensures
        final(out)@ == old(out)@ + decimal(v as nat),
    decreases v,
{
    if v >= 10 {
        push_decimal(out, v / 10);
    }
    out.append(digit_text((v % 10) as u8));
    proof {
        if v >= 10 {
            assert(decimal(v as nat) == decimal((v / 10) as nat).push((48 + v % 10) as char));
        }
        assert(final(out)@ =~= old(out)@ + decimal(v as nat));
    }
}

} // verus!
