//! Decimal rendering of integers and byte lists into strings.
use vstd::prelude::*;

verus! {

/// The decimal digit `d` as a character.
pub open spec fn digit_char(d: nat) -> char {
    seq!['0', '1', '2', '3', '4', '5', '6', '7', '8', '9'][d as int]
}

/// The decimal form of `n`, without sign or leading zeros.
pub open spec fn decimal(n: nat) -> Seq<char>
    decreases n,
{
    if n < 10 {
        seq![digit_char(n)]
    } else {
        decimal(n / 10).push(digit_char(n % 10))
    }
}

/// The bytes `bs` in decimal, separated by `", "`.
pub open spec fn joined(bs: Seq<u8>) -> Seq<char>
    decreases bs.len(),
{
    if bs.len() == 0 {
        Seq::empty()
    } else if bs.len() == 1 {
        decimal(bs[0] as nat)
    } else {
        joined(bs.drop_last()) + seq![',', ' '] + decimal(bs.last() as nat)
    }
}

/// The bytes `bs` as a bracketed list: `[144, 64, 127]`.
pub open spec fn byte_list(bs: Seq<u8>) -> Seq<char> {
    seq!['['] + joined(bs) + seq![']']
}

fn digit_str(d: u64) -> (r: &'static str)
    requires
        d < 10,
    ensures
        r@ == seq![digit_char(d as nat)],
{
    proof {
        reveal_strlit("0");
        reveal_strlit("1");
        reveal_strlit("2");
        reveal_strlit("3");
        reveal_strlit("4");
        reveal_strlit("5");
        reveal_strlit("6");
        reveal_strlit("7");
        reveal_strlit("8");
        reveal_strlit("9");
    }
    let r = if d == 0 {
        "0"
    } else if d == 1 {
        "1"
    } else if d == 2 {
        "2"
    } else if d == 3 {
        "3"
    } else if d == 4 {
        "4"
    } else if d == 5 {
        "5"
    } else if d == 6 {
        "6"
    } else if d == 7 {
        "7"
    } else if d == 8 {
        "8"
    } else {
        "9"
    };
    assert(r@ =~= seq![digit_char(d as nat)]);
    r
}

/// Appends the decimal form of `n` to `s`.
pub fn push_decimal(s: &mut String, n: u64)
    ensures
        final(s)@ == old(s)@ + decimal(n as nat),
    decreases n,
{
    if n >= 10 {
        push_decimal(s, n / 10);
    }
    let d = digit_str(n % 10);
    s.append(d);
    assert(s@ =~= old(s)@ + decimal(n as nat));
}

/// Appends the bracketed decimal list of `bs` to `s`.
pub fn push_byte_list(s: &mut String, bs: &[u8])
    ensures
        final(s)@ == old(s)@ + byte_list(bs@),
{
    proof {
        reveal_strlit("[");
    }
    assert("["@ =~= seq!['[']);
    s.append("[");
    let mut i: usize = 0;
    while i < bs.len()
        invariant
            i <= bs@.len(),
            s@ == old(s)@ + seq!['['] + joined(bs@.subrange(0, i as int)),
        decreases bs@.len() - i,
    {
        let ghost pre = bs@.subrange(0, i as int);
        let ghost next = bs@.subrange(0, i + 1);
        let ghost before = s@;
        if i > 0 {
            proof {
                reveal_strlit(", ");
            }
            assert(", "@ =~= seq![',', ' ']);
            s.append(", ");
            assert(s@ =~= before + seq![',', ' ']);
        }
        push_decimal(s, bs[i] as u64);
        assert(next.drop_last() =~= pre);
        assert(next.last() == bs@[i as int]);
        if i > 0 {
            assert(s@ =~= before + seq![',', ' '] + decimal(bs@[i as int] as nat));
            assert(joined(next) == joined(pre) + seq![',', ' '] + decimal(next.last() as nat));
        } else {
            assert(joined(pre) =~= Seq::<char>::empty());
        }
        assert(s@ =~= old(s)@ + seq!['['] + joined(next));
        i = i + 1;
    }
    proof {
        reveal_strlit("]");
    }
    assert("]"@ =~= seq![']']);
    s.append("]");
    assert(bs@.subrange(0, bs@.len() as int) =~= bs@);
    assert(s@ =~= old(s)@ + byte_list(bs@));
}

} // verus!
