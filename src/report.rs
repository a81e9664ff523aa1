use vstd::prelude::*;

verus! {

/// The character of a decimal digit.
pub open spec fn digit_char(d: nat) -> char {
    if d == 0 {
        '0'
    } else if d == 1 {
        '1'
    } else if d == 2 {
        '2'
    } else if d == 3 {
        '3'
    } else if d == 4 {
        '4'
    } else if d == 5 {
        '5'
    } else if d == 6 {
        '6'
    } else if d == 7 {
        '7'
    } else if d == 8 {
        '8'
    } else {
        '9'
    }
}

/// The decimal form of `n`, without leading zeros.
pub open spec fn decimal(n: nat) -> Seq<char>
    decreases n,
{
    if n < 10 {
        seq![digit_char(n)]
    } else {
        decimal(n / 10).push(digit_char(n % 10))
    }
}

/// Each value in decimal on a line of its own, every line ending in a
/// newline.
pub open spec fn lines_of(vals: Seq<u64>) -> Seq<char>
    decreases vals.len(),
{
    if vals.len() == 0 {
        Seq::empty()
    } else {
        lines_of(vals.drop_last()) + decimal(vals.last() as nat).push('\n')
    }
}

/// Relies on `String::push`: appends one character.
#[verifier::external_body]
fn push_char(s: &mut String, c: char)
    ensures
        final(s)@ == old(s)@.push(c),
{
    s.push(c)
}

fn digit_of(d: u64) -> (r: char)
    requires
        d < 10,
    ensures
        r == digit_char(d as nat),
{
    if d == 0 {
        '0'
    } else if d == 1 {
        '1'
    } else if d == 2 {
        '2'
    } else if d == 3 {
        '3'
    } else if d == 4 {
        '4'
    } else if d == 5 {
        '5'
    } else if d == 6 {
        '6'
    } else if d == 7 {
        '7'
    } else if d == 8 {
        '8'
    } else {
        '9'
    }
}

/// Appends the decimal form of `v` to `s`.
pub fn push_decimal(s: &mut String, v: u64)
    ensures
        final(s)@ == old(s)@ + decimal(v as nat),
    decreases v,
{
    if v >= 10 {
        push_decimal(s, v / 10);
    }
    let c = digit_of(v % 10);
    push_char(s, c);
    proof {
        if v < 10 {
            assert(decimal(v as nat) == seq![digit_char(v as nat)]);
        }
    }
    assert(s@ =~= old(s)@ + decimal(v as nat));
}

/// Each value in decimal on a line of its own.
pub fn u64s_to_string(input: &[u64]) -> (r: String)
    ensures
        r@ == lines_of(input@),
{
    let mut s = String::new();
    let mut i: usize = 0;
    assert(input@.subrange(0, 0) =~= Seq::<u64>::empty());
    while i < input.len()
        invariant
            i <= input@.len(),
            s@ == lines_of(input@.subrange(0, i as int)),
        decreases input@.len() - i,
    {
        let ghost pre = input@.subrange(0, i as int);
        push_decimal(&mut s, input[i]);
        push_char(&mut s, '\n');
        i = i + 1;
        assert(input@.subrange(0, i as int).drop_last() =~= pre);
        assert(s@ =~= lines_of(input@.subrange(0, i as int)));
    }
    assert(input@.subrange(0, input@.len() as int) =~= input@);
    s
}

} // verus!
