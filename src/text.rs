use vstd::prelude::*;

verus! {

/// The decimal digit character for `d < 10`.
pub open spec fn spec_digit(d: nat) -> char {
    ((d + 48) as u8) as char
}

/// The decimal representation of `n`, without leading zeros.
pub open spec fn spec_decimal(n: nat) -> Seq<char>
    decreases n,
{
    if n < 10 {
        seq![spec_digit(n)]
    } else {
        spec_decimal(n / 10).push(spec_digit(n % 10))
    }
}

/// `s` preceded by as many `fill` characters as make it `width` long.
pub open spec fn spec_pad_left(s: Seq<char>, width: nat, fill: char) -> Seq<char> {
    if s.len() >= width {
        s
    } else {
        Seq::new((width - s.len()) as nat, |i: int| fill) + s
    }
}

/// `s` followed by as many spaces as make it `width` long.
pub open spec fn spec_pad_right(s: Seq<char>, width: nat) -> Seq<char> {
    if s.len() >= width {
        s
    } else {
        s + Seq::new((width - s.len()) as nat, |i: int| ' ')
    }
}

fn digit_text(d: usize) -> (r: &'static str)
    requires
        d < 10,
    ensures
        r@ == seq![spec_digit(d as nat)],
{
    proof {
        reveal_strlit("0");
        reveal_strlit("1");
        reveal_strlit("2");
        reveal_strlit("3");
        reveal_strlit("4");
        reveal_strlit("5");
        reveal_strlit("6");
        reveal_strlit("7");
        reveal_strlit("8");
        reveal_strlit("9");
    }
    let r = match d {
        0 => "0",
        1 => "1",
        2 => "2",
        3 => "3",
        4 => "4",
        5 => "5",
        6 => "6",
        7 => "7",
        8 => "8",
        _ => "9",
    };
    assert(r@ =~= seq![spec_digit(d as nat)]);
    r
}

/// Appends the decimal representation of `n`.
pub fn push_decimal(out: &mut String, n: usize)
    ensures
        final(out)@ == old(out)@ + spec_decimal(n as nat),
    decreases n,
{
    if n >= 10 {
        push_decimal(out, n / 10);
    }
    out.append(digit_text(n % 10));
    assert(out@ =~= old(out)@ + spec_decimal(n as nat));
}

/// Appends `s` preceded by as many `fill` characters as make it `width`
/// long.
pub fn push_padded_left(out: &mut String, s: &str, width: usize, fill: &str)
    requires
        fill@.len() == 1,
    ensures
        final(out)@ == old(out)@ + spec_pad_left(s@, width as nat, fill@[0]),
{
    let len = s.unicode_len();
    let mut i: usize = len;
    while i < width
        invariant
            len == s@.len(),
            len <= i,
            len <= width ==> i <= width,
            width < len ==> i == len,
            fill@.len() == 1,
            out@ == old(out)@ + Seq::new((i - len) as nat, |k: int| fill@[0]),
        decreases width - i,
    {
        out.append(fill);
        i = i + 1;
        assert(out@ =~= old(out)@ + Seq::new((i - len) as nat, |k: int| fill@[0]));
    }
    let ghost pad = Seq::new((i - len) as nat, |k: int| fill@[0]);
    out.append(s);
    proof {
        if len >= width {
            assert(pad =~= Seq::<char>::empty());
            assert(old(out)@ + pad =~= old(out)@);
        } else {
            assert(i == width);
        }
        assert(out@ =~= old(out)@ + (pad + s@));
    }
}

/// Appends `s` followed by as many spaces as make it `width` long.
pub fn push_padded_right(out: &mut String, s: &str, width: usize)
    ensures
        final(out)@ == old(out)@ + spec_pad_right(s@, width as nat),
{
    out.append(s);
    let len = s.unicode_len();
    let mut i: usize = len;
    proof {
        reveal_strlit(" ");
    }
    while i < width
        invariant
            len == s@.len(),
            len <= i,
            len <= width ==> i <= width,
            width < len ==> i == len,
            " "@ == seq![' '],
            out@ == old(out)@ + s@ + Seq::new((i - len) as nat, |k: int| ' '),
        decreases width - i,
    {
        out.append(" ");
        i = i + 1;
        assert(out@ =~= old(out)@ + s@ + Seq::new((i - len) as nat, |k: int| ' '));
    }
    proof {
        let pad = Seq::new((i - len) as nat, |k: int| ' ');
        if len >= width {
            assert(pad =~= Seq::<char>::empty());
            assert(old(out)@ + s@ + pad =~= old(out)@ + s@);
        } else {
            assert(i == width);
        }
        assert(out@ =~= old(out)@ + (s@ + pad));
    }
}

/// Whether `s` and `t` hold the same characters.
pub fn text_is(s: &str, t: &str) -> (r: bool)
    ensures
        r == (s@ == t@),
{
    let n = s.unicode_len();
    if n != t.unicode_len() {
        return false;
    }
    let mut i: usize = 0;
    while i < n
        invariant
            n == s@.len(),
            n == t@.len(),
            i <= n,
            s@.subrange(0, i as int) == t@.subrange(0, i as int),
        decreases n - i,
    {
        if s.get_char(i) != t.get_char(i) {
            return false;
        }
        assert(s@.subrange(0, i + 1) =~= s@.subrange(0, i as int).push(s@[i as int]));
        assert(t@.subrange(0, i + 1) =~= t@.subrange(0, i as int).push(t@[i as int]));
        i = i + 1;
    }
    assert(s@ =~= s@.subrange(0, n as int));
    assert(t@ =~= t@.subrange(0, n as int));
    true
}

} // verus!
