//! Character-level text building: decimal numerals and zero padding.
use vstd::prelude::*;

verus! {

/// The ASCII digit character for `d` (`d < 10`).
pub open spec fn digit_char(d: nat) -> char {
    (48 + d) as char
}

/// The decimal numeral of `n`, without sign or leading zeros.
pub open spec fn decimal(n: nat) -> Seq<char>
    decreases n,
{
    if n < 10 {
        seq![digit_char(n)]
    } else {
        decimal(n / 10).push(digit_char(n % 10))
    }
}

/// `width - s.len()` zeros in front of `s` (none when `s` is already that long).
pub open spec fn pad_zeros(s: Seq<char>, width: nat) -> Seq<char> {
    if s.len() >= width {
        s
    } else {
        Seq::new((width - s.len()) as nat, |_i: int| '0') + s
    }
}

/// The decimal numeral of `n`, zero-padded to at least `width` digits.
pub open spec fn padded_decimal(n: nat, width: nat) -> Seq<char> {
    pad_zeros(decimal(n), width)
}

/// The decimal numeral of a signed integer: a leading `-` for negatives.
pub open spec fn signed_decimal(n: int) -> Seq<char> {
    if n < 0 {
        seq!['-'] + decimal((-n) as nat)
    } else {
        decimal(n as nat)
    }
}

/// Appends one character to a string.
#[verifier::external_body]
pub fn push_char(s: &mut String, c: char)
    ensures
        final(s)@ == old(s)@.push(c),
{
    s.push(c);
}

/// The digit character for `d`.
pub fn digit(d: u8) -> (c: char)
    requires
        d < 10,
    ensures
        c == digit_char(d as nat),
{
    (d + 48) as char
}

/// Appends the decimal numeral of `n`.
pub fn push_decimal(s: &mut String, n: u128)
    ensures
        final(s)@ == old(s)@ + decimal(n as nat),
    decreases n,
{
    if n >= 10 {
        push_decimal(s, n / 10);
    }
    let d = (n % 10) as u8;
    push_char(s, digit(d));
    assert(n >= 10 ==> decimal(n as nat) == decimal((n / 10) as nat).push(digit_char((n % 10) as nat)));
}


/// How many zeros `padded_decimal(n, width)` puts in front, for widths up to 4.
pub fn zeros_needed(n: u128, width: usize) -> (r: usize)
    requires
        width <= 4,
    ensures
        r == (if decimal(n as nat).len() >= width { 0 } else { width - decimal(n as nat).len() }),
{
    proof {
        reveal_with_fuel(decimal, 4);
        if n >= 1000 {
            lemma_decimal_len_at_least((n / 1000) as nat);
            assert(decimal(n as nat).len() == decimal((n / 10) as nat).len() + 1);
            assert(decimal((n / 10) as nat).len() == decimal((n / 100) as nat).len() + 1);
            assert((n / 10) / 10 == n / 100);
            assert(decimal((n / 100) as nat).len() == decimal((n / 1000) as nat).len() + 1);
            assert((n / 100) / 10 == n / 1000);
        }
    }
    let digits: usize = if n < 10 {
        1
    } else if n < 100 {
        2
    } else if n < 1000 {
        3
    } else {
        4
    };
    if digits >= width {
        0
    } else {
        width - digits
    }
}

/// Every numeral has at least one digit.
pub proof fn lemma_decimal_len_at_least(n: nat)
    ensures
        decimal(n).len() >= 1,
    decreases n,
{
    if n >= 10 {
        lemma_decimal_len_at_least(n / 10);
    }
}

/// Appends `count` zeros.
pub fn push_zeros(s: &mut String, count: usize)
    ensures
        final(s)@ == old(s)@ + Seq::new(count as nat, |_i: int| '0'),
{
    let mut i: usize = 0;
    while i < count
        invariant
            i <= count,
            s@ == old(s)@ + Seq::new(i as nat, |_i: int| '0'),
        decreases count - i,
    {
        push_char(s, '0');
        i = i + 1;
        assert(s@ =~= old(s)@ + Seq::new(i as nat, |_i: int| '0'));
    }
}

/// Appends the decimal numeral of `n` zero-padded to at least `width` digits.
pub fn push_padded_decimal(s: &mut String, n: u128, width: usize)
    requires
        width <= 4,
    ensures
        final(s)@ == old(s)@ + padded_decimal(n as nat, width as nat),
{
    let zeros = zeros_needed(n, width);
    push_zeros(s, zeros);
    push_decimal(s, n);
    assert(s@ =~= old(s)@ + padded_decimal(n as nat, width as nat));
}

/// Appends the decimal numeral of a signed integer.
pub fn push_signed_decimal(s: &mut String, n: i128)
    requires
        n > i128::MIN,
    ensures
        final(s)@ == old(s)@ + signed_decimal(n as int),
{
    if n < 0 {
        push_char(s, '-');
        push_decimal(s, (-n) as u128);
        assert(s@ =~= old(s)@ + signed_decimal(n as int));
    } else {
        push_decimal(s, n as u128);
    }
}

/// Do the two strings hold the same characters?
pub fn str_eq(a: &str, b: &str) -> (r: bool)
    ensures
        r == (a@ == b@),
{
    let n = a.unicode_len();
    if n != b.unicode_len() {
        return false;
    }
    let mut i: usize = 0;
    while i < n
        invariant
            n == a@.len(),
            n == b@.len(),
            i <= n,
            forall|j: int| 0 <= j < i ==> a@[j] == b@[j],
        decreases n - i,
    {
        if a.get_char(i) != b.get_char(i) {
            return false;
        }
        i = i + 1;
    }
    assert(a@ =~= b@);
    true
}

/// The texts of a list of strings.
pub open spec fn names_of(list: Seq<String>) -> Seq<Seq<char>> {
    list.map_values(|w: String| w@)
}

/// The items of `list` with `sep` between each two.
pub open spec fn joined(list: Seq<Seq<char>>, sep: Seq<char>) -> Seq<char>
    decreases list.len(),
{
    if list.len() == 0 {
        Seq::empty()
    } else if list.len() == 1 {
        list[0]
    } else {
        joined(list.drop_last(), sep) + sep + list.last()
    }
}

/// Each item of `list` on a line of its own, indented by two spaces.
pub open spec fn indented_lines(list: Seq<Seq<char>>) -> Seq<char>
    decreases list.len(),
{
    if list.len() == 0 {
        Seq::empty()
    } else {
        indented_lines(list.drop_last()) + "\n  "@ + list.last()
    }
}

/// Appends the items of `list` with `sep` between each two.
pub fn push_joined(s: &mut String, list: &Vec<String>, sep: &str)
    ensures
        final(s)@ == old(s)@ + joined(names_of(list@), sep@),
{
    let ghost names = names_of(list@);
    let mut i: usize = 0;
    proof {
        assert(names.take(0) =~= Seq::<Seq<char>>::empty());
        assert(s@ =~= old(s)@ + joined(names.take(0), sep@));
    }
    while i < list.len()
        invariant
            i <= list.len(),
            names == names_of(list@),
            s@ == old(s)@ + joined(names.take(i as int), sep@),
        decreases list.len() - i,
    {
        proof {
            assert(names.take(i + 1).drop_last() =~= names.take(i as int));
            assert(names.take(i + 1).last() == list[i as int]@);
        }
        if i > 0 {
            s.append(sep);
        }
        s.append(list[i].as_str());
        proof {
            if i == 0 {
                assert(names.take(1).len() == 1);
            }
            assert(s@ =~= old(s)@ + joined(names.take(i + 1), sep@));
        }
        i = i + 1;
    }
    proof {
        assert(names.take(list.len() as int) =~= names);
    }
}

/// Appends each item of `list` on a line of its own, indented by two spaces.
pub fn push_indented_lines(s: &mut String, list: &Vec<String>)
    ensures
        final(s)@ == old(s)@ + indented_lines(names_of(list@)),
{
    let ghost names = names_of(list@);
    let mut i: usize = 0;
    proof {
        assert(names.take(0) =~= Seq::<Seq<char>>::empty());
        assert(s@ =~= old(s)@ + indented_lines(names.take(0)));
    }
    while i < list.len()
        invariant
            i <= list.len(),
            names == names_of(list@),
            s@ == old(s)@ + indented_lines(names.take(i as int)),
        decreases list.len() - i,
    {
        proof {
            assert(names.take(i + 1).drop_last() =~= names.take(i as int));
            assert(names.take(i + 1).last() == list[i as int]@);
        }
        s.append("\n  ");
        s.append(list[i].as_str());
        proof {
            assert(s@ =~= old(s)@ + indented_lines(names.take(i + 1)));
        }
        i = i + 1;
    }
    proof {
        assert(names.take(list.len() as int) =~= names);
    }
}

} // verus!
