//! Numbers as decimal text, and sequences joined with a separator.

use vstd::prelude::*;

verus! {

/// Appends one character: `String::push` adds `c` behind what the string held.
pub assume_specification[ String::push ](s: &mut String, c: char)
    ensures
        final(s)@ == old(s)@.push(c),
;

/// The character of a decimal digit.
pub open spec fn digit(d: int) -> char {
    (48 + d) as char
}

/// A natural number in base ten, without leading zeros.
pub open spec fn decimal_nat(n: nat) -> Seq<char>
    decreases n,
{
    if n < 10 {
        seq![digit(n as int)]
    } else {
        decimal_nat(n / 10).push(digit((n % 10) as int))
    }
}

/// An integer in base ten, with a minus sign if it is negative.
pub open spec fn decimal(n: int) -> Seq<char> {
    if n < 0 {
        seq!['-'] + decimal_nat((-n) as nat)
    } else {
        decimal_nat(n as nat)
    }
}

/// The number that a sequence of decimal digits stands for.
pub open spec fn decimal_value(text: Seq<char>) -> int
    decreases text.len(),
{
    if text.len() == 0 {
        0
    } else {
        10 * decimal_value(text.drop_last()) + (text.last() as int - 48)
    }
}

/// Reading the decimal text of a number gives the number back, so different numbers have
/// different texts.
pub proof fn decimal_nat_reads_back(n: nat)
    ensures
        decimal_value(decimal_nat(n)) == n,
    decreases n,
{
    if n < 10 {
        let text = decimal_nat(n);
        assert(text.drop_last() =~= Seq::<char>::empty());
        assert(decimal_value(text.drop_last()) == 0);
    } else {
        decimal_nat_reads_back(n / 10);
        assert(decimal_nat(n).drop_last() =~= decimal_nat(n / 10));
    }
}

/// How the text of an integer is made up: the text of a digit is that digit, one more digit
/// behind a number that is not zero is one more character behind its text, and a negative number
/// is the positive one behind a minus sign.
pub proof fn decimal_grows_by_digits(n: int, d: int)
    requires
        0 <= d < 10,
    ensures
        decimal(d) == seq![('0' as int + d) as char],
        n > 0 ==> decimal(10 * n + d) == decimal(n).push(('0' as int + d) as char),
        n > 0 ==> decimal(-n) == seq!['-'] + decimal(n),
{
    if n > 0 {
        let whole = (10 * n + d) as nat;
        assert(whole / 10 == n as nat && whole % 10 == d) by (nonlinear_arith)
            requires
                whole == 10 * n + d,
                0 <= d < 10,
                n > 0,
        ;
    }
}

/// The text of an integer holds digits only, but for the minus sign in front of a negative one,
/// and no digit too many: only the text of zero begins with a zero.
pub proof fn decimal_has_only_digits(n: int)
    ensures
        decimal(n).len() > 0,
        (decimal(n)[0] == '-') == (n < 0),
        (decimal(n)[0] == '0') == (n == 0),
        n >= 0 ==> forall|i: int|
            0 <= i < decimal(n).len() ==> '0' <= #[trigger] decimal(n)[i] <= '9',
        forall|i: int| 0 < i < decimal(n).len() ==> '0' <= #[trigger] decimal(n)[i] <= '9',
{
    if n < 0 {
        lemma_nat_has_only_digits((-n) as nat);
        let digits = decimal_nat((-n) as nat);
        assert forall|i: int| 0 < i < decimal(n).len() implies '0' <= #[trigger] decimal(n)[i]
            <= '9' by {
            assert(decimal(n)[i] == digits[i - 1]);
        }
    } else {
        lemma_nat_has_only_digits(n as nat);
    }
}

proof fn lemma_nat_has_only_digits(n: nat)
    ensures
        decimal_nat(n).len() > 0,
        (decimal_nat(n)[0] == '0') == (n == 0),
        forall|i: int| 0 <= i < decimal_nat(n).len() ==> '0' <= #[trigger] decimal_nat(n)[i] <= '9',
    decreases n,
{
    if n >= 10 {
        lemma_nat_has_only_digits(n / 10);
    }
}

/// Different integers have different texts.
pub proof fn decimals_differ(a: int, b: int)
    requires
        decimal(a) == decimal(b),
    ensures
        a == b,
{
    decimal_has_only_digits(a);
    decimal_has_only_digits(b);
    if a < 0 {
        assert(decimal(a).drop_first() =~= decimal_nat((-a) as nat));
        assert(decimal(b).drop_first() =~= decimal_nat((-b) as nat));
        decimal_nat_reads_back((-a) as nat);
        decimal_nat_reads_back((-b) as nat);
    } else {
        decimal_nat_reads_back(a as nat);
        decimal_nat_reads_back(b as nat);
    }
}

/// The parts in order, with `sep` between each two neighbours.
pub open spec fn joined<T>(parts: Seq<Seq<T>>, sep: Seq<T>) -> Seq<T>
    decreases parts.len(),
{
    if parts.len() == 0 {
        Seq::empty()
    } else if parts.len() == 1 {
        parts[0]
    } else {
        parts[0] + sep + joined(parts.drop_first(), sep)
    }
}

/// How a joined text is made up: nothing gives nothing, one part is itself, and a part in front of
/// others stands in front of their text with one separator between.
pub proof fn joined_part_by_part<T>(first: Seq<T>, rest: Seq<Seq<T>>, sep: Seq<T>)
    ensures
        joined(Seq::<Seq<T>>::empty(), sep) == Seq::<T>::empty(),
        joined(seq![first], sep) == first,
        rest.len() > 0 ==> joined(seq![first] + rest, sep) == first + sep + joined(rest, sep),
{
    assert((seq![first] + rest).drop_first() =~= rest);
}

/// The pieces of `text` between the occurrences of `sep`.
pub open spec fn pieces_of<T>(text: Seq<T>, sep: T) -> Seq<Seq<T>>
    decreases text.len(),
{
    if text.len() == 0 {
        seq![Seq::empty()]
    } else {
        let rest = pieces_of(text.drop_first(), sep);
        if text[0] == sep {
            seq![Seq::empty()] + rest
        } else {
            seq![seq![text[0]] + rest[0]] + rest.drop_first()
        }
    }
}

proof fn lemma_pieces_exist<T>(text: Seq<T>, sep: T)
    ensures
        pieces_of(text, sep).len() > 0,
    decreases text.len(),
{
    if text.len() > 0 {
        lemma_pieces_exist(text.drop_first(), sep);
    }
}

proof fn lemma_first_piece<T>(first: Seq<T>, rest: Seq<T>, sep: T)
    requires
        !first.contains(sep),
    ensures
        pieces_of(first, sep) == seq![first],
        pieces_of(first + seq![sep] + rest, sep) == seq![first] + pieces_of(rest, sep),
    decreases first.len(),
{
    let text = first + seq![sep] + rest;
    if first.len() == 0 {
        assert(first =~= Seq::empty());
        assert(text.drop_first() =~= rest);
    } else {
        let tail = first.drop_first();
        assert(!tail.contains(sep)) by {
            if tail.contains(sep) {
                let i = choose|i: int| 0 <= i < tail.len() && tail[i] == sep;
                assert(first[i + 1] == sep);
            }
        }
        lemma_first_piece(tail, rest, sep);
        assert(first[0] != sep);
        assert(text.drop_first() =~= tail + seq![sep] + rest);
        assert(seq![first[0]] + tail =~= first);
        assert(pieces_of(first, sep) =~= seq![first]);
        assert(pieces_of(text, sep) =~= seq![first] + pieces_of(rest, sep));
    }
}

/// Parts that were joined are found again between the separators, all of them and in order, if
/// none of them holds the separator.
pub proof fn joined_parts_are_found_again<T>(parts: Seq<Seq<T>>, sep: T)
    requires
        parts.len() > 0,
        forall|i: int| 0 <= i < parts.len() ==> !(#[trigger] parts[i]).contains(sep),
    ensures
        pieces_of(joined(parts, seq![sep]), sep) == parts,
    decreases parts.len(),
{
    let rest = parts.drop_first();
    assert(parts =~= seq![parts[0]] + rest);
    if rest.len() == 0 {
        lemma_first_piece(parts[0], Seq::empty(), sep);
    } else {
        assert forall|i: int| 0 <= i < rest.len() implies !(#[trigger] rest[i]).contains(sep) by {
            assert(rest[i] == parts[i + 1]);
        }
        joined_parts_are_found_again(rest, sep);
        lemma_first_piece(parts[0], joined(rest, seq![sep]), sep);
    }
}

/// A digit as a character.
fn digit_char(d: u8) -> (c: char)
    requires
        d < 10,
    ensures
        c == digit(d as int),
{
    (48 + d) as char
}

/// Appends `n` in base ten.
pub fn push_decimal_unsigned(out: &mut String, n: u128)
    ensures
        final(out)@ == old(out)@ + decimal_nat(n as nat),
    decreases n,
{
    if n < 10 {
        out.push(digit_char(n as u8));
        assert(out@ =~= old(out)@ + decimal_nat(n as nat));
    } else {
        push_decimal_unsigned(out, n / 10);
        out.push(digit_char((n % 10) as u8));
        assert(out@ =~= old(out)@ + decimal_nat(n as nat));
    }
}

/// Appends `n` in base ten.
pub fn push_decimal(out: &mut String, n: i128)
    ensures
        final(out)@ == old(out)@ + decimal(n as int),
{
    if n < 0 {
        let magnitude: u128 = (-(n + 1)) as u128 + 1;
        out.push('-');
        push_decimal_unsigned(out, magnitude);
        assert(out@ =~= old(out)@ + decimal(n as int));
    } else {
        push_decimal_unsigned(out, n as u128);
    }
}

/// Joins the parts with `sep` between them.
pub fn join(parts: &Vec<String>, sep: &str) -> (r: String)
    ensures
        r@ == joined(parts.deep_view(), sep@),
{
    let ghost all = parts.deep_view();
    let mut out = String::new();
    let mut i: usize = 0;
    assert(all.skip(0) =~= all);
    while i < parts.len()
        invariant
            i <= parts.len(),
            all == parts.deep_view(),
            joined(all, sep@) == out@ + (if 0 < i < all.len() {
                sep@
            } else {
                Seq::empty()
            }) + joined(all.skip(i as int), sep@),
        decreases parts.len() - i,
    {
        if i > 0 {
            out.append(sep);
        }
        out.append(parts[i].as_str());
        proof {
            let rest = all.skip(i as int);
            assert(rest[0] == parts[i as int]@);
            assert(rest.drop_first() =~= all.skip(i + 1));
            if i + 1 < all.len() {
                assert(joined(all, sep@) =~= out@ + sep@ + joined(all.skip(i + 1), sep@));
            } else {
                assert(joined(all, sep@) =~= out@ + Seq::<char>::empty() + joined(
                    all.skip(i + 1),
                    sep@,
                ));
            }
        }
        i = i + 1;
    }
    assert(joined(all, sep@) =~= out@);
    out
}

} // verus!
