//! A starting hand given as a comma-separated list of card codes.
use crate::collect::{collect, lemma_collect_all_ok, lemma_collect_err_sticks};
use crate::error::ParseError;
use crate::text::chars_of;
use vstd::prelude::*;

verus! {

/// The value of a decimal digit character.
pub open spec fn digit_value(c: char) -> Option<nat> {
    if '0' <= c && c <= '9' {
        Some((c as nat - 48) as nat)
    } else {
        None
    }
}

/// The number whose decimal digits are `ds`, read after `acc`: the first character that is
/// not a digit is an error, and so is a value past `u32::MAX`.
pub open spec fn spec_digits(ds: Seq<char>, acc: nat) -> Result<u32, ParseError>
    decreases ds.len(),
{
    if ds.len() == 0 {
        Ok(acc as u32)
    } else {
        match digit_value(ds[0]) {
            None => Err(ParseError::InvalidDigit),
            Some(d) => if acc * 10 + d > u32::MAX {
                Err(ParseError::NumberOverflow)
            } else {
                spec_digits(ds.drop_first(), acc * 10 + d)
            },
        }
    }
}

/// The `u32` written in `s`, as the standard library reads one: decimal digits with an
/// optional leading `+`; an empty text, a lone sign or any other character is refused.
pub open spec fn spec_parse_u32(s: Seq<char>) -> Result<u32, ParseError> {
    if s.len() == 0 {
        Err(ParseError::EmptyNumber)
    } else if s.len() == 1 && (s[0] == '+' || s[0] == '-') {
        Err(ParseError::InvalidDigit)
    } else if s[0] == '+' {
        spec_digits(s.drop_first(), 0)
    } else {
        spec_digits(s, 0)
    }
}

/// The pieces of `s` between the separators `sep`, in order; a text without separator is
/// one piece, and the empty text is one empty piece.
pub open spec fn split_on(s: Seq<char>, sep: char) -> Seq<Seq<char>>
    decreases s.len(),
{
    if s.len() == 0 {
        seq![Seq::empty()]
    } else {
        let init = split_on(s.drop_last(), sep);
        if s.last() == sep {
            init.push(Seq::empty())
        } else {
            init.update(init.len() - 1, init.last().push(s.last()))
        }
    }
}

/// Every split has at least one piece.
pub proof fn lemma_split_nonempty(s: Seq<char>, sep: char)
    ensures
        split_on(s, sep).len() >= 1,
    decreases s.len(),
{
    if s.len() > 0 {
        lemma_split_nonempty(s.drop_last(), sep);
    }
}

/// Reads the `u32` written in `s`, as [`spec_parse_u32`] says.
pub fn parse_u32(s: &Vec<char>) -> (r: Result<u32, ParseError>)
    ensures
        r == spec_parse_u32(s@),
{
    let n = s.len();
    if n == 0 {
        return Err(ParseError::EmptyNumber);
    }
    if n == 1 && (s[0] == '+' || s[0] == '-') {
        return Err(ParseError::InvalidDigit);
    }
    let mut i: usize = if s[0] == '+' {
        1
    } else {
        0
    };
    let ghost start = i as int;
    let mut acc: u32 = 0;
    proof {
        assert(s@.drop_first() =~= s@.skip(1));
        assert(s@ =~= s@.skip(0));
    }
    while i < n
        invariant
            n == s@.len(),
            start <= i <= n,
            spec_parse_u32(s@) == spec_digits(s@.skip(i as int), acc as nat),
            start == 0 ==> s@ == s@.skip(0),
            start == 1 ==> s@.drop_first() == s@.skip(1),
        decreases n - i,
    {
        proof {
            assert(s@.skip(i as int).drop_first() =~= s@.skip(i + 1));
        }
        let c = s[i];
        if !('0' <= c && c <= '9') {
            return Err(ParseError::InvalidDigit);
        }
        let d = (c as u32) - 48;
        if acc > 429496729 || (acc == 429496729 && d > 5) {
            return Err(ParseError::NumberOverflow);
        }
        acc = acc * 10 + d;
        i = i + 1;
    }
    Ok(acc)
}

/// Splits `s` at every `sep`, as [`split_on`] says.
pub fn split_chars(s: &Vec<char>, sep: char) -> (pieces: Vec<Vec<char>>)
    ensures
        pieces@.len() == split_on(s@, sep).len(),
        forall|j: int| 0 <= j < pieces@.len() ==> #[trigger] pieces@[j]@ == split_on(s@, sep)[j],
{
    let n = s.len();
    let mut pieces: Vec<Vec<char>> = Vec::new();
    let mut current: Vec<char> = Vec::new();
    let mut i: usize = 0;
    while i < n
        invariant
            n == s@.len(),
            i <= n,
            pieces@.len() + 1 == split_on(s@.take(i as int), sep).len(),
            forall|j: int|
                0 <= j < pieces@.len() ==> #[trigger] pieces@[j]@ == split_on(
                    s@.take(i as int),
                    sep,
                )[j],
            current@ == split_on(s@.take(i as int), sep).last(),
        decreases n - i,
    {
        proof {
            assert(s@.take(i + 1).drop_last() =~= s@.take(i as int));
            lemma_split_nonempty(s@.take(i as int), sep);
        }
        let c = s[i];
        if c == sep {
            pieces.push(current);
            current = Vec::new();
        } else {
            current.push(c);
        }
        i = i + 1;
    }
    pieces.push(current);
    proof {
        assert(s@.take(n as int) =~= s@);
    }
    pieces
}

/// The codes written in `s`, by piece.
pub open spec fn hand_codes(s: Seq<char>) -> spec_fn(nat) -> Result<u32, ParseError> {
    |j: nat| spec_parse_u32(split_on(s, ',')[j as int])
}

/// The codes of a comma-separated list, or the error of the first piece that is not a code.
pub open spec fn spec_custom_hand(s: Seq<char>) -> Result<Seq<u32>, ParseError> {
    collect(split_on(s, ',').len(), hand_codes(s))
}

/// A starting hand: card codes, in order.
#[derive(Debug, Clone, PartialEq, Eq, PartialOrd, Ord, Hash)]
pub struct CustomHand(pub Vec<u32>);

impl CustomHand {
    /// Reads the comma-separated codes of `value`; every piece, empty ones included, must be a
    /// `u32` in decimal.
    pub fn try_from(value: String) -> (r: Result<CustomHand, ParseError>)
        ensures
            match r {
                Ok(h) => spec_custom_hand(value@) == Ok::<Seq<u32>, ParseError>(h.0@),
                Err(e) => spec_custom_hand(value@) == Err::<Seq<u32>, ParseError>(e),
            },
    {
        let chars = chars_of(value.as_str());
        let pieces = split_chars(&chars, ',');
        let ghost f = hand_codes(value@);
        let n = pieces.len();
        let mut parsed_values: Vec<u32> = Vec::new();
        let mut i: usize = 0;
        while i < n
            invariant
                n == pieces@.len(),
                n == split_on(value@, ',').len(),
                chars@ == value@,
                forall|j: int|
                    0 <= j < pieces@.len() ==> #[trigger] pieces@[j]@ == split_on(value@, ',')[j],
                f == hand_codes(value@),
                i <= n,
                collect(i as nat, f) == Ok::<Seq<u32>, ParseError>(parsed_values@),
            decreases n - i,
        {
            assert(pieces@[i as int]@ == split_on(value@, ',')[i as int]);
            match parse_u32(&pieces[i]) {
                Ok(code) => {
                    parsed_values.push(code);
                    proof {
                        assert(parsed_values@ =~= collect(i as nat, f)->Ok_0.push(code));
                    }
                },
                Err(e) => {
                    proof {
                        lemma_collect_err_sticks((i + 1) as nat, n as nat, f);
                    }
                    return Err(e);
                },
            }
            i = i + 1;
        }
        Ok(CustomHand(parsed_values))
    }
}


proof fn lemma_digits_push(s: Seq<char>, c: char, acc: nat, v: u32, d: nat)
    requires
        acc <= u32::MAX,
        spec_digits(s, acc) == Ok::<u32, ParseError>(v),
        digit_value(c) == Some(d),
        v * 10 + d <= u32::MAX,
    ensures
        spec_digits(s.push(c), acc) == Ok::<u32, ParseError>((v * 10 + d) as u32),
    decreases s.len(),
{
    if s.len() == 0 {
        reveal_with_fuel(spec_digits, 2);
        assert(s.push(c)[0] == c);
        assert(s.push(c).drop_first() =~= Seq::<char>::empty());
        assert(v == acc);
    } else {
        let d0 = digit_value(s[0])->Some_0;
        assert(s.push(c)[0] == s[0]);
        assert(s.push(c).drop_first() =~= s.drop_first().push(c));
        lemma_digits_push(s.drop_first(), c, acc * 10 + d0, v, d);
    }
}

/// A number written in decimal reads back as that number: the text of a code, as the hand
/// query writes it, parses to the code.
pub proof fn lemma_decimal_parses(n: u32)
    ensures
        spec_parse_u32(crate::text::decimal(n as nat)) == Ok::<u32, ParseError>(n),
{
    let s = crate::text::decimal(n as nat);
    lemma_decimal_digits(n as nat);
    assert(s[0] != '+' && s[0] != '-');
}

proof fn lemma_decimal_digits(n: nat)
    requires
        n <= u32::MAX,
    ensures
        spec_digits(crate::text::decimal(n), 0) == Ok::<u32, ParseError>(n as u32),
        crate::text::decimal(n).len() > 0,
        '0' <= crate::text::decimal(n)[0] <= '9',
    decreases n,
{
    let d = n % 10;
    assert(digit_value(crate::text::digit_char(d)) == Some(d));
    if n < 10 {
        reveal_with_fuel(spec_digits, 2);
        assert(seq![crate::text::digit_char(n)].drop_first() =~= Seq::<char>::empty());
        assert(crate::text::decimal(n)[0] == crate::text::digit_char(n));
    } else {
        lemma_decimal_digits(n / 10);
        assert(crate::text::decimal(n) == crate::text::decimal(n / 10).push(crate::text::digit_char(d)));
        assert(crate::text::decimal(n)[0] == crate::text::decimal(n / 10)[0]);
        assert((n / 10) * 10 + d == n);
        lemma_digits_push(crate::text::decimal(n / 10), crate::text::digit_char(d), 0, (n / 10) as u32, d);
    }
}


/// The texts of `pieces` with `sep` between each two.
pub open spec fn joined(pieces: Seq<Seq<char>>, sep: char) -> Seq<char>
    decreases pieces.len(),
{
    if pieces.len() == 0 {
        Seq::empty()
    } else if pieces.len() == 1 {
        pieces[0]
    } else {
        joined(pieces.drop_last(), sep).push(sep) + pieces.last()
    }
}

proof fn lemma_split_extend(a: Seq<char>, t: Seq<char>, sep: char)
    requires
        forall|i: int| 0 <= i < t.len() ==> t[i] != sep,
    ensures
        split_on(a + t, sep) == split_on(a, sep).update(
            split_on(a, sep).len() - 1,
            split_on(a, sep).last() + t,
        ),
    decreases t.len(),
{
    lemma_split_nonempty(a, sep);
    let p = split_on(a, sep);
    if t.len() == 0 {
        assert(a + t =~= a);
        assert(p.last() + t =~= p.last());
        assert(p.update(p.len() - 1, p.last()) =~= p);
    } else {
        let t0 = t.drop_last();
        lemma_split_extend(a, t0, sep);
        lemma_split_nonempty(a + t0, sep);
        assert((a + t).drop_last() =~= a + t0);
        assert((a + t).last() == t.last());
        let q = split_on(a + t0, sep);
        assert(q.last() == p.last() + t0);
        assert(q.last().push(t.last()) =~= p.last() + t);
        assert(q.update(q.len() - 1, q.last().push(t.last())) =~= p.update(
            p.len() - 1,
            p.last() + t,
        ));
    }
}

/// Splitting pieces joined by a separator that none of them holds gives the pieces back.
pub proof fn lemma_split_joined(pieces: Seq<Seq<char>>, sep: char)
    requires
        pieces.len() >= 1,
        forall|i: int, j: int|
            0 <= i < pieces.len() && 0 <= j < pieces[i].len() ==> #[trigger] pieces[i][j] != sep,
    ensures
        split_on(joined(pieces, sep), sep) == pieces,
    decreases pieces.len(),
{
    if pieces.len() == 1 {
        let e = Seq::<char>::empty();
        lemma_split_extend(e, pieces[0], sep);
        assert(e + pieces[0] =~= pieces[0]);
        assert(seq![e].update(0, e + pieces[0]) =~= pieces);
    } else {
        let init = pieces.drop_last();
        lemma_split_joined(init, sep);
        let a = joined(init, sep).push(sep);
        assert(a.drop_last() =~= joined(init, sep));
        assert(pieces.last() == pieces[pieces.len() - 1]);
        lemma_split_extend(a, pieces.last(), sep);
        let p = split_on(a, sep);
        assert(p =~= init.push(Seq::empty()));
        assert(Seq::<char>::empty() + pieces.last() =~= pieces.last());
        assert(p.update(p.len() - 1, p.last() + pieces.last()) =~= pieces);
    }
}

proof fn lemma_decimal_all_digits(n: nat)
    ensures
        forall|j: int|
            0 <= j < crate::text::decimal(n).len() ==> '0' <= #[trigger] crate::text::decimal(
                n,
            )[j] <= '9',
    decreases n,
{
    let d = crate::text::digit_char(n % 10);
    assert('0' <= d <= '9');
    if n >= 10 {
        lemma_decimal_all_digits(n / 10);
        let init = crate::text::decimal(n / 10);
        assert(crate::text::decimal(n) == init.push(d));
        assert forall|j: int| 0 <= j < crate::text::decimal(n).len() implies '0'
            <= #[trigger] crate::text::decimal(n)[j] <= '9' by {
            if j < init.len() {
                assert(crate::text::decimal(n)[j] == init[j]);
            }
        }
    } else {
        assert(crate::text::decimal(n) == seq![d]);
    }
}

/// Codes written in decimal and joined by commas read back as those codes: a starting hand
/// written from the codes the hand query gives is read as the same hand (when it holds at
/// least one card).
pub proof fn lemma_custom_hand_reads_decimal_codes(codes: Seq<u32>)
    requires
        codes.len() >= 1,
    ensures
        spec_custom_hand(joined(codes.map_values(|c: u32| crate::text::decimal(c as nat)), ','))
            == Ok::<Seq<u32>, ParseError>(codes),
{
    let pieces = codes.map_values(|c: u32| crate::text::decimal(c as nat));
    assert forall|i: int, j: int|
        0 <= i < pieces.len() && 0 <= j < pieces[i].len() implies #[trigger] pieces[i][j]
        != ',' by {
        lemma_decimal_all_digits(codes[i] as nat);
        assert('0' <= pieces[i][j] <= '9');
    }
    lemma_split_joined(pieces, ',');
    let s = joined(pieces, ',');
    let f = hand_codes(s);
    assert forall|j: nat| j < codes.len() implies #[trigger] f(j) == Ok::<u32, ParseError>(
        codes[j as int],
    ) by {
        lemma_decimal_parses(codes[j as int]);
        assert(split_on(s, ',')[j as int] == pieces[j as int]);
    }
    lemma_collect_all_ok(codes.len(), f, codes);
}

} // verus!
