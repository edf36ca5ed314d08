//! Laws of the text functions, each stated by what a result must satisfy.
use vstd::prelude::*;

use crate::text::{
    decimal_of, digits_of, has_prefix, is_white_space, lemma_position, lemma_position_is_first,
    lemma_trim_chars, lower_of, position_of, split_of, split_once_of, trim_end_of, trim_of,
    trim_start_of,
};

verus! {

/// Whether all characters of a text are white space.
pub open spec fn is_blank(s: Seq<char>) -> bool {
    forall|i: int| 0 <= i < s.len() ==> is_white_space(#[trigger] s[i])
}

/// Whether a text is empty or begins and ends with other characters than white space.
pub open spec fn is_tight(s: Seq<char>) -> bool {
    s.len() > 0 ==> !is_white_space(s[0]) && !is_white_space(s[s.len() - 1])
}

proof fn lemma_trim_start_blank(blank: Seq<char>, rest: Seq<char>)
    requires
        is_blank(blank),
    ensures
        trim_start_of(blank + rest) == trim_start_of(rest),
    decreases blank.len(),
{
    if blank.len() == 0 {
        assert(blank + rest =~= rest);
    } else {
        assert((blank + rest)[0] == blank[0]);
        assert((blank + rest).drop_first() =~= blank.drop_first() + rest);
        lemma_trim_start_blank(blank.drop_first(), rest);
    }
}

proof fn lemma_trim_end_blank(rest: Seq<char>, blank: Seq<char>)
    requires
        is_blank(blank),
    ensures
        trim_end_of(rest + blank) == trim_end_of(rest),
    decreases blank.len(),
{
    if blank.len() == 0 {
        assert(rest + blank =~= rest);
    } else {
        assert((rest + blank).last() == blank[blank.len() - 1]);
        assert((rest + blank).drop_last() =~= rest + blank.drop_last());
        lemma_trim_end_blank(rest, blank.drop_last());
    }
}

/// Trimming takes away the white space around a text and nothing else: it gives back any text
/// that does not begin or end with white space, whatever blanks stand before and behind it.
pub proof fn law_trim_gives_back(before: Seq<char>, text: Seq<char>, behind: Seq<char>)
    requires
        is_blank(before),
        is_blank(behind),
        is_tight(text),
    ensures
        trim_of(before + text + behind) == text,
{
    assert(before + text + behind =~= before + (text + behind));
    lemma_trim_start_blank(before, text + behind);
    if text.len() == 0 {
        assert(text + behind =~= behind + text);
        lemma_trim_start_blank(behind, text);
        assert(trim_start_of(text) =~= text);
        assert(trim_end_of(text) =~= text);
    } else {
        assert((text + behind)[0] == text[0]);
        lemma_trim_end_blank(text, behind);
    }
}

/// What trimming gives is tight.
pub proof fn law_trimmed_is_tight(text: Seq<char>)
    ensures
        is_tight(trim_of(text)),
{
    lemma_trim_chars(text);
}

/// Making letters small changes the letters `A` to `Z` into `a` to `z`, each in its place, and
/// no other character.
pub proof fn law_lower_letters(s: Seq<char>)
    ensures
        lower_of(s).len() == s.len(),
        forall|i: int|
            0 <= i < s.len() ==> (#[trigger] lower_of(s)[i]) as int == if 65 <= s[i] as int <= 90 {
                s[i] as int + 32
            } else {
                s[i] as int
            },
{
}

/// A text is parted at the first `c`: the parts, with the `c` between them, are the text, and
/// there is none in the part before it. A text is not parted if and only if it has no `c`.
pub proof fn law_split_once_parts(s: Seq<char>, c: char)
    ensures
        match split_once_of(s, c) {
            Some((before, behind)) => s == before + seq![c] + behind && !before.contains(c),
            None => true,
        },
        split_once_of(s, c) is Some <==> s.contains(c),
{
    lemma_position_is_first(s, c);
    let i = position_of(s, c) as int;
    if i < s.len() {
        assert(s[i] == c);
        assert(s =~= s.take(i) + seq![c] + s.skip(i + 1));
    }
}

/// Wherever the first `c` stands, a text is parted there.
pub proof fn law_split_once_finds(before: Seq<char>, c: char, behind: Seq<char>)
    requires
        !before.contains(c),
    ensures
        split_once_of(before + seq![c] + behind, c) == Some((before, behind)),
{
    let s = before + seq![c] + behind;
    assert forall|k: int| 0 <= k < before.len() implies s[k] != c by {
        assert(before.contains(before[k]));
    }
    lemma_position(s, c, before.len() as int);
    assert(s.take(before.len() as int) =~= before);
    assert(s.skip(before.len() as int + 1) =~= behind);
}

/// Pieces with a `c` between each and the next.
pub open spec fn rejoined(pieces: Seq<Seq<char>>, c: char) -> Seq<char>
    decreases pieces.len(),
{
    if pieces.len() == 0 {
        Seq::empty()
    } else if pieces.len() == 1 {
        pieces[0]
    } else {
        pieces[0] + seq![c] + rejoined(pieces.drop_first(), c)
    }
}

/// Splitting loses nothing and leaves no `c`: the pieces, with a `c` between them, are the text,
/// and none of them holds one.
pub proof fn law_split_rejoins(s: Seq<char>, c: char)
    ensures
        split_of(s, c).len() > 0,
        rejoined(split_of(s, c), c) == s,
        forall|i: int|
            0 <= i < split_of(s, c).len() ==> !(#[trigger] split_of(s, c)[i]).contains(c),
    decreases s.len(),
{
    law_split_once_parts(s, c);
    match split_once_of(s, c) {
        Some((before, behind)) => {
            law_split_rejoins(behind, c);
            let rest = split_of(behind, c);
            let all = split_of(s, c);
            assert(all == seq![before] + rest);
            assert(all.drop_first() =~= rest);
            assert(all[0] == before);
            assert forall|i: int| 0 <= i < all.len() implies !(#[trigger] all[i]).contains(c) by {
                if i > 0 {
                    assert(all[i] == rest[i - 1]);
                }
            }
        },
        None => {},
    }
}

/// A text begins with another one if and only if it is that one with something behind it.
pub proof fn law_prefix(s: Seq<char>, prefix: Seq<char>)
    ensures
        has_prefix(s, prefix) <==> exists|rest: Seq<char>| s == #[trigger] (prefix + rest),
{
    if has_prefix(s, prefix) {
        assert(s =~= prefix + s.skip(prefix.len() as int));
    }
    if exists|rest: Seq<char>| s == #[trigger] (prefix + rest) {
        let rest = choose|rest: Seq<char>| s == #[trigger] (prefix + rest);
        assert(s.take(prefix.len() as int) =~= prefix);
    }
}

/// The number that decimal digits stand for.
pub open spec fn digits_value(digits: Seq<char>) -> int
    decreases digits.len(),
{
    if digits.len() == 0 {
        0
    } else {
        10 * digits_value(digits.drop_last()) + (digits[digits.len() - 1] as int - 48)
    }
}

/// A number in decimal is made of digits, does not begin with a zero unless it is one, and
/// stands for the number.
pub proof fn law_digits_stand_for_number(n: nat)
    ensures
        digits_of(n).len() > 0,
        digits_value(digits_of(n)) == n,
        forall|i: int| 0 <= i < digits_of(n).len() ==> '0' <= #[trigger] digits_of(n)[i] <= '9',
        n > 0 ==> digits_of(n)[0] != '0',
    decreases n,
{
    let digits = digits_of(n);
    let digit = (('0' as u32) + n % 10) as char;
    assert('0' as u32 == 48);
    assert(digit as int == 48 + n % 10);
    if n < 10 {
        assert(digits.drop_last() =~= Seq::empty());
        assert(digits_value(digits.drop_last()) == 0);
    } else {
        law_digits_stand_for_number(n / 10);
        assert(digits == digits_of(n / 10).push(digit));
        assert(digits.drop_last() =~= digits_of(n / 10));
        assert(digits[0] == digits_of(n / 10)[0]);
    }
}

/// A negative number has a minus sign before its digits, and no other number has one.
pub proof fn law_decimal_sign(i: int)
    ensures
        i >= 0 ==> digits_value(decimal_of(i)) == i && decimal_of(i)[0] != '-',
        i < 0 ==> decimal_of(i)[0] == '-' && digits_value(decimal_of(i).drop_first()) == -i
            && decimal_of(i)[1] != '0',
{
    if i >= 0 {
        law_digits_stand_for_number(i as nat);
        assert('0' <= digits_of(i as nat)[0]);
    } else {
        law_digits_stand_for_number((-i) as nat);
        assert(decimal_of(i).drop_first() =~= digits_of((-i) as nat));
    }
}

} // verus!
