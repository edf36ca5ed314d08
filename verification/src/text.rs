//! Text as sequences of characters: white space, trimming, splitting, comparison and
//! decimal numerals.
use vstd::prelude::*;
use vstd::string::*;
use vstd::utf8::*;

verus! {

/// `String::push`. Taken on trust: the character goes behind the text that is there.
pub assume_specification[ String::push ](s: &mut String, c: char)
    ensures
        final(s)@ == old(s)@.push(c),
;

/// The characters with the Unicode property White_Space.
pub open spec fn is_white_space(c: char) -> bool {
    let p = c as u32;
    ||| 0x9 <= p <= 0xd
    ||| p == 0x20
    ||| p == 0x85
    ||| p == 0xa0
    ||| p == 0x1680
    ||| 0x2000 <= p <= 0x200a
    ||| p == 0x2028
    ||| p == 0x2029
    ||| p == 0x202f
    ||| p == 0x205f
    ||| p == 0x3000
}

/// Whether a character is white space.
pub fn white_space(c: char) -> (r: bool)
    ensures
        r == is_white_space(c),
{
    let p: u32 = c as u32;
    (0x9 <= p && p <= 0xd) || p == 0x20 || p == 0x85 || p == 0xa0 || p == 0x1680 || (0x2000 <= p
        && p <= 0x200a) || p == 0x2028 || p == 0x2029 || p == 0x202f || p == 0x205f || p == 0x3000
}

/// The control characters: general category Cc.
pub open spec fn is_control(c: char) -> bool {
    c as u32 <= 0x1f || 0x7f <= c as u32 <= 0x9f
}

/// Whether a character is a control character.
pub fn control(c: char) -> (r: bool)
    ensures
        r == is_control(c),
{
    let p: u32 = c as u32;
    p <= 0x1f || (0x7f <= p && p <= 0x9f)
}

/// A character with the letters `A` to `Z` made small.
pub open spec fn ascii_lower(c: char) -> char {
    if 'A' <= c <= 'Z' {
        ((c as u32) + 32) as char
    } else {
        c
    }
}

/// A text with the letters `A` to `Z` made small.
pub open spec fn lower_of(s: Seq<char>) -> Seq<char> {
    s.map_values(|c: char| ascii_lower(c))
}

/// Makes a letter small.
pub fn lower_char(c: char) -> (r: char)
    ensures
        r == ascii_lower(c),
{
    if 'A' <= c && c <= 'Z' {
        (c as u8 + 32) as char
    } else {
        c
    }
}

/// The characters of a text, one by one.
pub fn chars_of(s: &str) -> (r: Vec<char>)
    ensures
        r@ == s@,
{
    let mut out: Vec<char> = Vec::new();
    for c in it: s.chars()
        invariant
            it.seq() == s@,
            out@ == s@.take(it.index() as int),
    {
        out.push(c);
    }
    out
}

/// Whether two texts are the same.
pub fn same_text(a: &str, b: &str) -> (r: bool)
    ensures
        r == (a@ == b@),
{
    proof {
        encode_utf8_decode_utf8(a@);
        encode_utf8_decode_utf8(b@);
    }
    let x: &[u8] = a.as_bytes();
    let y: &[u8] = b.as_bytes();
    if x.len() != y.len() {
        return false;
    }
    let mut i: usize = 0;
    while i < x.len()
        invariant
            i <= x@.len(),
            x@.len() == y@.len(),
            x@ == encode_utf8(a@),
            y@ == encode_utf8(b@),
            forall|k: int| 0 <= k < i ==> x@[k] == y@[k],
        decreases x@.len() - i,
    {
        if x[i] != y[i] {
            return false;
        }
        i = i + 1;
    }
    assert(x@ =~= y@);
    true
}

/// A text in which the letters `A` to `Z` are made small.
pub fn ascii_lowercase(s: &str) -> (r: String)
    ensures
        r@ == lower_of(s@),
{
    let mut out = String::new();
    for c in it: s.chars()
        invariant
            it.seq() == s@,
            out@ == lower_of(s@.take(it.index() as int)),
    {
        out.push(lower_char(c));
        assert(s@.take(it.index() + 1) =~= s@.take(it.index() as int).push(c));
        assert(out@ =~= lower_of(s@.take(it.index() + 1)));
    }
    assert(s@.take(s@.len() as int) =~= s@);
    out
}

/// A text without the white space at its start.
pub open spec fn trim_start_of(s: Seq<char>) -> Seq<char>
    decreases s.len(),
{
    if s.len() > 0 && is_white_space(s[0]) {
        trim_start_of(s.drop_first())
    } else {
        s
    }
}

/// A text without the white space at its end.
pub open spec fn trim_end_of(s: Seq<char>) -> Seq<char>
    decreases s.len(),
{
    if s.len() > 0 && is_white_space(s.last()) {
        trim_end_of(s.drop_last())
    } else {
        s
    }
}

/// A text without the white space at its start and at its end.
pub open spec fn trim_of(s: Seq<char>) -> Seq<char> {
    trim_end_of(trim_start_of(s))
}

/// Trimming the start takes away the white space up to `i`.
proof fn lemma_trim_start(s: Seq<char>, i: int)
    requires
        0 <= i <= s.len(),
        forall|k: int| 0 <= k < i ==> is_white_space(s[k]),
        i < s.len() ==> !is_white_space(s[i]),
    ensures
        trim_start_of(s) == s.skip(i),
    decreases i,
{
    if i > 0 {
        lemma_trim_start(s.drop_first(), i - 1);
        assert(s.drop_first().skip(i - 1) =~= s.skip(i));
    } else {
        assert(s.skip(0) =~= s);
    }
}

/// Trimming the end takes away the white space from `j` on.
proof fn lemma_trim_end(s: Seq<char>, j: int)
    requires
        0 <= j <= s.len(),
        forall|k: int| j <= k < s.len() ==> is_white_space(s[k]),
        j > 0 ==> !is_white_space(s[j - 1]),
    ensures
        trim_end_of(s) == s.take(j),
    decreases s.len() - j,
{
    if j < s.len() {
        lemma_trim_end(s.drop_last(), j);
        assert(s.drop_last().take(j) =~= s.take(j));
    } else {
        assert(s.take(j) =~= s);
    }
}

/// Takes the white space at both ends of a text away.
pub fn trim(s: &str) -> (r: &str)
    ensures
        r@ == trim_of(s@),
{
    let cs: Vec<char> = chars_of(s);
    let mut i: usize = 0;
    while i < cs.len() && white_space(cs[i])
        invariant
            cs@ == s@,
            i <= cs@.len(),
            forall|k: int| 0 <= k < i ==> is_white_space(cs@[k]),
        decreases cs@.len() - i,
    {
        i = i + 1;
    }
    let mut j: usize = cs.len();
    while i < j && white_space(cs[j - 1])
        invariant
            cs@ == s@,
            i <= j <= cs@.len(),
            forall|k: int| j <= k < cs@.len() ==> is_white_space(cs@[k]),
        decreases j,
    {
        j = j - 1;
    }
    proof {
        lemma_trim_start(s@, i as int);
        lemma_trim_end(s@.skip(i as int), j - i);
        assert(s@.skip(i as int).take(j - i) =~= s@.subrange(i as int, j as int));
    }
    s.substring_char(i, j)
}

/// The place of the first `c` in a text, or the length of a text without one.
pub open spec fn position_of(s: Seq<char>, c: char) -> nat
    decreases s.len(),
{
    if s.len() == 0 || s[0] == c {
        0
    } else {
        1 + position_of(s.drop_first(), c)
    }
}

/// A place before which no `c` stands, and at which one stands unless it is the end, is the
/// first.
pub proof fn lemma_position(s: Seq<char>, c: char, i: int)
    requires
        0 <= i <= s.len(),
        forall|k: int| 0 <= k < i ==> s[k] != c,
        i < s.len() ==> s[i] == c,
    ensures
        position_of(s, c) == i,
    decreases i,
{
    if i > 0 {
        lemma_position(s.drop_first(), c, i - 1);
    }
}

/// The place of the first `c` is within the text, no `c` stands before it, and one stands at it
/// unless it is the end.
pub proof fn lemma_position_is_first(s: Seq<char>, c: char)
    ensures
        position_of(s, c) <= s.len(),
        forall|k: int| 0 <= k < position_of(s, c) ==> s[k] != c,
        position_of(s, c) < s.len() ==> s[position_of(s, c) as int] == c,
    decreases s.len(),
{
    if s.len() > 0 && s[0] != c {
        let rest = s.drop_first();
        lemma_position_is_first(rest, c);
        assert forall|k: int| 0 <= k < position_of(s, c) implies s[k] != c by {
            if k > 0 {
                assert(rest[k - 1] == s[k]);
            }
        }
    }
}

/// What stands before and what stands behind the first `c` of a text; `None` where it has
/// no `c`.
pub open spec fn split_once_of(s: Seq<char>, c: char) -> Option<(Seq<char>, Seq<char>)> {
    let i = position_of(s, c) as int;
    if i < s.len() {
        Some((s.take(i), s.skip(i + 1)))
    } else {
        None
    }
}

/// The pieces of a text between the places where a `c` stands.
pub open spec fn split_of(s: Seq<char>, c: char) -> Seq<Seq<char>>
    decreases s.len(),
{
    match split_once_of(s, c) {
        Some((before, behind)) => seq![before] + split_of(behind, c),
        None => seq![s],
    }
}

/// A text without a `c` is its only piece.
pub proof fn lemma_split_none(s: Seq<char>, c: char)
    requires
        forall|k: int| 0 <= k < s.len() ==> s[k] != c,
    ensures
        split_of(s, c) == seq![s],
{
    lemma_position(s, c, s.len() as int);
}

/// The pieces of two texts with a `c` between them are those of the one and of the other.
pub proof fn lemma_split_concat(a: Seq<char>, c: char, b: Seq<char>)
    ensures
        split_of(a + seq![c] + b, c) == split_of(a, c) + split_of(b, c),
    decreases a.len(),
{
    let all = a + seq![c] + b;
    let i = position_of(a, c) as int;
    lemma_position_is_first(a, c);
    assert(all[i] == c);
    lemma_position(all, c, i);
    assert(all.take(i) =~= a.take(i));
    if i < a.len() {
        let rest = a.skip(i + 1);
        lemma_split_concat(rest, c, b);
        assert(all.skip(i + 1) =~= rest + seq![c] + b);
        assert(split_of(all, c) =~= split_of(a, c) + split_of(b, c));
    } else {
        assert(a.take(i) =~= a);
        assert(all.skip(i + 1) =~= b);
    }
}

/// White space behind a text is trimmed away.
pub proof fn lemma_trim_push(s: Seq<char>, c: char)
    requires
        is_white_space(c),
    ensures
        trim_of(s.push(c)) == trim_of(s),
    decreases s.len(),
{
    let all = s.push(c);
    if s.len() == 0 {
        assert(all.drop_first() =~= s);
    } else if is_white_space(s[0]) {
        assert(all.drop_first() =~= s.drop_first().push(c));
        lemma_trim_push(s.drop_first(), c);
    } else {
        assert(all.drop_last() =~= s);
    }
}

/// Trimming the end of a text leaves a start of it, which does not end in white space.
proof fn lemma_trim_end_start(s: Seq<char>)
    ensures
        trim_end_of(s).len() <= s.len(),
        trim_end_of(s) == s.take(trim_end_of(s).len() as int),
        s.len() > 0 && !is_white_space(s[0]) ==> trim_end_of(s).len() > 0,
        trim_end_of(s).len() > 0 ==> trim_end_of(s)[0] == s[0] && !is_white_space(
            trim_end_of(s).last(),
        ),
    decreases s.len(),
{
    if s.len() > 0 && is_white_space(s.last()) {
        let rest = s.drop_last();
        lemma_trim_end_start(rest);
        assert(rest.take(trim_end_of(rest).len() as int) =~= s.take(
            trim_end_of(rest).len() as int,
        ));
    } else {
        assert(s.take(s.len() as int) =~= s);
    }
}

/// Trimming the start of a text leaves an end of it, which does not begin with white space.
proof fn lemma_trim_start_first(s: Seq<char>)
    ensures
        trim_start_of(s).len() <= s.len(),
        trim_start_of(s) == s.skip(s.len() - trim_start_of(s).len()),
        trim_start_of(s).len() > 0 ==> !is_white_space(trim_start_of(s)[0]),
    decreases s.len(),
{
    if s.len() > 0 && is_white_space(s[0]) {
        let rest = s.drop_first();
        lemma_trim_start_first(rest);
        assert(rest.skip(rest.len() - trim_start_of(rest).len()) =~= s.skip(
            s.len() - trim_start_of(rest).len(),
        ));
    } else {
        assert(s.skip(0) =~= s);
    }
}

/// A trimmed text has no other characters than the text, and begins and ends with other
/// characters than white space.
pub proof fn lemma_trim_chars(s: Seq<char>)
    ensures
        forall|i: int| 0 <= i < trim_of(s).len() ==> s.contains(#[trigger] trim_of(s)[i]),
        trim_of(s).len() > 0 ==> !is_white_space(trim_of(s)[0]) && !is_white_space(
            trim_of(s).last(),
        ),
        s.len() > 0 && !is_white_space(s[0]) ==> trim_of(s).len() > 0 && trim_of(s)[0] == s[0],
{
    let t = trim_start_of(s);
    let u = trim_end_of(t);
    lemma_trim_start_first(s);
    lemma_trim_end_start(t);
    assert forall|i: int| 0 <= i < u.len() implies s.contains(#[trigger] u[i]) by {
        assert(u[i] == t.take(u.len() as int)[i]);
        assert(t[i] == s.skip(s.len() - t.len())[i]);
        assert(u[i] == s[s.len() - t.len() + i]);
    }
}

/// What has been trimmed needs no more trimming.
pub proof fn lemma_trim_twice(s: Seq<char>)
    ensures
        trim_of(trim_of(s)) == trim_of(s),
{
    lemma_trim_start_first(s);
    lemma_trim_end_start(trim_start_of(s));
}

/// A text that begins and ends with other characters than white space needs no trimming.
pub proof fn lemma_trim_tight(s: Seq<char>)
    requires
        s.len() > 0,
        !is_white_space(s[0]),
        !is_white_space(s.last()),
    ensures
        trim_of(s) == s,
{
}

proof fn lemma_lower_twice(s: Seq<char>)
    ensures
        lower_of(lower_of(s)) == lower_of(s),
{
    assert forall|i: int| 0 <= i < s.len() implies lower_of(lower_of(s))[i] == lower_of(s)[i] by {
        assert(lower_of(s)[i] == ascii_lower(s[i]));
    }
    assert(lower_of(lower_of(s)) =~= lower_of(s));
}

proof fn lemma_trim_start_lower(s: Seq<char>)
    ensures
        trim_start_of(lower_of(s)) == lower_of(trim_start_of(s)),
    decreases s.len(),
{
    if s.len() > 0 {
        assert(lower_of(s)[0] == ascii_lower(s[0]));
        assert(lower_of(s).drop_first() =~= lower_of(s.drop_first()));
        if is_white_space(s[0]) {
            lemma_trim_start_lower(s.drop_first());
        }
    }
}

proof fn lemma_trim_end_lower(s: Seq<char>)
    ensures
        trim_end_of(lower_of(s)) == lower_of(trim_end_of(s)),
    decreases s.len(),
{
    if s.len() > 0 {
        assert(lower_of(s).last() == ascii_lower(s.last()));
        assert(lower_of(s).drop_last() =~= lower_of(s.drop_last()));
        if is_white_space(s.last()) {
            lemma_trim_end_lower(s.drop_last());
        }
    }
}

/// Neither the order of trimming and making letters small nor doing the latter twice matters.
pub proof fn lemma_trim_lower(s: Seq<char>)
    ensures
        lower_of(trim_of(lower_of(s))) == lower_of(trim_of(s)),
        lower_of(lower_of(s)) == lower_of(s),
{
    lemma_trim_start_lower(s);
    lemma_trim_end_lower(trim_start_of(s));
    lemma_lower_twice(trim_of(s));
    lemma_lower_twice(s);
}

/// The place of the first `c` at or behind `from`.
fn find_from(cs: &Vec<char>, from: usize, c: char) -> (r: usize)
    requires
        from <= cs@.len(),
    ensures
        from <= r <= cs@.len(),
        r == from + position_of(cs@.skip(from as int), c),
{
    let mut i: usize = from;
    while i < cs.len() && cs[i] != c
        invariant
            from <= i <= cs@.len(),
            forall|k: int| from <= k < i ==> cs@[k] != c,
        decreases cs@.len() - i,
    {
        i = i + 1;
    }
    proof {
        lemma_position(cs@.skip(from as int), c, i - from);
    }
    i
}

/// Parts a text at the first `c`.
pub fn split_once(s: &str, c: char) -> (r: Option<(&str, &str)>)
    ensures
        match r {
            Some((before, behind)) => split_once_of(s@, c) == Some((before@, behind@)),
            None => split_once_of(s@, c) is None,
        },
{
    let cs: Vec<char> = chars_of(s);
    let i: usize = find_from(&cs, 0, c);
    assert(s@.skip(0) =~= s@);
    if i < cs.len() {
        assert(s@.subrange(0, i as int) =~= s@.take(i as int));
        assert(s@.subrange(i + 1, s@.len() as int) =~= s@.skip(i + 1));
        Some((s.substring_char(0, i), s.substring_char(i + 1, cs.len())))
    } else {
        None
    }
}

/// Parts a text at every `c`.
pub fn split(s: &str, c: char) -> (r: Vec<&str>)
    ensures
        r@.len() == split_of(s@, c).len(),
        forall|i: int| 0 <= i < r@.len() ==> r@[i]@ == split_of(s@, c)[i],
{
    let cs: Vec<char> = chars_of(s);
    let mut out: Vec<&str> = Vec::new();
    let mut from: usize = 0;
    let mut at: usize = find_from(&cs, 0, c);
    assert(s@.skip(0) =~= s@);
    while at < cs.len()
        invariant
            cs@ == s@,
            from <= at <= cs@.len(),
            at == from + position_of(s@.skip(from as int), c),
            out@.len() + split_of(s@.skip(from as int), c).len() == split_of(s@, c).len(),
            forall|i: int| 0 <= i < out@.len() ==> out@[i]@ == split_of(s@, c)[i],
            forall|i: int|
                0 <= i < split_of(s@.skip(from as int), c).len() ==> #[trigger] split_of(
                    s@.skip(from as int),
                    c,
                )[i] == split_of(s@, c)[out@.len() + i],
        decreases cs@.len() - at,
    {
        let ghost rest = s@.skip(from as int);
        let ghost done = out@.len();
        assert(rest.take(at - from) =~= s@.subrange(from as int, at as int));
        assert(rest.skip(at - from + 1) =~= s@.skip(at + 1));
        assert(split_of(rest, c) == seq![s@.subrange(from as int, at as int)] + split_of(
            s@.skip(at + 1),
            c,
        ));
        assert(split_of(rest, c)[0] == split_of(s@, c)[done as int]);
        out.push(s.substring_char(from, at));
        from = at + 1;
        at = find_from(&cs, from, c);
        assert forall|i: int| 0 <= i < split_of(s@.skip(from as int), c).len() implies
            #[trigger] split_of(s@.skip(from as int), c)[i] == split_of(s@, c)[out@.len() + i] by {
            assert(split_of(rest, c)[i + 1] == split_of(s@, c)[done + i + 1]);
        }
    }
    assert(split_of(s@.skip(from as int), c)[0] == s@.skip(from as int));
    assert(s@.skip(from as int) =~= s@.subrange(from as int, at as int));
    out.push(s.substring_char(from, at));
    out
}

/// Whether a text begins with another one.
pub open spec fn has_prefix(s: Seq<char>, prefix: Seq<char>) -> bool {
    prefix.len() <= s.len() && s.take(prefix.len() as int) == prefix
}

/// Whether a text begins with another one.
pub fn starts_with(s: &str, prefix: &str) -> (r: bool)
    ensures
        r == has_prefix(s@, prefix@),
{
    let n: usize = prefix.unicode_len();
    if s.unicode_len() < n {
        return false;
    }
    let head: &str = s.substring_char(0, n);
    assert(s@.take(n as int) =~= s@.subrange(0, n as int));
    same_text(head, prefix)
}

/// The decimal digits of a number, without leading zeros.
pub open spec fn digits_of(n: nat) -> Seq<char>
    decreases n,
{
    let digit = (('0' as u32) + n % 10) as char;
    if n < 10 {
        seq![digit]
    } else {
        digits_of(n / 10).push(digit)
    }
}

/// A number in decimal, with a `-` before a negative one.
pub open spec fn decimal_of(i: int) -> Seq<char> {
    if i < 0 {
        seq!['-'] + digits_of((-i) as nat)
    } else {
        digits_of(i as nat)
    }
}

fn push_digits(out: &mut String, n: u64)
    ensures
        final(out)@ == old(out)@ + digits_of(n as nat),
    decreases n,
{
    let ghost start = out@;
    if n >= 10 {
        push_digits(out, n / 10);
    }
    out.push((48u8 + (n % 10) as u8) as char);
    assert(out@ =~= start + digits_of(n as nat));
}

/// Writes a number in decimal.
pub fn decimal(i: i32) -> (r: String)
    ensures
        r@ == decimal_of(i as int),
{
    let mut out = String::new();
    if i < 0 {
        out.push('-');
        push_digits(&mut out, (-(i as i64)) as u64);
    } else {
        push_digits(&mut out, i as u64);
    }
    assert(out@ =~= decimal_of(i as int));
    out
}

} // verus!
