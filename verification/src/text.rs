//! Texts as sequences of characters: searching, splitting, trimming, joining and comparing them.
use vstd::prelude::*;
use vstd::slice::slice_subrange;

verus! {

/// `String::push` appends the character to the end of the string.
pub assume_specification[ String::push ](text: &mut String, c: char)
    ensures
        final(text)@ == old(text)@.push(c),
;

/// The position of the first `c` in `text`, or the length of `text` where there is none.
pub open spec fn find(text: Seq<char>, c: char) -> nat
    decreases text.len(),
{
    if text.len() == 0 || text[0] == c {
        0
    } else {
        1 + find(text.drop_first(), c)
    }
}

/// `find` points at the first occurrence.
pub proof fn lemma_find(text: Seq<char>, c: char)
    ensures
        find(text, c) <= text.len(),
        forall|i: int| 0 <= i < find(text, c) ==> text[i] != c,
        find(text, c) < text.len() ==> text[find(text, c) as int] == c,
        find(text, c) < text.len() <==> text.contains(c),
    decreases text.len(),
{
    if text.len() == 0 || text[0] == c {
    } else {
        let rest = text.drop_first();
        lemma_find(rest, c);
        assert forall|i: int| 0 <= i < find(text, c) implies text[i] != c by {
            if i > 0 {
                assert(rest[i - 1] == text[i]);
            }
        }
        if text.contains(c) {
            let i = choose|i: int| 0 <= i < text.len() && text[i] == c;
            assert(rest[i - 1] == c);
        }
    }
}

/// A position that holds `c`, with none before it, is the one that `find` gives; so is the length
/// of a text without `c`.
pub proof fn lemma_find_unique(text: Seq<char>, c: char, at: nat)
    requires
        at <= text.len(),
        forall|i: int| 0 <= i < at ==> text[i] != c,
        at < text.len() ==> text[at as int] == c,
    ensures
        find(text, c) == at,
{
    lemma_find(text, c);
}

/// The pieces of `text` between the separators; one piece more than there are separators.
pub open spec fn split(text: Seq<char>, separator: char) -> Seq<Seq<char>>
    decreases text.len(),
{
    let at = find(text, separator);
    if at < text.len() {
        seq![text.take(at as int)] + split(text.skip((at + 1) as int), separator)
    } else {
        seq![text]
    }
}

/// Whether the Unicode property `White_Space` holds of `c`.
pub open spec fn is_white_space(c: char) -> bool {
    let code = c as u32;
    ||| 0x9 <= code <= 0xd
    ||| code == 0x20
    ||| code == 0x85
    ||| code == 0xa0
    ||| code == 0x1680
    ||| 0x2000 <= code <= 0x200a
    ||| code == 0x2028
    ||| code == 0x2029
    ||| code == 0x202f
    ||| code == 0x205f
    ||| code == 0x3000
}

/// `text` without the white space at its start.
pub open spec fn trim_start(text: Seq<char>) -> Seq<char>
    decreases text.len(),
{
    if text.len() > 0 && is_white_space(text[0]) {
        trim_start(text.drop_first())
    } else {
        text
    }
}

/// `text` without the white space at its end.
pub open spec fn trim_end(text: Seq<char>) -> Seq<char>
    decreases text.len(),
{
    if text.len() > 0 && is_white_space(text.last()) {
        trim_end(text.drop_last())
    } else {
        text
    }
}

/// `text` without the white space at its two ends.
pub open spec fn trim(text: Seq<char>) -> Seq<char> {
    trim_end(trim_start(text))
}

/// The pieces one after the other, with `separator` between each two.
pub open spec fn join(pieces: Seq<Seq<char>>, separator: Seq<char>) -> Seq<char>
    decreases pieces.len(),
{
    if pieces.len() == 0 {
        seq![]
    } else if pieces.len() == 1 {
        pieces[0]
    } else {
        join(pieces.drop_last(), separator) + separator + pieces.last()
    }
}

/// The decimal digits of `n`, without leading zeros.
pub open spec fn decimal(n: nat) -> Seq<char>
    decreases n,
{
    if n < 10 {
        seq![digit(n)]
    } else {
        decimal(n / 10).push(digit(n % 10))
    }
}

/// The character for a number below ten.
pub open spec fn digit(n: nat) -> char {
    (48 + n) as char
}

/// The contents of a list of slices.
pub open spec fn pieces_view(pieces: Seq<&[char]>) -> Seq<Seq<char>> {
    pieces.map_values(|piece: &[char]| piece@)
}

/// The contents of a list of strings.
pub open spec fn strings_view(strings: Seq<String>) -> Seq<Seq<char>> {
    strings.map_values(|string: String| string@)
}

/// The characters of `text`.
pub fn chars_of(text: &str) -> (chars: Vec<char>)
    ensures
        chars@ == text@,
{
    let mut chars: Vec<char> = Vec::new();
    for c in iter: text.chars()
        invariant
            chars@ == iter.seq().take(iter.index() as int),
            iter.seq() == text@,
    {
        chars.push(c);
        assert(chars@ == iter.seq().take(iter.index() + 1));
    }
    assert(text@.take(text@.len() as int) == text@);
    chars
}

/// The string made of `chars`.
pub fn text_of(chars: &[char]) -> (text: String)
    ensures
        text@ == chars@,
{
    let mut text = String::new();
    let mut i: usize = 0;
    while i < chars.len()
        invariant
            i <= chars@.len(),
            text@ == chars@.take(i as int),
        decreases chars@.len() - i,
    {
        text.push(chars[i]);
        i += 1;
        assert(chars@.take(i as int) == chars@.take(i - 1).push(chars@[i - 1]));
    }
    assert(chars@.take(chars@.len() as int) == chars@);
    text
}

/// The position of the first `c` in `text`, or the length of `text` where there is none.
pub fn find_char(text: &[char], c: char) -> (at: usize)
    ensures
        at == find(text@, c),
        at <= text@.len(),
{
    let mut i: usize = 0;
    while i < text.len() && text[i] != c
        invariant
            i <= text@.len(),
            forall|j: int| 0 <= j < i ==> text@[j] != c,
        decreases text@.len() - i,
    {
        i += 1;
    }
    proof {
        lemma_find_unique(text@, c, i as nat);
    }
    i
}

/// The pieces of `text` between the separators.
pub fn split_chars<'a>(text: &'a [char], separator: char) -> (pieces: Vec<&'a [char]>)
    ensures
        pieces_view(pieces@) == split(text@, separator),
{
    let mut pieces: Vec<&'a [char]> = Vec::new();
    let mut rest: &'a [char] = text;
    let mut at: usize = find_char(rest, separator);
    assert(pieces_view(pieces@) + split(rest@, separator) == split(text@, separator));
    while at < rest.len()
        invariant
            at == find(rest@, separator),
            pieces_view(pieces@) + split(rest@, separator) == split(text@, separator),
        decreases rest@.len(),
    {
        let ghost before = pieces@;
        let ghost piece = rest@.take(at as int);
        let ghost tail = rest@.skip(at + 1);
        pieces.push(slice_subrange(rest, 0, at));
        rest = slice_subrange(rest, at + 1, rest.len());
        at = find_char(rest, separator);
        proof {
            assert(pieces_view(pieces@) == pieces_view(before).push(piece));
            assert(rest@ == tail);
            assert(pieces_view(before).push(piece) + split(tail, separator) == pieces_view(before)
                + (seq![piece] + split(tail, separator)));
        }
    }
    let ghost before = pieces@;
    pieces.push(rest);
    proof {
        assert(pieces_view(pieces@) == pieces_view(before) + seq![rest@]);
    }
    pieces
}

/// Whether `c` is white space.
pub fn white_space(c: char) -> (b: bool)
    ensures
        b == is_white_space(c),
{
    let code: u32 = c as u32;
    (0x9 <= code && code <= 0xd) || code == 0x20 || code == 0x85 || code == 0xa0 || code == 0x1680
        || (0x2000 <= code && code <= 0x200a) || code == 0x2028 || code == 0x2029 || code == 0x202f
        || code == 0x205f || code == 0x3000
}

/// `text` without the white space at its two ends.
pub fn trim_chars<'a>(text: &'a [char]) -> (trimmed: &'a [char])
    ensures
        trimmed@ == trim(text@),
{
    let mut start: usize = 0;
    assert(text@.skip(0) == text@);
    while start < text.len() && white_space(text[start])
        invariant
            start <= text@.len(),
            trim_start(text@.skip(start as int)) == trim_start(text@),
        decreases text@.len() - start,
    {
        assert(text@.skip(start as int).drop_first() == text@.skip(start + 1));
        start += 1;
    }
    assert(trim_start(text@) == text@.skip(start as int));
    let mut end: usize = text.len();
    let ghost rest = text@.skip(start as int);
    assert(text@.subrange(start as int, end as int) == rest);
    while start < end && white_space(text[end - 1])
        invariant
            start <= end <= text@.len(),
            trim_end(text@.subrange(start as int, end as int)) == trim_end(rest),
        decreases end,
    {
        assert(text@.subrange(start as int, end as int).drop_last() == text@.subrange(
            start as int,
            end - 1,
        ));
        end -= 1;
    }
    slice_subrange(text, start, end)
}

/// The strings one after the other, with `separator` between each two.
pub fn join_strings(strings: &Vec<String>, separator: &str) -> (joined: String)
    ensures
        joined@ == join(strings_view(strings@), separator@),
{
    let mut joined = String::new();
    let ghost views = strings_view(strings@);
    let mut i: usize = 0;
    while i < strings.len()
        invariant
            i <= strings@.len(),
            views == strings_view(strings@),
            joined@ == join(views.take(i as int), separator@),
        decreases strings@.len() - i,
    {
        if i > 0 {
            joined.append(separator);
        }
        joined.append(strings[i].as_str());
        assert(views.take(i + 1).drop_last() == views.take(i as int));
        i += 1;
    }
    assert(views.take(views.len() as int) == views);
    joined
}

/// Appends the decimal digits of `n` to `text`.
pub fn push_decimal(text: &mut String, n: u64)
    ensures
        final(text)@ == old(text)@ + decimal(n as nat),
    decreases n,
{
    let ghost before = text@;
    if n >= 10 {
        push_decimal(text, n / 10);
    }
    let unit: u8 = (n % 10) as u8;
    text.push((48 + unit) as char);
    assert(text@ == before + decimal(n as nat));
}

/// The decimal digits of `n`.
pub fn decimal_text(n: u64) -> (text: String)
    ensures
        text@ == decimal(n as nat),
{
    let mut text = String::new();
    push_decimal(&mut text, n);
    assert(text@ == decimal(n as nat));
    text
}

/// `join` taken from the front.
pub proof fn lemma_join_front(first: Seq<char>, rest: Seq<Seq<char>>, separator: Seq<char>)
    requires
        rest.len() > 0,
    ensures
        join(seq![first] + rest, separator) == first + separator + join(rest, separator),
    decreases rest.len(),
{
    let all = seq![first] + rest;
    if rest.len() == 1 {
        assert(all.drop_last() == seq![first]);
        assert(join(seq![first], separator) == first);
        assert(join(all, separator) == first + separator + rest[0]);
    } else {
        lemma_join_front(first, rest.drop_last(), separator);
        assert(all.drop_last() == seq![first] + rest.drop_last());
        assert(join(all, separator) == first + separator + join(rest.drop_last(), separator)
            + separator + rest.last());
        assert(join(all, separator) == first + separator + (join(rest.drop_last(), separator)
            + separator + rest.last()));
    }
}

/// Splitting loses nothing: the pieces joined by the separator are the text again, and no piece
/// holds the separator.
pub proof fn lemma_split(text: Seq<char>, separator: char)
    ensures
        split(text, separator).len() > 0,
        join(split(text, separator), seq![separator]) == text,
        forall|i: int|
            0 <= i < split(text, separator).len() ==> !(#[trigger] split(
                text,
                separator,
            )[i]).contains(separator),
    decreases text.len(),
{
    let at = find(text, separator);
    lemma_find(text, separator);
    if at < text.len() {
        let piece = text.take(at as int);
        let rest = text.skip((at + 1) as int);
        lemma_split(rest, separator);
        lemma_join_front(piece, split(rest, separator), seq![separator]);
        assert(piece + seq![separator] + rest == text);
        assert forall|i: int| 0 <= i < split(text, separator).len() implies !(#[trigger] split(
            text,
            separator,
        )[i]).contains(separator) by {
            if i > 0 {
                assert(split(text, separator)[i] == split(rest, separator)[i - 1]);
            }
        }
    }
}

/// Two texts with a separator between them split into the pieces of the first and then those of
/// the second.
pub proof fn lemma_split_concat(left: Seq<char>, right: Seq<char>, separator: char)
    ensures
        split(left + seq![separator] + right, separator) == split(left, separator) + split(
            right,
            separator,
        ),
    decreases left.len(),
{
    let whole = left + seq![separator] + right;
    let at = find(left, separator);
    lemma_find(left, separator);
    if at < left.len() {
        lemma_find_unique(whole, separator, at);
        let rest = left.skip((at + 1) as int);
        lemma_split_concat(rest, right, separator);
        assert(whole.take(at as int) == left.take(at as int));
        assert(whole.skip((at + 1) as int) == rest + seq![separator] + right);
        assert(split(whole, separator) == seq![left.take(at as int)] + (split(rest, separator)
            + split(right, separator)));
    } else {
        lemma_find_unique(whole, separator, left.len());
        assert(whole.take(left.len() as int) == left);
        assert(whole.skip((left.len() + 1) as int) == right);
    }
    assert(split(whole, separator) == split(left, separator) + split(right, separator));
}

/// A text without the separator is its only piece.
pub proof fn lemma_split_single(text: Seq<char>, separator: char)
    requires
        !text.contains(separator),
    ensures
        split(text, separator) == seq![text],
{
    lemma_find(text, separator);
}

/// Pieces without the separator come back when they are joined and split again.
pub proof fn lemma_split_of_join(pieces: Seq<Seq<char>>, separator: char)
    requires
        pieces.len() > 0,
        forall|i: int| 0 <= i < pieces.len() ==> !(#[trigger] pieces[i]).contains(separator),
    ensures
        split(join(pieces, seq![separator]), separator) == pieces,
    decreases pieces.len(),
{
    if pieces.len() == 1 {
        lemma_split_single(pieces[0], separator);
        assert(pieces == seq![pieces[0]]);
    } else {
        let rest = pieces.drop_last();
        assert forall|i: int| 0 <= i < rest.len() implies !(#[trigger] rest[i]).contains(
            separator,
        ) by {
            assert(rest[i] == pieces[i]);
        }
        lemma_split_of_join(rest, separator);
        lemma_split_concat(join(rest, seq![separator]), pieces.last(), separator);
        lemma_split_single(pieces.last(), separator);
        assert(rest + seq![pieces.last()] == pieces);
    }
}

/// White space at the start of a text is trimmed away.
proof fn lemma_trim_start_of_white_space(blank: Seq<char>, text: Seq<char>)
    requires
        forall|i: int| 0 <= i < blank.len() ==> is_white_space(#[trigger] blank[i]),
    ensures
        trim_start(blank + text) == trim_start(text),
    decreases blank.len(),
{
    if blank.len() == 0 {
        assert(blank + text == text);
    } else {
        let rest = blank.drop_first();
        lemma_trim_start_of_white_space(rest, text);
        assert((blank + text)[0] == blank[0]);
        assert((blank + text).drop_first() == rest + text);
    }
}

/// White space at the end of a text is trimmed away.
proof fn lemma_trim_end_of_white_space(text: Seq<char>, blank: Seq<char>)
    requires
        forall|i: int| 0 <= i < blank.len() ==> is_white_space(#[trigger] blank[i]),
    ensures
        trim_end(text + blank) == trim_end(text),
    decreases blank.len(),
{
    if blank.len() == 0 {
        assert(text + blank == text);
    } else {
        let rest = blank.drop_last();
        lemma_trim_end_of_white_space(text, rest);
        assert((text + blank).last() == blank.last());
        assert((text + blank).drop_last() == text + rest);
    }
}

/// Trimming the start of a text leaves what follows it alone, unless the text is all white space.
proof fn lemma_trim_start_of_concat(text: Seq<char>, blank: Seq<char>)
    requires
        forall|i: int| 0 <= i < blank.len() ==> is_white_space(#[trigger] blank[i]),
    ensures
        trim_end(trim_start(text + blank)) == trim_end(trim_start(text)),
    decreases text.len(),
{
    if text.len() == 0 {
        assert(text + blank == blank);
        lemma_trim_start_of_white_space(blank, seq![]);
        assert(blank + Seq::<char>::empty() == blank);
        assert(trim_start(blank) == Seq::<char>::empty());
        assert(trim_start(text) == Seq::<char>::empty());
    } else if is_white_space(text[0]) {
        lemma_trim_start_of_concat(text.drop_first(), blank);
        assert((text + blank)[0] == text[0]);
        assert((text + blank).drop_first() == text.drop_first() + blank);
    } else {
        assert((text + blank)[0] == text[0]);
        lemma_trim_end_of_white_space(text, blank);
    }
}

/// White space around a text makes no difference once the text is trimmed.
pub proof fn lemma_trim_of_white_space_around(before: Seq<char>, text: Seq<char>, after: Seq<char>)
    requires
        forall|i: int| 0 <= i < before.len() ==> is_white_space(#[trigger] before[i]),
        forall|i: int| 0 <= i < after.len() ==> is_white_space(#[trigger] after[i]),
    ensures
        trim(before + text + after) == trim(text),
{
    assert(before + text + after == before + (text + after));
    lemma_trim_start_of_white_space(before, text + after);
    lemma_trim_start_of_concat(text, after);
}

/// A text alone is joined to itself, and two lists one after the other are joined to what the first
/// and the second are joined to, with the separator between them.
pub proof fn lists_are_joined_one_after_the_other(
    left: Seq<Seq<char>>,
    right: Seq<Seq<char>>,
    text: Seq<char>,
    separator: Seq<char>,
)
    ensures
        join(Seq::<Seq<char>>::empty(), separator).len() == 0,
        join(seq![text], separator) == text,
        left.len() > 0 && right.len() > 0 ==> join(left + right, separator) == join(left, separator)
            + separator + join(right, separator),
    decreases right.len(),
{
    if left.len() > 0 && right.len() == 1 {
        assert((left + right).drop_last() == left);
        assert((left + right).last() == right[0]);
    } else if left.len() > 0 && right.len() > 1 {
        let rest = right.drop_last();
        lists_are_joined_one_after_the_other(left, rest, text, separator);
        assert((left + right).drop_last() == left + rest);
        assert((left + right).last() == right.last());
        assert(join(left + right, separator) == join(left, separator) + separator + join(
            rest,
            separator,
        ) + separator + right.last());
        assert(join(left + right, separator) == join(left, separator) + separator + (join(
            rest,
            separator,
        ) + separator + right.last()));
    }
}

proof fn lemma_trim_start_range(text: Seq<char>) -> (start: int)
    ensures
        0 <= start <= text.len(),
        trim_start(text) == text.skip(start),
        forall|i: int| 0 <= i < start ==> is_white_space(#[trigger] text[i]),
        start < text.len() ==> !is_white_space(text[start]),
    decreases text.len(),
{
    if text.len() > 0 && is_white_space(text[0]) {
        let rest = text.drop_first();
        let start = lemma_trim_start_range(rest);
        assert(rest.skip(start) == text.skip(start + 1));
        assert forall|i: int| 0 <= i < start + 1 implies is_white_space(#[trigger] text[i]) by {
            if i > 0 {
                assert(rest[i - 1] == text[i]);
            }
        }
        start + 1
    } else {
        assert(text.skip(0) == text);
        0
    }
}

proof fn lemma_trim_end_range(text: Seq<char>) -> (end: int)
    ensures
        0 <= end <= text.len(),
        trim_end(text) == text.take(end),
        forall|i: int| end <= i < text.len() ==> is_white_space(#[trigger] text[i]),
        end > 0 ==> !is_white_space(text[end - 1]),
    decreases text.len(),
{
    if text.len() > 0 && is_white_space(text.last()) {
        let rest = text.drop_last();
        let end = lemma_trim_end_range(rest);
        assert(rest.take(end) == text.take(end));
        assert forall|i: int| end <= i < text.len() implies is_white_space(#[trigger] text[i]) by {
            if i < rest.len() {
                assert(rest[i] == text[i]);
            }
        }
        end
    } else {
        assert(text.take(text.len() as int) == text);
        text.len() as int
    }
}

/// A trimmed text is a part of the text: what was cut off before and behind it is white space, and
/// it neither starts nor ends with white space.
pub proof fn trimming_cuts_off_white_space_only(text: Seq<char>) -> (range: (int, int))
    ensures
        0 <= range.0 <= range.1 <= text.len(),
        trim(text) == text.subrange(range.0, range.1),
        forall|i: int|
            0 <= i < text.len() && !(range.0 <= i < range.1) ==> is_white_space(#[trigger] text[i]),
        trim(text).len() > 0 ==> !is_white_space(trim(text)[0]) && !is_white_space(
            trim(text).last(),
        ),
{
    let start = lemma_trim_start_range(text);
    let rest = text.skip(start);
    let end = lemma_trim_end_range(rest);
    assert(rest.take(end) == text.subrange(start, start + end));
    assert forall|i: int|
        0 <= i < text.len() && !(start <= i < start + end) implies is_white_space(
        #[trigger] text[i],
    ) by {
        if i >= start {
            assert(rest[i - start] == text[i]);
        }
    }
    if end > 0 {
        assert(rest[0] == text[start]);
        assert(trim(text).last() == rest[end - 1]);
        assert(trim(text)[0] == text[start]);
    }
    (start, start + end)
}

/// The number that a text of decimal digits stands for.
pub open spec fn number_of_digits(digits: Seq<char>) -> int
    decreases digits.len(),
{
    if digits.len() == 0 {
        0
    } else {
        10 * number_of_digits(digits.drop_last()) + (digits.last() as int - '0' as int)
    }
}

/// A number is read back from its decimals: they are digits, stand for the number, and do not start
/// with a zero unless it is the only one.
pub proof fn decimals_stand_for_their_number(n: nat)
    ensures
        number_of_digits(decimal(n)) == n,
        decimal(n).len() > 0,
        forall|i: int|
            0 <= i < decimal(n).len() ==> '0' as int <= (#[trigger] decimal(n)[i]) as int <= '9' as int,
        decimal(n).len() > 1 ==> decimal(n)[0] != '0',
    decreases n,
{
    reveal_with_fuel(number_of_digits, 2);
    if n < 10 {
        assert(decimal(n).drop_last() == Seq::<char>::empty());
        assert(decimal(n).last() == digit(n));
        assert(decimal(n)[0] == digit(n));
    } else {
        decimals_stand_for_their_number(n / 10);
        assert(decimal(n).drop_last() == decimal(n / 10));
        assert(decimal(n).last() == digit(n % 10));
        assert(decimal(n)[0] == decimal(n / 10)[0]);
        if n < 100 {
            assert(decimal(n / 10) == seq![digit(n / 10)]);
        }
    }
}

/// White space are the blank, the characters that move on or end a line, the next line, and the
/// spaces and separators of other scripts and widths.
pub proof fn white_space_is_known_by_its_characters(c: char)
    ensures
        is_white_space(c) <==> {
            ||| c == ' ' || c == '\t' || c == '\n' || c == '\r'
            ||| c == '\u{b}' || c == '\u{c}' || c == '\u{85}' || c == '\u{a0}'
            ||| c == '\u{1680}' || c == '\u{2000}' || c == '\u{2001}' || c == '\u{2002}'
            ||| c == '\u{2003}' || c == '\u{2004}' || c == '\u{2005}' || c == '\u{2006}'
            ||| c == '\u{2007}' || c == '\u{2008}' || c == '\u{2009}' || c == '\u{200a}'
            ||| c == '\u{2028}' || c == '\u{2029}' || c == '\u{202f}' || c == '\u{205f}'
            ||| c == '\u{3000}'
        },
{
}

} // verus!
