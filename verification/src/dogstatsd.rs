//! The dogstatsd text format: datagrams of lines such as `requests:3|c|#service:api`.
use std::str::Utf8Error;
use std::time::Instant;
use vstd::prelude::*;
use vstd::slice::slice_subrange;
use vstd::string::StringSliceAdditionalSpecFns;
use vstd::utf8::{
    decode_utf8, decode_utf8_encode_utf8, encode_scalar, encode_utf8, encode_utf8_decode_utf8,
    encode_utf8_valid_utf8, is_ascii_chars, is_ascii_chars_encode_utf8, valid_utf8,
};

use crate::text::{
    chars_of, find, find_char, is_white_space, join, lemma_find, lemma_find_unique, lemma_split,
    lemma_split_concat, lemma_split_of_join, lemma_split_single, lemma_trim_of_white_space_around,
    pieces_view, split, split_chars, text_of, trim, trim_chars,
    trimming_cuts_off_white_space_only,
};

verus! {

/// The error of `std::str::from_utf8`; the library only sees that there was one.
#[verifier::external_type_specification]
#[verifier::external_body]
pub struct ExUtf8Error(Utf8Error);

/// `std::str::from_utf8` succeeds on exactly the bytes that are valid UTF-8, and the string that
/// it gives is made of these bytes.
pub assume_specification[ core::str::from_utf8 ](bytes: &[u8]) -> (result: Result<&str, Utf8Error>)
    ensures
        result is Ok <==> valid_utf8(bytes@),
        result matches Ok(text) ==> text.spec_bytes() == bytes@,
;

/// One measured value of a metric. The number type is `V`.
#[derive(Debug)]
pub struct Sample<V> {
    pub name: String,
    pub value: V,
    pub kind: MetricKind,
    pub tags: Vec<(String, String)>,
    pub received_at: Instant,
}

/// What a sample holds.
pub struct SampleView<V> {
    pub name: Seq<char>,
    pub value: V,
    pub kind: KindView,
    pub tags: Seq<(Seq<char>, Seq<char>)>,
    pub received_at: Instant,
}

impl<V> View for Sample<V> {
    type V = SampleView<V>;

    open spec fn view(&self) -> SampleView<V> {
        SampleView {
            name: self.name@,
            value: self.value,
            kind: self.kind@,
            tags: tags_view(self.tags@),
            received_at: self.received_at,
        }
    }
}

impl<V: Copy> Clone for Sample<V> {
    fn clone(&self) -> (copy: Self)
        ensures
            copy@ == self@,
    {
        let mut tags: Vec<(String, String)> = Vec::new();
        let mut i: usize = 0;
        while i < self.tags.len()
            invariant
                i <= self.tags@.len(),
                tags_view(tags@) == tags_view(self.tags@).take(i as int),
            decreases self.tags@.len() - i,
        {
            let ghost before = tags@;
            tags.push((self.tags[i].0.clone(), self.tags[i].1.clone()));
            i += 1;
            assert(tags_view(tags@) == tags_view(before).push(tags_view(self.tags@)[i - 1]));
        }
        assert(tags_view(self.tags@).take(i as int) == tags_view(self.tags@));
        Sample {
            name: self.name.clone(),
            value: self.value,
            kind: self.kind.clone(),
            tags,
            received_at: self.received_at,
        }
    }
}

/// The kind of a metric.
#[derive(Debug, Eq, PartialEq)]
pub enum MetricKind {
    Counter,
    Gauge,
    Histogram,
    Timer,
    Distribution,
    UniqueSet,
    Unknown(String),
}

/// What a metric kind holds.
pub enum KindView {
    Counter,
    Gauge,
    Histogram,
    Timer,
    Distribution,
    UniqueSet,
    Unknown(Seq<char>),
}

impl View for MetricKind {
    type V = KindView;

    open spec fn view(&self) -> KindView {
        match self {
            MetricKind::Counter => KindView::Counter,
            MetricKind::Gauge => KindView::Gauge,
            MetricKind::Histogram => KindView::Histogram,
            MetricKind::Timer => KindView::Timer,
            MetricKind::Distribution => KindView::Distribution,
            MetricKind::UniqueSet => KindView::UniqueSet,
            MetricKind::Unknown(raw) => KindView::Unknown(raw@),
        }
    }
}

/// The texts of a list of tags.
pub open spec fn tags_view(tags: Seq<(String, String)>) -> Seq<(Seq<char>, Seq<char>)> {
    tags.map_values(|tag: (String, String)| (tag.0@, tag.1@))
}

/// The kind that the second field of a line names.
pub open spec fn kind_of(raw: Seq<char>) -> KindView {
    if raw == seq!['c'] {
        KindView::Counter
    } else if raw == seq!['g'] {
        KindView::Gauge
    } else if raw == seq!['h'] {
        KindView::Histogram
    } else if raw == seq!['m', 's'] {
        KindView::Timer
    } else if raw == seq!['d'] {
        KindView::Distribution
    } else if raw == seq!['s'] {
        KindView::UniqueSet
    } else {
        KindView::Unknown(raw)
    }
}

/// The word shown for a kind.
pub open spec fn kind_word(kind: KindView) -> Seq<char> {
    match kind {
        KindView::Counter => "counter"@,
        KindView::Gauge => "gauge"@,
        KindView::Histogram => "histogram"@,
        KindView::Timer => "timer"@,
        KindView::Distribution => "distribution"@,
        KindView::UniqueSet => "set"@,
        KindView::Unknown(raw) => raw,
    }
}

impl Clone for MetricKind {
    fn clone(&self) -> (copy: Self)
        ensures
            copy@ == self@,
    {
        match self {
            MetricKind::Counter => MetricKind::Counter,
            MetricKind::Gauge => MetricKind::Gauge,
            MetricKind::Histogram => MetricKind::Histogram,
            MetricKind::Timer => MetricKind::Timer,
            MetricKind::Distribution => MetricKind::Distribution,
            MetricKind::UniqueSet => MetricKind::UniqueSet,
            MetricKind::Unknown(raw) => MetricKind::Unknown(raw.clone()),
        }
    }
}

impl MetricKind {
    /// The kind that the second field of a line names.
    pub fn parse(raw: &str) -> (kind: Self)
        ensures
            kind@ == kind_of(raw@),
    {
        let chars: Vec<char> = chars_of(raw);
        proof {
            assert(chars@.len() == 1 ==> chars@ == seq![chars@[0]]);
            assert(chars@.len() == 2 ==> chars@ == seq![chars@[0], chars@[1]]);
            assert(seq!['c'].len() == 1 && seq!['c'][0] == 'c');
            assert(seq!['g'].len() == 1 && seq!['g'][0] == 'g');
            assert(seq!['h'].len() == 1 && seq!['h'][0] == 'h');
            assert(seq!['d'].len() == 1 && seq!['d'][0] == 'd');
            assert(seq!['s'].len() == 1 && seq!['s'][0] == 's');
            assert(seq!['m', 's'].len() == 2 && seq!['m', 's'][0] == 'm' && seq!['m', 's'][1]
                == 's');
        }
        if chars.len() == 1 {
            let c: char = chars[0];
            if c == 'c' {
                return MetricKind::Counter;
            }
            if c == 'g' {
                return MetricKind::Gauge;
            }
            if c == 'h' {
                return MetricKind::Histogram;
            }
            if c == 'd' {
                return MetricKind::Distribution;
            }
            if c == 's' {
                return MetricKind::UniqueSet;
            }
        } else if chars.len() == 2 && chars[0] == 'm' && chars[1] == 's' {
            return MetricKind::Timer;
        }
        MetricKind::Unknown(raw.to_owned())
    }

    /// The word shown for the kind.
    pub fn to_string(&self) -> (word: String)
        ensures
            word@ == kind_word(self@),
    {
        match self {
            MetricKind::Counter => "counter".to_owned(),
            MetricKind::Gauge => "gauge".to_owned(),
            MetricKind::Histogram => "histogram".to_owned(),
            MetricKind::Timer => "timer".to_owned(),
            MetricKind::Distribution => "distribution".to_owned(),
            MetricKind::UniqueSet => "set".to_owned(),
            MetricKind::Unknown(raw) => raw.clone(),
        }
    }
}

/// The parts of a line that say something of a metric.
#[derive(Debug)]
pub struct LineParts {
    pub name: String,
    pub value: String,
    pub kind: MetricKind,
    pub tags: Vec<(String, String)>,
}

/// What the parts of a line hold.
pub struct LineView {
    pub name: Seq<char>,
    pub value: Seq<char>,
    pub kind: KindView,
    pub tags: Seq<(Seq<char>, Seq<char>)>,
}

impl View for LineParts {
    type V = LineView;

    open spec fn view(&self) -> LineView {
        LineView {
            name: self.name@,
            value: self.value@,
            kind: self.kind@,
            tags: tags_view(self.tags@),
        }
    }
}

/// A tag is a key, and a value where a colon follows the key.
pub open spec fn tag_of(tag: Seq<char>) -> (Seq<char>, Seq<char>) {
    let at = find(tag, ':');
    if at < tag.len() {
        (tag.take(at as int), tag.skip((at + 1) as int))
    } else {
        (tag, seq![])
    }
}

/// Reads a tag; an empty one counts for nothing.
pub open spec fn tag_reader() -> spec_fn(Seq<char>) -> Option<(Seq<char>, Seq<char>)> {
    |tag: Seq<char>|
        if tag.len() == 0 {
            None
        } else {
            Some(tag_of(tag))
        }
}

/// The tags in a field: those after the leading `#`, with commas between them.
pub open spec fn field_tags(field: Seq<char>) -> Seq<(Seq<char>, Seq<char>)> {
    if field.len() > 0 && field[0] == '#' {
        split(field.skip(1), ',').filter_map(tag_reader())
    } else {
        seq![]
    }
}

/// The tags in all of the fields.
pub open spec fn fields_tags(fields: Seq<Seq<char>>) -> Seq<(Seq<char>, Seq<char>)> {
    fields.flat_map(|field: Seq<char>| field_tags(field))
}

/// The parts of a line: the name up to the first colon, then at least two fields with bars between
/// them, of which the first is the value, the second the kind, and the others may hold tags.
pub open spec fn line_parts(line: Seq<char>) -> Option<LineView> {
    let at = find(line, ':');
    let fields = split(line.skip((at + 1) as int), '|');
    if at < line.len() && fields.len() >= 2 {
        Some(
            LineView {
                name: line.take(at as int),
                value: fields[0],
                kind: kind_of(fields[1]),
                tags: fields_tags(fields.skip(2)),
            },
        )
    } else {
        None
    }
}

/// Reads a line, without the white space at its ends.
pub open spec fn line_reader() -> spec_fn(Seq<char>) -> Option<LineView> {
    |line: Seq<char>| line_parts(trim(line))
}

/// The parts of those lines of a text that have parts.
pub open spec fn text_parts(text: Seq<char>) -> Seq<LineView> {
    split(text, '\n').filter_map(line_reader())
}

/// The parts of the lines of a datagram; none where the datagram is not valid UTF-8.
pub open spec fn datagram_parts(bytes: Seq<u8>) -> Seq<LineView> {
    if valid_utf8(bytes) {
        text_parts(decode_utf8(bytes))
    } else {
        seq![]
    }
}

/// Whether `parse_value` can answer `value` when it is asked about `text`.
pub open spec fn answers<V, F: Fn(&str) -> Option<V>>(
    parse_value: F,
    text: Seq<char>,
    value: Option<V>,
) -> bool {
    exists|given: &str| given@ == text && #[trigger] call_ensures(parse_value, (given,), value)
}

/// Whether `values` are answers of `parse_value` for the values in `parts`.
pub open spec fn all_answered<V, F: Fn(&str) -> Option<V>>(
    parse_value: F,
    parts: Seq<LineView>,
    values: Seq<Option<V>>,
) -> bool {
    &&& values.len() == parts.len()
    &&& forall|i: int|
        0 <= i < parts.len() ==> answers(parse_value, parts[i].value, #[trigger] values[i])
}

/// The sample that a line stands for, once its value is known.
pub open spec fn sample_of<V>(parts: LineView, value: V, received_at: Instant) -> SampleView<V> {
    SampleView { name: parts.name, value, kind: parts.kind, tags: parts.tags, received_at }
}

/// The samples that lines stand for, in their order; a line whose value is no number is left out.
pub open spec fn samples_of<V>(
    parts: Seq<LineView>,
    values: Seq<Option<V>>,
    received_at: Instant,
) -> Seq<SampleView<V>>
    decreases parts.len(),
{
    if parts.len() == 0 {
        seq![]
    } else {
        let before = samples_of(parts.drop_last(), values.drop_last(), received_at);
        match values.last() {
            Some(value) => before.push(sample_of(parts.last(), value, received_at)),
            None => before,
        }
    }
}

/// What the samples hold.
pub open spec fn samples_view<V>(samples: Seq<Sample<V>>) -> Seq<SampleView<V>> {
    samples.map_values(|sample: Sample<V>| sample@)
}

/// Reads a tag.
fn parse_tag(tag: &[char]) -> (parsed: (String, String))
    ensures
        (parsed.0@, parsed.1@) == tag_of(tag@),
{
    let at: usize = find_char(tag, ':');
    if at < tag.len() {
        (text_of(slice_subrange(tag, 0, at)), text_of(slice_subrange(tag, at + 1, tag.len())))
    } else {
        (text_of(tag), String::new())
    }
}

/// Appends the tags in a field to `tags`.
fn push_field_tags(tags: &mut Vec<(String, String)>, field: &[char])
    ensures
        tags_view(final(tags)@) == tags_view(old(tags)@) + field_tags(field@),
{
    let ghost before = tags_view(tags@);
    if field.len() == 0 || field[0] != '#' {
        assert(before + field_tags(field@) == before);
        return ;
    }
    let pieces: Vec<&[char]> = split_chars(slice_subrange(field, 1, field.len()), ',');
    let ghost texts = pieces_view(pieces@);
    let mut i: usize = 0;
    assert(texts.take(0).filter_map(tag_reader()) =~= seq![]);
    while i < pieces.len()
        invariant
            i <= pieces@.len(),
            texts == pieces_view(pieces@),
            tags_view(tags@) == before + texts.take(i as int).filter_map(tag_reader()),
        decreases pieces@.len() - i,
    {
        let ghost tags_before = tags@;
        proof {
            texts.lemma_filter_map_take_succ(tag_reader(), i as int);
        }
        if pieces[i].len() > 0 {
            let tag = parse_tag(pieces[i]);
            tags.push(tag);
            assert(tags_view(tags@) == tags_view(tags_before).push(tag_of(texts[i as int])));
        }
        i += 1;
    }
    assert(texts.take(i as int) == texts);
}

/// The parts of a line.
fn split_line(line: &[char]) -> (parts: Option<LineParts>)
    ensures
        match parts {
            Some(parts) => line_parts(line@) == Some(parts@),
            None => line_parts(line@) is None,
        },
{
    let at: usize = find_char(line, ':');
    if at >= line.len() {
        return None;
    }
    let fields: Vec<&[char]> = split_chars(slice_subrange(line, at + 1, line.len()), '|');
    let ghost texts = pieces_view(fields@);
    if fields.len() < 2 {
        return None;
    }
    let mut tags: Vec<(String, String)> = Vec::new();
    let ghost rest = texts.skip(2);
    let ghost reader = |field: Seq<char>| field_tags(field);
    let mut i: usize = 2;
    assert(tags_view(tags@) =~= rest.take(0).flat_map(reader));
    while i < fields.len()
        invariant
            2 <= i <= fields@.len(),
            texts == pieces_view(fields@),
            rest == texts.skip(2),
            reader == (|field: Seq<char>| field_tags(field)),
            tags_view(tags@) == rest.take(i - 2).flat_map(reader),
        decreases fields@.len() - i,
    {
        proof {
            rest.lemma_flat_map_take_append(reader, i - 2);
        }
        push_field_tags(&mut tags, fields[i]);
        i += 1;
    }
    assert(rest.take(i - 2) == rest);
    let kind = MetricKind::parse(text_of(fields[1]).as_str());
    Some(
        LineParts {
            name: text_of(slice_subrange(line, 0, at)),
            value: text_of(fields[0]),
            kind,
            tags,
        },
    )
}

/// Whether `sample` is what a line with these parts gives once its value was asked for: the sample
/// of the line and the value, or nothing where there is no value.
pub open spec fn measured<V>(
    parts: LineView,
    value: Option<V>,
    received_at: Instant,
    sample: Option<SampleView<V>>,
) -> bool {
    sample == match value {
        Some(value) => Some(sample_of(parts, value, received_at)),
        None => None,
    }
}

/// What a sample holds, if there is one.
pub open spec fn option_view<V>(sample: Option<Sample<V>>) -> Option<SampleView<V>> {
    match sample {
        Some(sample) => Some(sample@),
        None => None,
    }
}

/// Whether `sample` can be what a line gives when `parse_value` reads the number in it: nothing for a
/// line without parts.
pub open spec fn reads_as<V, F: Fn(&str) -> Option<V>>(
    parse_value: F,
    line: Seq<char>,
    received_at: Instant,
    sample: Option<Sample<V>>,
) -> bool {
    match line_parts(line) {
        Some(parts) => exists|value: Option<V>| #[trigger]
            answers(parse_value, parts.value, value) && measured(
                parts,
                value,
                received_at,
                option_view(sample),
            ),
        None => sample is None,
    }
}

/// Reads a line.
fn read_line<V, F: Fn(&str) -> Option<V>>(
    line: &[char],
    received_at: Instant,
    parse_value: &F,
) -> (sample: Option<Sample<V>>)
    requires
        forall|given: &str| #[trigger] call_requires(*parse_value, (given,)),
    ensures
        reads_as(*parse_value, line@, received_at, sample),
{
    match split_line(line) {
        Some(parts) => {
            let answer: Option<V> = parse_value(parts.value.as_str());
            assert(answers(*parse_value, parts@.value, answer));
            match answer {
                Some(value) => Some(
                    Sample {
                        name: parts.name,
                        value,
                        kind: parts.kind,
                        tags: parts.tags,
                        received_at,
                    },
                ),
                None => None,
            }
        },
        None => None,
    }
}

/// Reads a line. `parse_value` reads the number in it; a line without parts, or whose value is no
/// number, gives nothing.
pub fn parse_line<V, F: Fn(&str) -> Option<V>>(
    line: &str,
    received_at: Instant,
    parse_value: F,
) -> (sample: Option<Sample<V>>)
    requires
        forall|given: &str| #[trigger] call_requires(parse_value, (given,)),
    ensures
        reads_as(parse_value, line@, received_at, sample),
{
    let chars: Vec<char> = chars_of(line);
    read_line(chars.as_slice(), received_at, &parse_value)
}

/// Whether samples can be those of a datagram that came in at a moment.
pub open spec fn read_from<V, F: Fn(&str) -> Option<V>>(
    parse_value: F,
    bytes: Seq<u8>,
    received_at: Instant,
    samples: Seq<Sample<V>>,
) -> bool {
    exists|values: Seq<Option<V>>|
        {
            &&& #[trigger] all_answered(parse_value, datagram_parts(bytes), values)
            &&& samples_view(samples) == samples_of(datagram_parts(bytes), values, received_at)
        }
}

/// The number that `parse_value` reads in a text. Where it can give several answers, it is one of
/// them.
pub open spec fn number_in<V, F: Fn(&str) -> Option<V>>(
    parse_value: F,
    text: Seq<char>,
) -> Option<V> {
    choose|value: Option<V>| answers(parse_value, text, value)
}

/// The numbers that `parse_value` reads in lines.
pub open spec fn numbers_in<V, F: Fn(&str) -> Option<V>>(
    parse_value: F,
    parts: Seq<LineView>,
) -> Seq<Option<V>> {
    parts.map_values(|line: LineView| number_in(parse_value, line.value))
}

/// The samples of a datagram that came in at a moment: one for each line with a number that
/// `parse_value` can read, in the order of the lines.
pub open spec fn datagram_samples<V, F: Fn(&str) -> Option<V>>(
    parse_value: F,
    bytes: Seq<u8>,
    received_at: Instant,
) -> Seq<SampleView<V>> {
    let parts = datagram_parts(bytes);
    samples_of(parts, numbers_in(parse_value, parts), received_at)
}

/// Whether `parse_value` has no more than one answer for each of the numbers in lines.
pub open spec fn answers_once<V, F: Fn(&str) -> Option<V>>(
    parse_value: F,
    parts: Seq<LineView>,
) -> bool {
    forall|i: int, value: Option<V>, other: Option<V>|
        0 <= i < parts.len() && #[trigger] answers(parse_value, parts[i].value, value)
            && #[trigger] answers(parse_value, parts[i].value, other) ==> value == other
}

/// Reads a datagram: one sample for each line that can be read, in the order of the lines.
/// `parse_value` reads the numbers.
pub fn parse_datagram<V, F: Fn(&str) -> Option<V>>(
    bytes: &[u8],
    received_at: Instant,
    parse_value: F,
) -> (samples: Vec<Sample<V>>)
    requires
        forall|given: &str| #[trigger] call_requires(parse_value, (given,)),
    ensures
        read_from(parse_value, bytes@, received_at, samples@),
        answers_once(parse_value, datagram_parts(bytes@)) ==> samples_view(samples@)
            == datagram_samples(parse_value, bytes@, received_at),
{
    let mut samples: Vec<Sample<V>> = Vec::new();
    let ghost mut values: Seq<Option<V>> = seq![];
    let text: &str = match core::str::from_utf8(bytes) {
        Ok(text) => text,
        Err(_) => {
            assert(all_answered(parse_value, datagram_parts(bytes@), values));
            assert(samples_view(samples@) == samples_of(
                datagram_parts(bytes@),
                values,
                received_at,
            ));
            return samples;
        },
    };
    proof {
        encode_utf8_decode_utf8(text@);
    }
    let chars: Vec<char> = chars_of(text);
    let lines: Vec<&[char]> = split_chars(chars.as_slice(), '\n');
    let ghost texts = pieces_view(lines@);
    let mut i: usize = 0;
    let ghost mut parts_so_far: Seq<LineView> = seq![];
    while i < lines.len()
        invariant
            i <= lines@.len(),
            texts == pieces_view(lines@),
            forall|given: &str| #[trigger] call_requires(parse_value, (given,)),
            parts_so_far == texts.take(i as int).filter_map(line_reader()),
            all_answered(parse_value, parts_so_far, values),
            samples_view(samples@) == samples_of(parts_so_far, values, received_at),
        decreases lines@.len() - i,
    {
        let ghost samples_before = samples@;
        let ghost parts_before = parts_so_far;
        let ghost values_before = values;
        proof {
            texts.lemma_filter_map_take_succ(line_reader(), i as int);
        }
        let sample: Option<Sample<V>> = read_line(trim_chars(lines[i]), received_at, &parse_value);
        let ghost parts = line_parts(trim(texts[i as int]));
        proof {
            if let Some(view) = parts {
                let answer = choose|value: Option<V>| #[trigger]
                    answers(parse_value, view.value, value) && measured(
                        view,
                        value,
                        received_at,
                        option_view(sample),
                    );
                parts_so_far = parts_before.push(view);
                values = values_before.push(answer);
                assert(parts_so_far.drop_last() == parts_before);
                assert(values.drop_last() == values_before);
            }
            assert(parts_so_far == texts.take(i + 1).filter_map(line_reader()));
        }
        if let Some(sample) = sample {
            let ghost view = sample@;
            samples.push(sample);
            assert(samples_view(samples@) == samples_view(samples_before).push(view));
        }
        i += 1;
    }
    assert(texts.take(i as int) == texts);
    proof {
        assert(read_from(parse_value, bytes@, received_at, samples@));
        if answers_once(parse_value, datagram_parts(bytes@)) {
            one_answer_gives_one_reading(parse_value, bytes@, received_at, samples@);
        }
    }
    samples
}

/// `filter_map` works on each half of a list by itself.
proof fn lemma_filter_map_of_concat<A, B>(left: Seq<A>, right: Seq<A>, f: spec_fn(A) -> Option<B>)
    ensures
        (left + right).filter_map(f) == left.filter_map(f) + right.filter_map(f),
    decreases right.len(),
{
    if right.len() == 0 {
        assert(left + right == left);
        assert(right.filter_map(f) == Seq::<B>::empty());
        assert(left.filter_map(f) + right.filter_map(f) == left.filter_map(f));
    } else {
        let rest = right.drop_last();
        lemma_filter_map_of_concat(left, rest, f);
        assert((left + right).drop_last() == left + rest);
        assert((left + right).last() == right.last());
        match f(right.last()) {
            Some(b) => {
                assert(right.filter_map(f) == rest.filter_map(f) + seq![b]);
                assert((left + right).filter_map(f) == (left + rest).filter_map(f) + seq![b]);
                assert(left.filter_map(f) + (rest.filter_map(f) + seq![b]) == left.filter_map(f)
                    + rest.filter_map(f) + seq![b]);
            },
            None => {},
        }
    }
}

/// Lines are read independently of each other: two texts with a line break between them give what
/// the first gives and then what the second gives.
pub proof fn lines_are_read_one_by_one(first: Seq<char>, second: Seq<char>)
    ensures
        text_parts(first + seq!['\n'] + second) == text_parts(first) + text_parts(second),
{
    lemma_split_concat(first, second, '\n');
    lemma_filter_map_of_concat(split(first, '\n'), split(second, '\n'), line_reader());
}

/// Two texts one after the other are encoded one after the other.
proof fn lemma_encode_concat(first: Seq<char>, second: Seq<char>)
    ensures
        encode_utf8(first + second) == encode_utf8(first) + encode_utf8(second),
    decreases first.len(),
{
    if first.len() == 0 {
        assert(first + second == second);
        assert(encode_utf8(first) + encode_utf8(second) == encode_utf8(second));
    } else {
        let head = encode_scalar(first[0] as u32);
        let rest = first.drop_first();
        lemma_encode_concat(rest, second);
        assert((first + second).drop_first() == rest + second);
        assert((first + second)[0] == first[0]);
        assert(head + (encode_utf8(rest) + encode_utf8(second)) == head + encode_utf8(rest)
            + encode_utf8(second));
    }
}

/// The encoding of a line break.
proof fn lemma_encoded_line_break()
    ensures
        encode_utf8(seq!['\n']) == seq![10u8],
{
    let text = seq!['\n'];
    assert(is_ascii_chars(text));
    is_ascii_chars_encode_utf8(text);
    assert(text[0] as u8 == 10u8);
    assert(encode_utf8(text)[0] == 10u8);
    assert(encode_utf8(text) =~= seq![10u8]);
}

/// Two datagrams with a line break between them, sent as one, hold the lines of the first and then
/// those of the second.
pub proof fn joined_datagrams_hold_the_lines_of_both(first: Seq<u8>, second: Seq<u8>)
    requires
        valid_utf8(first),
        valid_utf8(second),
    ensures
        valid_utf8(first + seq![10u8] + second),
        datagram_parts(first + seq![10u8] + second) == datagram_parts(first) + datagram_parts(
            second,
        ),
{
    let left = decode_utf8(first);
    let right = decode_utf8(second);
    let text = left + seq!['\n'] + right;
    decode_utf8_encode_utf8(first);
    decode_utf8_encode_utf8(second);
    lemma_encode_concat(left, seq!['\n']);
    lemma_encode_concat(left + seq!['\n'], right);
    lemma_encoded_line_break();
    assert(encode_utf8(text) == first + seq![10u8] + second);
    encode_utf8_valid_utf8(text);
    encode_utf8_decode_utf8(text);
    lines_are_read_one_by_one(left, right);
}

/// Where `parse_value` has no more than one answer for each number in a datagram, there is one way to
/// read it.
pub proof fn one_answer_gives_one_reading<V, F: Fn(&str) -> Option<V>>(
    parse_value: F,
    bytes: Seq<u8>,
    received_at: Instant,
    samples: Seq<Sample<V>>,
)
    requires
        answers_once(parse_value, datagram_parts(bytes)),
        read_from(parse_value, bytes, received_at, samples),
    ensures
        samples_view(samples) == datagram_samples(parse_value, bytes, received_at),
{
    let parts = datagram_parts(bytes);
    let values = choose|values: Seq<Option<V>>|
        {
            &&& #[trigger] all_answered(parse_value, parts, values)
            &&& samples_view(samples) == samples_of(parts, values, received_at)
        };
    assert forall|i: int| 0 <= i < parts.len() implies values[i] == number_in(
        parse_value,
        parts[i].value,
    ) by {
        assert(answers(parse_value, parts[i].value, values[i]));
        assert(answers(parse_value, parts[i].value, number_in(parse_value, parts[i].value)));
    }
    assert(values == numbers_in(parse_value, parts));
}

/// The samples of lines one after the other are the samples of the ones and then of the others.
proof fn lemma_samples_of_concat<V>(
    left: Seq<LineView>,
    left_values: Seq<Option<V>>,
    right: Seq<LineView>,
    right_values: Seq<Option<V>>,
    received_at: Instant,
)
    requires
        left.len() == left_values.len(),
        right.len() == right_values.len(),
    ensures
        samples_of(left + right, left_values + right_values, received_at) == samples_of(
            left,
            left_values,
            received_at,
        ) + samples_of(right, right_values, received_at),
    decreases right.len(),
{
    if right.len() == 0 {
        assert(left + right == left);
        assert(left_values + right_values == left_values);
    } else {
        let parts = left + right;
        let values = left_values + right_values;
        lemma_samples_of_concat(
            left,
            left_values,
            right.drop_last(),
            right_values.drop_last(),
            received_at,
        );
        assert(parts.drop_last() == left + right.drop_last());
        assert(values.drop_last() == left_values + right_values.drop_last());
        assert(parts.last() == right.last());
        assert(values.last() == right_values.last());
    }
}

/// All samples bear the moment at which their datagram came in.
proof fn lemma_samples_bear_the_moment<V>(
    parts: Seq<LineView>,
    values: Seq<Option<V>>,
    received_at: Instant,
)
    ensures
        forall|i: int|
            0 <= i < samples_of(parts, values, received_at).len() ==> (#[trigger] samples_of(
                parts,
                values,
                received_at,
            )[i]).received_at == received_at,
    decreases parts.len(),
{
    if parts.len() > 0 {
        lemma_samples_bear_the_moment(parts.drop_last(), values.drop_last(), received_at);
    }
}

/// All samples of a datagram bear the moment at which it came in.
pub proof fn samples_bear_the_moment<V, F: Fn(&str) -> Option<V>>(
    parse_value: F,
    bytes: Seq<u8>,
    received_at: Instant,
    samples: Seq<Sample<V>>,
)
    requires
        read_from(parse_value, bytes, received_at, samples),
    ensures
        forall|i: int| 0 <= i < samples.len() ==> (#[trigger] samples[i]).received_at == received_at,
{
    let parts = datagram_parts(bytes);
    let values = choose|values: Seq<Option<V>>|
        {
            &&& #[trigger] all_answered(parse_value, parts, values)
            &&& samples_view(samples) == samples_of(parts, values, received_at)
        };
    lemma_samples_bear_the_moment(parts, values, received_at);
    assert forall|i: int| 0 <= i < samples.len() implies (#[trigger] samples[i]).received_at
        == received_at by {
        assert(samples_view(samples)[i] == samples[i]@);
    }
}

/// Two datagrams with a line break between them, sent as one, give the samples of the first and then
/// those of the second, each with the moment at which it came in.
pub proof fn joined_datagrams_give_the_samples_of_both<V, F: Fn(&str) -> Option<V>>(
    parse_value: F,
    first: Seq<u8>,
    second: Seq<u8>,
    received_at: Instant,
)
    requires
        valid_utf8(first),
        valid_utf8(second),
    ensures
        datagram_samples(parse_value, first + seq![10u8] + second, received_at)
            == datagram_samples(parse_value, first, received_at) + datagram_samples(
            parse_value,
            second,
            received_at,
        ),
        forall|i: int|
            0 <= i < datagram_samples(
                parse_value,
                first + seq![10u8] + second,
                received_at,
            ).len() ==> (#[trigger] datagram_samples(
                parse_value,
                first + seq![10u8] + second,
                received_at,
            )[i]).received_at == received_at,
{
    let left = datagram_parts(first);
    let right = datagram_parts(second);
    let numbers = numbers_in(parse_value, left + right);
    joined_datagrams_hold_the_lines_of_both(first, second);
    assert(numbers == numbers_in(parse_value, left) + numbers_in(parse_value, right));
    lemma_samples_of_concat(
        left,
        numbers_in(parse_value, left),
        right,
        numbers_in(parse_value, right),
        received_at,
    );
    lemma_samples_bear_the_moment(left + right, numbers, received_at);
}

/// Whatever `parse_value` answers: two datagrams with a line break between them, sent as one, can be
/// read as some samples if and only if the first can be read as the samples up to some place, and
/// the second as those from there on.
pub proof fn joined_datagrams_are_read_as_both<V, F: Fn(&str) -> Option<V>>(
    parse_value: F,
    first: Seq<u8>,
    second: Seq<u8>,
    received_at: Instant,
    samples: Seq<Sample<V>>,
)
    requires
        valid_utf8(first),
        valid_utf8(second),
    ensures
        read_from(parse_value, first + seq![10u8] + second, received_at, samples) <==> exists|
            at: int,
        |
            {
                &&& 0 <= at <= samples.len()
                &&& read_from(parse_value, first, received_at, #[trigger] samples.take(at))
                &&& read_from(parse_value, second, received_at, samples.skip(at))
            },
{
    let left = datagram_parts(first);
    let right = datagram_parts(second);
    let bytes = first + seq![10u8] + second;
    let parts = datagram_parts(bytes);
    joined_datagrams_hold_the_lines_of_both(first, second);
    if read_from(parse_value, bytes, received_at, samples) {
        let values = choose|values: Seq<Option<V>>|
            {
                &&& #[trigger] all_answered(parse_value, parts, values)
                &&& samples_view(samples) == samples_of(parts, values, received_at)
            };
        let left_values = values.take(left.len() as int);
        let right_values = values.skip(left.len() as int);
        assert(values == left_values + right_values);
        lemma_samples_of_concat(left, left_values, right, right_values, received_at);
        let at = samples_of(left, left_values, received_at).len() as int;
        assert(samples_view(samples).len() == samples.len());
        assert(samples_view(samples.take(at)) == samples_view(samples).take(at));
        assert(samples_view(samples.skip(at)) == samples_view(samples).skip(at));
        assert(samples_view(samples).take(at) == samples_of(left, left_values, received_at));
        assert(samples_view(samples).skip(at) == samples_of(right, right_values, received_at));
        assert forall|i: int| 0 <= i < left.len() implies answers(
            parse_value,
            left[i].value,
            #[trigger] left_values[i],
        ) by {
            assert(parts[i] == left[i]);
            assert(values[i] == left_values[i]);
        }
        assert forall|i: int| 0 <= i < right.len() implies answers(
            parse_value,
            right[i].value,
            #[trigger] right_values[i],
        ) by {
            assert(parts[left.len() + i] == right[i]);
            assert(values[left.len() + i] == right_values[i]);
        }
        assert(all_answered(parse_value, left, left_values));
        assert(all_answered(parse_value, right, right_values));
        assert(read_from(parse_value, first, received_at, samples.take(at)));
        assert(read_from(parse_value, second, received_at, samples.skip(at)));
    }
    if exists|at: int|
        {
            &&& 0 <= at <= samples.len()
            &&& read_from(parse_value, first, received_at, #[trigger] samples.take(at))
            &&& read_from(parse_value, second, received_at, samples.skip(at))
        } {
        let at = choose|at: int|
            {
                &&& 0 <= at <= samples.len()
                &&& read_from(parse_value, first, received_at, #[trigger] samples.take(at))
                &&& read_from(parse_value, second, received_at, samples.skip(at))
            };
        let left_values = choose|values: Seq<Option<V>>|
            {
                &&& #[trigger] all_answered(parse_value, left, values)
                &&& samples_view(samples.take(at)) == samples_of(left, values, received_at)
            };
        let right_values = choose|values: Seq<Option<V>>|
            {
                &&& #[trigger] all_answered(parse_value, right, values)
                &&& samples_view(samples.skip(at)) == samples_of(right, values, received_at)
            };
        let values = left_values + right_values;
        lemma_samples_of_concat(left, left_values, right, right_values, received_at);
        assert(samples_view(samples) == samples_view(samples.take(at)) + samples_view(
            samples.skip(at),
        ));
        assert forall|i: int| 0 <= i < parts.len() implies answers(
            parse_value,
            parts[i].value,
            #[trigger] values[i],
        ) by {
            if i < left.len() {
                assert(parts[i] == left[i]);
                assert(values[i] == left_values[i]);
            } else {
                assert(parts[i] == right[i - left.len()]);
                assert(values[i] == right_values[i - left.len()]);
            }
        }
        assert(all_answered(parse_value, parts, values));
    }
}

/// A line that cannot be read is skipped: the lines around it give what they give without it.
pub proof fn unreadable_line_is_skipped(before: Seq<char>, line: Seq<char>, after: Seq<char>)
    requires
        !line.contains('\n'),
        line_parts(trim(line)) is None,
    ensures
        text_parts(before + seq!['\n'] + line + seq!['\n'] + after) == text_parts(
            before + seq!['\n'] + after,
        ),
{
    lines_are_read_one_by_one(before + seq!['\n'] + line, after);
    lines_are_read_one_by_one(before, line);
    lines_are_read_one_by_one(before, after);
    lemma_split_single(line, '\n');
    let lines = seq![line];
    assert(lines.drop_last().filter_map(line_reader()) == Seq::<LineView>::empty());
    assert(lines.last() == line);
    assert(text_parts(line) == Seq::<LineView>::empty());
    assert(text_parts(before) + Seq::<LineView>::empty() == text_parts(before));
}

/// White space around a line, such as a carriage return before the line break, makes no
/// difference.
pub proof fn white_space_around_a_line_is_ignored(
    before: Seq<char>,
    line: Seq<char>,
    after: Seq<char>,
)
    requires
        forall|i: int| 0 <= i < before.len() ==> is_white_space(#[trigger] before[i]),
        forall|i: int| 0 <= i < after.len() ==> is_white_space(#[trigger] after[i]),
    ensures
        line_reader()(before + line + after) == line_reader()(line),
{
    lemma_trim_of_white_space_around(before, line, after);
}

/// A tag as it stands in a line.
pub open spec fn tag_text(tag: (Seq<char>, Seq<char>)) -> Seq<char> {
    tag.0 + seq![':'] + tag.1
}

/// A line that says all that a line can say.
pub open spec fn line_text(
    name: Seq<char>,
    value: Seq<char>,
    kind: Seq<char>,
    tags: Seq<(Seq<char>, Seq<char>)>,
) -> Seq<char> {
    let tag_texts = tags.map_values(|tag: (Seq<char>, Seq<char>)| tag_text(tag));
    name + seq![':'] + join(
        seq![value, kind, seq!['#'] + join(tag_texts, seq![','])],
        seq!['|'],
    )
}

/// Whether a tag holds none of the characters that end it in a line.
pub open spec fn is_plain_tag(tag: (Seq<char>, Seq<char>)) -> bool {
    &&& !tag.0.contains(':') && !tag.0.contains(',') && !tag.0.contains('|')
    &&& !tag.1.contains(',') && !tag.1.contains('|')
}

/// A tag is read back as it was written.
proof fn lemma_tag_of_tag_text(tag: (Seq<char>, Seq<char>))
    requires
        !tag.0.contains(':'),
    ensures
        tag_of(tag_text(tag)) == tag,
{
    let text = tag_text(tag);
    let at = tag.0.len();
    assert forall|i: int| 0 <= i < at implies text[i] != ':' by {
        assert(tag.0.contains(tag.0[i]));
        assert(text[i] == tag.0[i]);
    }
    assert(text[at as int] == ':');
    lemma_find_unique(text, ':', at);
    assert(text.take(at as int) == tag.0);
    assert(text.skip((at + 1) as int) == tag.1);
}

/// Tags are read back as they were written.
proof fn lemma_filter_map_of_tag_texts(tags: Seq<(Seq<char>, Seq<char>)>)
    requires
        forall|i: int| 0 <= i < tags.len() ==> !(#[trigger] tags[i]).0.contains(':'),
    ensures
        tags.map_values(|tag: (Seq<char>, Seq<char>)| tag_text(tag)).filter_map(tag_reader())
            == tags,
    decreases tags.len(),
{
    let texts = tags.map_values(|tag: (Seq<char>, Seq<char>)| tag_text(tag));
    if tags.len() == 0 {
        assert(texts.filter_map(tag_reader()) == tags);
    } else {
        let rest = tags.drop_last();
        assert forall|i: int| 0 <= i < rest.len() implies !(#[trigger] rest[i]).0.contains(':') by {
            assert(rest[i] == tags[i]);
        }
        lemma_filter_map_of_tag_texts(rest);
        assert(texts.drop_last() == rest.map_values(
            |tag: (Seq<char>, Seq<char>)| tag_text(tag),
        ));
        let last = tags[tags.len() - 1];
        lemma_tag_of_tag_text(last);
        assert(texts.last() == tag_text(last));
        assert(rest + seq![last] == tags);
    }
}

/// No text of a concatenation holds a character that none of its parts holds.
proof fn lemma_concat_lacks(left: Seq<char>, right: Seq<char>, c: char)
    requires
        !left.contains(c),
        !right.contains(c),
    ensures
        !(left + right).contains(c),
{
    if (left + right).contains(c) {
        let i = choose|i: int| 0 <= i < (left + right).len() && (left + right)[i] == c;
        if i < left.len() {
            assert(left[i] == c);
        } else {
            assert(right[i - left.len()] == c);
        }
    }
}

/// What is joined holds a character only where a piece or the separator holds it.
proof fn lemma_join_lacks(pieces: Seq<Seq<char>>, separator: Seq<char>, c: char)
    requires
        forall|i: int| 0 <= i < pieces.len() ==> !(#[trigger] pieces[i]).contains(c),
        !separator.contains(c),
    ensures
        !join(pieces, separator).contains(c),
    decreases pieces.len(),
{
    if pieces.len() > 1 {
        let rest = pieces.drop_last();
        assert forall|i: int| 0 <= i < rest.len() implies !(#[trigger] rest[i]).contains(c) by {
            assert(rest[i] == pieces[i]);
        }
        lemma_join_lacks(rest, separator, c);
        lemma_concat_lacks(join(rest, separator), separator, c);
        lemma_concat_lacks(join(rest, separator) + separator, pieces.last(), c);
    }
}

/// What is written as a line is read back from it: the name, the value, the kind and the tags in
/// their order, as long as none of them holds a character that ends it.
pub proof fn written_line_is_read_back(
    name: Seq<char>,
    value: Seq<char>,
    kind: Seq<char>,
    tags: Seq<(Seq<char>, Seq<char>)>,
)
    requires
        !name.contains(':'),
        !value.contains('|'),
        !kind.contains('|'),
        forall|i: int| 0 <= i < tags.len() ==> is_plain_tag(#[trigger] tags[i]),
    ensures
        line_parts(line_text(name, value, kind, tags)) == Some(
            LineView { name, value, kind: kind_of(kind), tags },
        ),
{
    let tag_texts = tags.map_values(|tag: (Seq<char>, Seq<char>)| tag_text(tag));
    let tag_list = join(tag_texts, seq![',']);
    let tag_field = seq!['#'] + tag_list;
    let fields = seq![value, kind, tag_field];
    let line = line_text(name, value, kind, tags);
    let at = name.len();
    assert forall|i: int| 0 <= i < at implies line[i] != ':' by {
        assert(name.contains(name[i]));
        assert(line[i] == name[i]);
    }
    assert(line[at as int] == ':');
    lemma_find_unique(line, ':', at);
    assert(line.take(at as int) == name);
    assert(line.skip((at + 1) as int) == join(fields, seq!['|']));
    assert forall|i: int| 0 <= i < tag_texts.len() implies !(#[trigger] tag_texts[i]).contains('|')
        && !tag_texts[i].contains(',') by {
        let tag = tags[i];
        assert(is_plain_tag(tag));
        lemma_concat_lacks(tag.0, seq![':'], '|');
        lemma_concat_lacks(tag.0 + seq![':'], tag.1, '|');
        lemma_concat_lacks(tag.0, seq![':'], ',');
        lemma_concat_lacks(tag.0 + seq![':'], tag.1, ',');
    }
    lemma_join_lacks(tag_texts, seq![','], '|');
    lemma_concat_lacks(seq!['#'], tag_list, '|');
    assert forall|i: int| 0 <= i < fields.len() implies !(#[trigger] fields[i]).contains('|') by {
        assert(fields[0] == value && fields[1] == kind && fields[2] == tag_field);
    }
    lemma_split_of_join(fields, '|');
    let reader = |field: Seq<char>| field_tags(field);
    let rest = fields.skip(2);
    assert(rest == seq![tag_field]);
    rest.lemma_flat_map_singleton(reader);
    assert(fields_tags(rest) == field_tags(tag_field));
    assert(tag_field.skip(1) == tag_list);
    assert forall|i: int| 0 <= i < tags.len() implies !(#[trigger] tags[i]).0.contains(':') by {
        assert(is_plain_tag(tags[i]));
    }
    lemma_filter_map_of_tag_texts(tags);
    if tags.len() == 0 {
        assert(tag_list == Seq::<char>::empty());
        lemma_split_single(tag_list, ',');
        let single = seq![tag_list];
        assert(single.last() == tag_list);
        assert(single.drop_last().filter_map(tag_reader()) == Seq::<
            (Seq<char>, Seq<char>),
        >::empty());
        assert(field_tags(tag_field) == tags);
    } else {
        lemma_split_of_join(tag_texts, ',');
    }
}

/// A line that is sent alone in a datagram, in UTF-8, arrives: its parts are those that were
/// written. This holds of a line without line breaks in it and without white space at its ends.
pub proof fn written_line_arrives(
    name: Seq<char>,
    value: Seq<char>,
    kind: Seq<char>,
    tags: Seq<(Seq<char>, Seq<char>)>,
)
    requires
        !name.contains(':'),
        !value.contains('|'),
        !kind.contains('|'),
        forall|i: int| 0 <= i < tags.len() ==> is_plain_tag(#[trigger] tags[i]),
        !line_text(name, value, kind, tags).contains('\n'),
        trim(line_text(name, value, kind, tags)) == line_text(name, value, kind, tags),
    ensures
        datagram_parts(encode_utf8(line_text(name, value, kind, tags))) == seq![
            LineView { name, value, kind: kind_of(kind), tags },
        ],
{
    let line = line_text(name, value, kind, tags);
    written_line_is_read_back(name, value, kind, tags);
    encode_utf8_valid_utf8(line);
    encode_utf8_decode_utf8(line);
    lemma_split_single(line, '\n');
    let lines = split(line, '\n');
    assert(lines == seq![line]);
    reveal_with_fuel(Seq::filter_map, 2);
    assert(lines.drop_last().filter_map(line_reader()) == Seq::<LineView>::empty());
    assert(lines.last() == line);
}

/// A part of a text holds no character that the text does not hold.
proof fn lemma_subrange_lacks(text: Seq<char>, start: int, end: int, c: char)
    requires
        0 <= start <= end <= text.len(),
        !text.contains(c),
    ensures
        !text.subrange(start, end).contains(c),
{
    let part = text.subrange(start, end);
    if part.contains(c) {
        let i = choose|i: int| 0 <= i < part.len() && part[i] == c;
        assert(text[start + i] == c);
    }
}

/// A tag that is read from a text holds no bar and no comma where the text holds none, and its key
/// no colon.
proof fn lemma_tag_of_is_plain(text: Seq<char>)
    requires
        !text.contains(','),
        !text.contains('|'),
    ensures
        is_plain_tag(tag_of(text)),
{
    lemma_find(text, ':');
    let at = find(text, ':') as int;
    lemma_subrange_lacks(text, 0, at, ',');
    lemma_subrange_lacks(text, 0, at, '|');
    if at < text.len() {
        lemma_subrange_lacks(text, at + 1, text.len() as int, ',');
        lemma_subrange_lacks(text, at + 1, text.len() as int, '|');
        let key = text.take(at);
        if key.contains(':') {
            let i = choose|i: int| 0 <= i < key.len() && key[i] == ':';
            assert(text[i] == ':');
        }
    }
}

/// The tags that are read from texts without bars and commas are plain.
proof fn lemma_tags_read_are_plain(texts: Seq<Seq<char>>)
    requires
        forall|i: int|
            0 <= i < texts.len() ==> !(#[trigger] texts[i]).contains(',') && !texts[i].contains('|'),
    ensures
        forall|i: int|
            0 <= i < texts.filter_map(tag_reader()).len() ==> is_plain_tag(
                #[trigger] texts.filter_map(tag_reader())[i],
            ),
    decreases texts.len(),
{
    if texts.len() > 0 {
        let rest = texts.drop_last();
        assert forall|i: int| 0 <= i < rest.len() implies !(#[trigger] rest[i]).contains(',')
            && !rest[i].contains('|') by {
            assert(rest[i] == texts[i]);
        }
        lemma_tags_read_are_plain(rest);
        assert(texts.last() == texts[texts.len() - 1]);
        lemma_tag_of_is_plain(texts.last());
        let tags = texts.filter_map(tag_reader());
        let before = rest.filter_map(tag_reader());
        assert forall|i: int| 0 <= i < tags.len() implies is_plain_tag(#[trigger] tags[i]) by {
            if i < before.len() {
                assert(tags[i] == before[i]);
            }
        }
    }
}

/// The tags in fields without bars are plain.
proof fn lemma_fields_tags_are_plain(fields: Seq<Seq<char>>)
    requires
        forall|i: int| 0 <= i < fields.len() ==> !(#[trigger] fields[i]).contains('|'),
    ensures
        forall|i: int|
            0 <= i < fields_tags(fields).len() ==> is_plain_tag(#[trigger] fields_tags(fields)[i]),
    decreases fields.len(),
{
    let reader = |field: Seq<char>| field_tags(field);
    if fields.len() == 0 {
        assert(fields_tags(fields) == Seq::<(Seq<char>, Seq<char>)>::empty());
    } else {
        let rest = fields.drop_last();
        let last = fields[fields.len() - 1];
        assert forall|i: int| 0 <= i < rest.len() implies !(#[trigger] rest[i]).contains('|') by {
            assert(rest[i] == fields[i]);
        }
        lemma_fields_tags_are_plain(rest);
        rest.lemma_flat_map_push(reader, last);
        assert(rest.push(last) == fields);
        assert(fields_tags(fields) == fields_tags(rest) + field_tags(last));
        if last.len() > 0 && last[0] == '#' {
            let list = last.skip(1);
            lemma_subrange_lacks(last, 1, last.len() as int, '|');
            assert(list == last.subrange(1, last.len() as int));
            lemma_split(list, ',');
            lemma_pieces_lack(list, ',', '|');
            lemma_tags_read_are_plain(split(list, ','));
        }
    }
}

/// The pieces of a text hold no character that the text does not hold.
proof fn lemma_pieces_lack(text: Seq<char>, separator: char, c: char)
    requires
        !text.contains(c),
    ensures
        forall|i: int|
            0 <= i < split(text, separator).len() ==> !(#[trigger] split(
                text,
                separator,
            )[i]).contains(c),
    decreases text.len(),
{
    let at = find(text, separator) as int;
    lemma_find(text, separator);
    if at < text.len() {
        lemma_subrange_lacks(text, 0, at, c);
        lemma_subrange_lacks(text, at + 1, text.len() as int, c);
        let rest = text.skip(at + 1);
        assert(rest == text.subrange(at + 1, text.len() as int));
        lemma_pieces_lack(rest, separator, c);
        assert forall|i: int| 0 <= i < split(text, separator).len() implies !(#[trigger] split(
            text,
            separator,
        )[i]).contains(c) by {
            if i > 0 {
                assert(split(text, separator)[i] == split(rest, separator)[i - 1]);
            }
        }
    }
}

/// What is read from a line holds none of the characters that end it: a name no colon, a value no
/// bar, a tag no bar and no comma, and the key of a tag no colon.
pub proof fn parts_hold_no_separators(line: Seq<char>)
    ensures
        line_parts(line) matches Some(parts) ==> !parts.name.contains(':') && !parts.value.contains(
            '|',
        ) && forall|i: int|
            0 <= i < parts.tags.len() ==> is_plain_tag(#[trigger] parts.tags[i]),
{
    if let Some(parts) = line_parts(line) {
        lemma_find(line, ':');
        let at = find(line, ':') as int;
        let fields = split(line.skip(at + 1), '|');
        lemma_split(line.skip(at + 1), '|');
        if parts.name.contains(':') {
            let i = choose|i: int| 0 <= i < parts.name.len() && parts.name[i] == ':';
            assert(line[i] == ':');
        }
        let rest = fields.skip(2);
        assert forall|i: int| 0 <= i < rest.len() implies !(#[trigger] rest[i]).contains('|') by {
            assert(rest[i] == fields[i + 2]);
        }
        lemma_fields_tags_are_plain(rest);
    }
}

/// A line that starts with a name, a value and a kind, and goes on with any other fields.
pub open spec fn line_with_fields(
    name: Seq<char>,
    value: Seq<char>,
    kind: Seq<char>,
    fields: Seq<Seq<char>>,
) -> Seq<char> {
    name + seq![':'] + join(seq![value, kind] + fields, seq!['|'])
}

/// Whether a name, a value, a kind and fields hold none of the characters that end them in a line.
pub open spec fn fit_in_a_line(
    name: Seq<char>,
    value: Seq<char>,
    kind: Seq<char>,
    fields: Seq<Seq<char>>,
) -> bool {
    &&& !name.contains(':')
    &&& !value.contains('|') && !kind.contains('|')
    &&& forall|i: int| 0 <= i < fields.len() ==> !(#[trigger] fields[i]).contains('|')
}

proof fn lemma_parts_of_fields(
    name: Seq<char>,
    value: Seq<char>,
    kind: Seq<char>,
    fields: Seq<Seq<char>>,
)
    requires
        fit_in_a_line(name, value, kind, fields),
    ensures
        line_parts(line_with_fields(name, value, kind, fields)) == Some(
            LineView { name, value, kind: kind_of(kind), tags: fields_tags(fields) },
        ),
{
    let all = seq![value, kind] + fields;
    let rest = join(all, seq!['|']);
    let line = line_with_fields(name, value, kind, fields);
    let at = name.len();
    assert forall|i: int| 0 <= i < at implies line[i] != ':' by {
        assert(name.contains(name[i]));
        assert(line[i] == name[i]);
    }
    assert(line[at as int] == ':');
    lemma_find_unique(line, ':', at);
    assert(line.take(at as int) == name);
    assert(line.skip((at + 1) as int) == rest);
    assert forall|i: int| 0 <= i < all.len() implies !(#[trigger] all[i]).contains('|') by {
        if i >= 2 {
            assert(all[i] == fields[i - 2]);
        }
    }
    lemma_split_of_join(all, '|');
    assert(all.skip(2) == fields);
}

/// A line is read if and only if a bar follows somewhere after a colon.
pub proof fn line_is_read_if_a_bar_follows_a_colon(line: Seq<char>)
    ensures
        line_parts(line) is Some <==> exists|i: int, j: int|
            0 <= i < j < line.len() && #[trigger] line[i] == ':' && #[trigger] line[j] == '|',
{
    lemma_find(line, ':');
    let at = find(line, ':') as int;
    if at < line.len() {
        let rest = line.skip(at + 1);
        lemma_find(rest, '|');
        let bar = find(rest, '|') as int;
        if bar < rest.len() {
            lemma_split(rest.skip(bar + 1), '|');
            assert(split(rest, '|').len() >= 2);
            assert(line[at] == ':');
            assert(line[at + 1 + bar] == rest[bar]);
        } else {
            lemma_split_single(rest, '|');
            if exists|i: int, j: int|
                0 <= i < j < line.len() && #[trigger] line[i] == ':' && #[trigger] line[j] == '|' {
                let (i, j) = choose|i: int, j: int|
                    0 <= i < j < line.len() && #[trigger] line[i] == ':' && #[trigger] line[j]
                        == '|';
                assert(i >= at);
                assert(rest[j - at - 1] == '|');
            }
        }
    }
}

/// A line gives the name, the value and the kind that it starts with, whatever fields follow.
pub proof fn line_gives_name_value_and_kind(
    name: Seq<char>,
    value: Seq<char>,
    kind: Seq<char>,
    fields: Seq<Seq<char>>,
)
    requires
        fit_in_a_line(name, value, kind, fields),
    ensures
        line_parts(line_with_fields(name, value, kind, fields)) matches Some(parts) && parts.name
            == name && parts.value == value && parts.kind == kind_of(kind),
{
    lemma_parts_of_fields(name, value, kind, fields);
}

/// A field behind the kind that does not start with a hash sign changes nothing: the line is read
/// as if it were not there.
pub proof fn other_fields_change_nothing(
    name: Seq<char>,
    value: Seq<char>,
    kind: Seq<char>,
    before: Seq<Seq<char>>,
    field: Seq<char>,
    after: Seq<Seq<char>>,
)
    requires
        fit_in_a_line(name, value, kind, before + seq![field] + after),
        field.len() == 0 || field[0] != '#',
    ensures
        line_parts(line_with_fields(name, value, kind, before + seq![field] + after)) == line_parts(
            line_with_fields(name, value, kind, before + after),
        ),
        line_parts(line_with_fields(name, value, kind, before + seq![field] + after)) is Some,
{
    let all = before + seq![field] + after;
    let others = before + after;
    assert forall|i: int| 0 <= i < others.len() implies !(#[trigger] others[i]).contains('|') by {
        if i < before.len() {
            assert(others[i] == all[i]);
        } else {
            assert(others[i] == all[i + 1]);
        }
    }
    lemma_parts_of_fields(name, value, kind, all);
    lemma_parts_of_fields(name, value, kind, others);
    lemma_fields_tags_of_concat(before + seq![field], after);
    lemma_fields_tags_of_concat(before, seq![field]);
    lemma_fields_tags_of_concat(before, after);
    lemma_fields_tags_of_one(field);
    assert(fields_tags(before) + Seq::<(Seq<char>, Seq<char>)>::empty() == fields_tags(before));
}

proof fn lemma_fields_tags_of_one(field: Seq<char>)
    ensures
        fields_tags(seq![field]) == field_tags(field),
        fields_tags(Seq::<Seq<char>>::empty()) == Seq::<(Seq<char>, Seq<char>)>::empty(),
{
    let reader = |field: Seq<char>| field_tags(field);
    seq![field].lemma_flat_map_singleton(reader);
    assert(Seq::<Seq<char>>::empty().flat_map(reader) =~= Seq::<(Seq<char>, Seq<char>)>::empty());
}

proof fn lemma_fields_tags_of_concat(left: Seq<Seq<char>>, right: Seq<Seq<char>>)
    ensures
        fields_tags(left + right) == fields_tags(left) + fields_tags(right),
    decreases right.len(),
{
    let reader = |field: Seq<char>| field_tags(field);
    if right.len() == 0 {
        lemma_fields_tags_of_one(seq![]);
        assert(right == Seq::<Seq<char>>::empty());
        assert(left + right == left);
        assert(fields_tags(left) + fields_tags(right) == fields_tags(left));
    } else {
        let rest = right.drop_last();
        let last = right.last();
        lemma_fields_tags_of_concat(left, rest);
        (left + rest).lemma_flat_map_push(reader, last);
        rest.lemma_flat_map_push(reader, last);
        assert((left + rest).push(last) == left + right);
        assert(rest.push(last) == right);
        assert(fields_tags(left) + (fields_tags(rest) + field_tags(last)) == fields_tags(left)
            + fields_tags(rest) + field_tags(last));
    }
}

/// The tags of a line are those of its fields, one field after the other; a line without fields
/// behind its kind has none.
pub proof fn tags_come_from_the_fields_in_their_order(
    name: Seq<char>,
    value: Seq<char>,
    kind: Seq<char>,
    left: Seq<Seq<char>>,
    right: Seq<Seq<char>>,
)
    requires
        fit_in_a_line(name, value, kind, left),
        fit_in_a_line(name, value, kind, right),
    ensures
        line_parts(line_with_fields(name, value, kind, left + right))->0.tags == line_parts(
            line_with_fields(name, value, kind, left),
        )->0.tags + line_parts(line_with_fields(name, value, kind, right))->0.tags,
        line_parts(line_with_fields(name, value, kind, seq![]))->0.tags.len() == 0,
{
    let all = left + right;
    assert forall|i: int| 0 <= i < all.len() implies !(#[trigger] all[i]).contains('|') by {
        if i < left.len() {
            assert(all[i] == left[i]);
        } else {
            assert(all[i] == right[i - left.len()]);
        }
    }
    lemma_parts_of_fields(name, value, kind, left);
    lemma_parts_of_fields(name, value, kind, right);
    lemma_parts_of_fields(name, value, kind, all);
    lemma_parts_of_fields(name, value, kind, seq![]);
    lemma_fields_tags_of_concat(left, right);
    lemma_fields_tags_of_one(seq![]);
}

/// Whether a tag is what a text between commas says: its key, and behind the first colon its value,
/// which is empty where there is no colon.
pub open spec fn says_tag(text: Seq<char>, tag: (Seq<char>, Seq<char>)) -> bool {
    &&& !tag.0.contains(':')
    &&& text == tag.0 + seq![':'] + tag.1 || (text == tag.0 && tag.1.len() == 0)
}

proof fn lemma_tag_of_what_is_said(text: Seq<char>, tag: (Seq<char>, Seq<char>))
    requires
        says_tag(text, tag),
    ensures
        tag_of(text) == tag,
{
    if text == tag.0 && tag.1.len() == 0 {
        lemma_find(text, ':');
        assert(tag.1 == Seq::<char>::empty());
    } else {
        lemma_tag_of_tag_text(tag);
        assert(text == tag_text(tag));
    }
}

/// A field that starts with a hash sign gives a tag for each text between its commas that is not
/// empty, in their order: the key up to the first colon, and the value behind it.
pub proof fn tag_field_gives_its_tags(
    name: Seq<char>,
    value: Seq<char>,
    kind: Seq<char>,
    texts: Seq<Seq<char>>,
    tags: Seq<(Seq<char>, Seq<char>)>,
)
    requires
        fit_in_a_line(name, value, kind, texts),
        texts.len() == tags.len(),
        forall|i: int|
            0 <= i < texts.len() ==> (#[trigger] texts[i]).len() > 0 && !texts[i].contains(',')
                && says_tag(texts[i], tags[i]),
    ensures
        line_parts(
            line_with_fields(name, value, kind, seq![seq!['#'] + join(texts, seq![','])]),
        )->0.tags == tags,
{
    lemma_tag_field(name, value, kind, texts);
    lemma_said_tags(texts, tags);
}

proof fn lemma_said_tags(texts: Seq<Seq<char>>, tags: Seq<(Seq<char>, Seq<char>)>)
    requires
        texts.len() == tags.len(),
        forall|i: int|
            0 <= i < texts.len() ==> (#[trigger] texts[i]).len() > 0 && says_tag(texts[i], tags[i]),
    ensures
        texts.filter_map(tag_reader()) == tags,
    decreases texts.len(),
{
    if texts.len() > 0 {
        let rest = texts.drop_last();
        assert forall|i: int| 0 <= i < rest.len() implies (#[trigger] rest[i]).len() > 0
            && says_tag(rest[i], tags.drop_last()[i]) by {
            assert(rest[i] == texts[i]);
        }
        lemma_said_tags(rest, tags.drop_last());
        let last = texts[texts.len() - 1];
        lemma_tag_of_what_is_said(last, tags.last());
        assert(tags.drop_last().push(tags.last()) == tags);
    } else {
        assert(tags == Seq::<(Seq<char>, Seq<char>)>::empty());
    }
}

/// A text between commas that is empty gives no tag: the field is read as if it were not there.
pub proof fn empty_tags_are_skipped(
    name: Seq<char>,
    value: Seq<char>,
    kind: Seq<char>,
    before: Seq<Seq<char>>,
    after: Seq<Seq<char>>,
)
    requires
        fit_in_a_line(name, value, kind, before + after),
        forall|i: int| 0 <= i < (before + after).len() ==> !(#[trigger] (before + after)[i]).contains(
            ',',
        ),
    ensures
        line_parts(
            line_with_fields(
                name,
                value,
                kind,
                seq![seq!['#'] + join(before + seq![seq![]] + after, seq![','])],
            ),
        ) == line_parts(
            line_with_fields(
                name,
                value,
                kind,
                seq![seq!['#'] + join(before + after, seq![','])],
            ),
        ),
{
    let gap = seq![Seq::<char>::empty()];
    let all = before + gap + after;
    let others = before + after;
    assert forall|i: int| 0 <= i < all.len() implies !(#[trigger] all[i]).contains(',')
        && !all[i].contains('|') by {
        if i < before.len() {
            assert(all[i] == others[i]);
        } else if i > before.len() {
            assert(all[i] == others[i - 1]);
        }
    }
    lemma_tag_field(name, value, kind, all);
    lemma_filter_map_of_concat(before + gap, after, tag_reader());
    lemma_filter_map_of_concat(before, gap, tag_reader());
    lemma_filter_map_of_concat(before, after, tag_reader());
    assert(gap.last() == Seq::<char>::empty());
    assert(gap.drop_last().filter_map(tag_reader()) == Seq::<(Seq<char>, Seq<char>)>::empty());
    assert(gap.filter_map(tag_reader()) == Seq::<(Seq<char>, Seq<char>)>::empty());
    assert(before.filter_map(tag_reader()) + Seq::<(Seq<char>, Seq<char>)>::empty()
        == before.filter_map(tag_reader()));
    lemma_tag_field(name, value, kind, others);
}

/// A tag field gives what its texts give.
proof fn lemma_tag_field(
    name: Seq<char>,
    value: Seq<char>,
    kind: Seq<char>,
    texts: Seq<Seq<char>>,
)
    requires
        fit_in_a_line(name, value, kind, texts),
        forall|i: int| 0 <= i < texts.len() ==> !(#[trigger] texts[i]).contains(','),
    ensures
        line_parts(
            line_with_fields(name, value, kind, seq![seq!['#'] + join(texts, seq![','])]),
        ) == Some(
            LineView {
                name,
                value,
                kind: kind_of(kind),
                tags: texts.filter_map(tag_reader()),
            },
        ),
{
    let list = join(texts, seq![',']);
    let field = seq!['#'] + list;
    lemma_join_lacks(texts, seq![','], '|');
    lemma_concat_lacks(seq!['#'], list, '|');
    let fields = seq![field];
    assert forall|i: int| 0 <= i < fields.len() implies !(#[trigger] fields[i]).contains('|') by {
        assert(fields[i] == field);
    }
    lemma_parts_of_fields(name, value, kind, fields);
    lemma_fields_tags_of_one(field);
    assert(field.skip(1) == list);
    if texts.len() == 0 {
        assert(list == Seq::<char>::empty());
        lemma_split_single(list, ',');
        let single = seq![list];
        assert(single.last() == list);
        assert(single.drop_last().filter_map(tag_reader()) == Seq::<
            (Seq<char>, Seq<char>),
        >::empty());
        assert(texts == Seq::<Seq<char>>::empty());
        assert(texts.filter_map(tag_reader()) == Seq::<(Seq<char>, Seq<char>)>::empty());
    } else {
        lemma_split_of_join(texts, ',');
    }
}

/// Each kind has one code, and any other text names a kind that is known by that text alone.
pub proof fn each_kind_has_one_code(raw: Seq<char>)
    ensures
        kind_of(raw) is Counter <==> raw == seq!['c'],
        kind_of(raw) is Gauge <==> raw == seq!['g'],
        kind_of(raw) is Histogram <==> raw == seq!['h'],
        kind_of(raw) is Timer <==> raw == seq!['m', 's'],
        kind_of(raw) is Distribution <==> raw == seq!['d'],
        kind_of(raw) is UniqueSet <==> raw == seq!['s'],
        kind_of(raw) matches KindView::Unknown(text) ==> text == raw,
{
    assert(seq!['c'][0] == 'c' && seq!['g'][0] == 'g' && seq!['h'][0] == 'h' && seq!['d'][0] == 'd'
        && seq!['s'][0] == 's' && seq!['m', 's'][0] == 'm');
    assert(seq!['s'].len() == 1 && seq!['m', 's'].len() == 2);
}

/// An unknown kind is shown as it was named, and a known one by its word.
pub proof fn kinds_are_shown_by_their_words(raw: Seq<char>)
    ensures
        kind_word(KindView::Unknown(raw)) == raw,
        kind_word(KindView::Counter) == seq!['c', 'o', 'u', 'n', 't', 'e', 'r'],
        kind_word(KindView::Gauge) == seq!['g', 'a', 'u', 'g', 'e'],
        kind_word(KindView::Histogram) == seq!['h', 'i', 's', 't', 'o', 'g', 'r', 'a', 'm'],
        kind_word(KindView::Timer) == seq!['t', 'i', 'm', 'e', 'r'],
        kind_word(KindView::UniqueSet) == seq!['s', 'e', 't'],
        kind_word(KindView::Distribution) == seq!['d', 'i', 's', 't', 'r', 'i', 'b', 'u', 't', 'i']
            + seq!['o', 'n'],
{
    reveal_strlit("counter");
    reveal_strlit("gauge");
    reveal_strlit("histogram");
    reveal_strlit("timer");
    reveal_strlit("distribution");
    reveal_strlit("set");
}

/// Whether a text neither starts nor ends with white space.
pub open spec fn has_no_white_ends(text: Seq<char>) -> bool {
    text.len() > 0 ==> !is_white_space(text[0]) && !is_white_space(text.last())
}

/// A line between white space is read as the line alone.
pub proof fn line_is_read_between_white_space(
    before: Seq<char>,
    line: Seq<char>,
    after: Seq<char>,
)
    requires
        forall|i: int| 0 <= i < before.len() ==> is_white_space(#[trigger] before[i]),
        forall|i: int| 0 <= i < after.len() ==> is_white_space(#[trigger] after[i]),
        has_no_white_ends(line),
    ensures
        line_reader()(before + line + after) == line_parts(line),
{
    lemma_trim_of_white_space_around(before, line, after);
    let range = trimming_cuts_off_white_space_only(line);
    if line.len() > 0 {
        if range.0 > 0 {
            assert(is_white_space(line[0]));
        }
        if range.1 < line.len() {
            assert(is_white_space(line[line.len() - 1]));
        }
        if range.0 == range.1 {
            assert(is_white_space(line[0]));
        }
    }
    assert(line.subrange(range.0, range.1) == line);
}

/// A text of one line gives what the line gives, between whatever white space it stands: its parts
/// where it can be read, and nothing where it cannot.
pub proof fn one_line_gives_its_parts(before: Seq<char>, line: Seq<char>, after: Seq<char>)
    requires
        !(before + line + after).contains('\n'),
        forall|i: int| 0 <= i < before.len() ==> is_white_space(#[trigger] before[i]),
        forall|i: int| 0 <= i < after.len() ==> is_white_space(#[trigger] after[i]),
        has_no_white_ends(line),
    ensures
        line_parts(line) matches Some(parts) ==> text_parts(before + line + after) == seq![parts],
        line_parts(line) is None ==> text_parts(before + line + after).len() == 0,
{
    let text = before + line + after;
    line_is_read_between_white_space(before, line, after);
    lemma_split_single(text, '\n');
    let lines = seq![text];
    assert(lines.drop_last().filter_map(line_reader()) == Seq::<LineView>::empty());
    assert(lines.last() == text);
}

/// A text that is sent in UTF-8 gives the lines of the text, and bytes that are not UTF-8 give
/// none.
pub proof fn datagrams_are_texts_in_utf8(text: Seq<char>, bytes: Seq<u8>)
    ensures
        datagram_parts(encode_utf8(text)) == text_parts(text),
        !valid_utf8(bytes) ==> datagram_parts(bytes).len() == 0,
{
    encode_utf8_valid_utf8(text);
    encode_utf8_decode_utf8(text);
}

/// Whether a sample is that of a line whose number was read as its value, at a moment.
pub open spec fn is_sample_of<V, F: Fn(&str) -> Option<V>>(
    parse_value: F,
    parts: LineView,
    received_at: Instant,
    sample: Sample<V>,
) -> bool {
    &&& sample.name@ == parts.name
    &&& sample.kind@ == parts.kind
    &&& sample.tags@.len() == parts.tags.len()
    &&& forall|i: int|
        0 <= i < parts.tags.len() ==> (#[trigger] sample.tags@[i]).0@ == parts.tags[i].0
            && sample.tags@[i].1@ == parts.tags[i].1
    &&& sample.received_at == received_at
    &&& exists|given: &str|
        given@ == parts.value && #[trigger] call_ensures(
            parse_value,
            (given,),
            Some(sample.value),
        )
}

proof fn lemma_measured_sample<V, F: Fn(&str) -> Option<V>>(
    parse_value: F,
    parts: LineView,
    value: Option<V>,
    received_at: Instant,
    sample: Sample<V>,
)
    requires
        answers(parse_value, parts.value, value),
        measured(parts, value, received_at, Some(sample@)),
    ensures
        is_sample_of(parse_value, parts, received_at, sample),
{
    assert(value == Some(sample.value));
    let given = choose|given: &str|
        given@ == parts.value && #[trigger] call_ensures(parse_value, (given,), value);
    assert(call_ensures(parse_value, (given,), Some(sample.value)));
    assert(tags_view(sample.tags@) == parts.tags);
    assert forall|i: int| 0 <= i < parts.tags.len() implies (#[trigger] sample.tags@[i]).0@
        == parts.tags[i].0 && sample.tags@[i].1@ == parts.tags[i].1 by {
        assert(tags_view(sample.tags@)[i] == (sample.tags@[i].0@, sample.tags@[i].1@));
    }
}

/// A line with parts gives a sample with its name, kind and tags, the moment, and the number that
/// was read in its value; or none, where no number was read. A line without parts gives none.
pub proof fn line_becomes_its_sample<V, F: Fn(&str) -> Option<V>>(
    parse_value: F,
    line: Seq<char>,
    received_at: Instant,
    sample: Option<Sample<V>>,
)
    requires
        reads_as(parse_value, line, received_at, sample),
    ensures
        line_parts(line) is None ==> sample is None,
        line_parts(line) matches Some(parts) ==> match sample {
            Some(sample) => is_sample_of(parse_value, parts, received_at, sample),
            None => exists|given: &str|
                given@ == parts.value && #[trigger] call_ensures(
                    parse_value,
                    (given,),
                    None::<V>,
                ),
        },
{
    if let Some(parts) = line_parts(line) {
        let value = choose|value: Option<V>| #[trigger]
            answers(parse_value, parts.value, value) && measured(
                parts,
                value,
                received_at,
                option_view(sample),
            );
        if let Some(sample) = sample {
            lemma_measured_sample(parse_value, parts, value, received_at, sample);
        }
    }
}

/// A datagram without readable lines gives no samples. One with a single readable line gives the
/// sample of that line, or none where no number was read in it.
pub proof fn one_line_becomes_its_sample<V, F: Fn(&str) -> Option<V>>(
    parse_value: F,
    bytes: Seq<u8>,
    received_at: Instant,
    samples: Seq<Sample<V>>,
    parts: LineView,
)
    requires
        read_from(parse_value, bytes, received_at, samples),
    ensures
        datagram_parts(bytes).len() == 0 ==> samples.len() == 0,
        datagram_parts(bytes) == seq![parts] ==> {
            ||| samples.len() == 1 && is_sample_of(parse_value, parts, received_at, samples[0])
            ||| samples.len() == 0 && exists|given: &str|
                given@ == parts.value && #[trigger] call_ensures(
                    parse_value,
                    (given,),
                    None::<V>,
                )
        },
{
    let all = datagram_parts(bytes);
    let values = choose|values: Seq<Option<V>>|
        {
            &&& #[trigger] all_answered(parse_value, all, values)
            &&& samples_view(samples) == samples_of(all, values, received_at)
        };
    assert(samples_view(samples).len() == samples.len());
    reveal_with_fuel(samples_of, 2);
    if all == seq![parts] {
        assert(answers(parse_value, all[0].value, values[0]));
        assert(all.drop_last() == Seq::<LineView>::empty());
        if let Some(value) = values[0] {
            assert(samples_view(samples)[0] == sample_of(parts, value, received_at));
            assert(samples_view(samples)[0] == samples[0]@);
            lemma_measured_sample(parse_value, parts, values[0], received_at, samples[0]);
        }
    }
}

/// What a kind holds tells which kind it is, and of one that is not known how it was named.
pub proof fn kinds_are_told_apart(kind: MetricKind)
    ensures
        kind@ is Counter <==> kind is Counter,
        kind@ is Gauge <==> kind is Gauge,
        kind@ is Histogram <==> kind is Histogram,
        kind@ is Timer <==> kind is Timer,
        kind@ is Distribution <==> kind is Distribution,
        kind@ is UniqueSet <==> kind is UniqueSet,
        kind matches MetricKind::Unknown(raw) ==> kind@ == KindView::Unknown(raw@),
        kind@ is Unknown <==> kind is Unknown,
{
}

/// What a sample holds stands in its fields, its tags in their order.
pub proof fn samples_hold_their_fields<V>(sample: Sample<V>)
    ensures
        sample@.name == sample.name@,
        sample@.value == sample.value,
        sample@.kind == sample.kind@,
        sample@.received_at == sample.received_at,
        sample@.tags.len() == sample.tags@.len(),
        forall|i: int|
            0 <= i < sample.tags@.len() ==> (#[trigger] sample@.tags[i]).0 == sample.tags@[i].0@
                && sample@.tags[i].1 == sample.tags@[i].1@,
{
}

} // verus!
