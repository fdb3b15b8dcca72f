//! Text building blocks for the generated C++ sources.
//!
//! A source is put together from templates. In a template `$0` to `$9` stand for
//! the arguments; every other character stands for itself.
use vstd::prelude::*;

verus! {

/// `String::push` appends the character to the end of the string.
pub assume_specification[ String::push ](s: &mut String, c: char)
    ensures
        final(s)@ == old(s)@.push(c),
;

/// The character of a decimal digit.
pub open spec fn digit_char(d: nat) -> char {
    (48 + d) as char
}

/// The decimal digits of a number, most significant first, without leading zeros.
pub open spec fn dec(n: nat) -> Seq<char>
    decreases n,
{
    if n < 10 {
        seq![digit_char(n)]
    } else {
        dec(n / 10).push(digit_char(n % 10))
    }
}

fn digit_of(d: u64) -> (c: char)
    requires
        d < 10,
    ensures
        c == digit_char(d as nat),
{
    match d {
        0 => '0',
        1 => '1',
        2 => '2',
        3 => '3',
        4 => '4',
        5 => '5',
        6 => '6',
        7 => '7',
        8 => '8',
        _ => '9',
    }
}

/// The decimal digits of `n`.
pub fn dec_text(n: u64) -> (text: String)
    ensures
        text@ == dec(n as nat),
    decreases n,
{
    if n < 10 {
        let mut text = String::new();
        text.push(digit_of(n));
        assert(text@ =~= dec(n as nat));
        text
    } else {
        let mut text = dec_text(n / 10);
        text.push(digit_of(n % 10));
        text
    }
}

/// The number that a sequence of decimal digits stands for.
pub open spec fn number_of(digits: Seq<char>) -> int
    decreases digits.len(),
{
    if digits.len() == 0 {
        0
    } else {
        number_of(digits.drop_last()) * 10 + (digits.last() as int - 48)
    }
}

proof fn lemma_dec_reads_back(n: nat)
    ensures
        number_of(dec(n)) == n,
    decreases n,
{
    if n < 10 {
        assert(dec(n).drop_last() =~= Seq::<char>::empty());
        assert(number_of(dec(n).drop_last()) == 0);
        assert(dec(n).last() as int == 48 + n);
    } else {
        lemma_dec_reads_back(n / 10);
        assert(dec(n).drop_last() =~= dec(n / 10));
        assert(dec(n).last() as int == 48 + n % 10);
    }
}

/// Two numbers with the same decimal digits are equal, so the identifiers that a
/// source numbers with them never collide.
pub proof fn law_dec_is_injective(a: nat, b: nat)
    requires
        dec(a) == dec(b),
    ensures
        a == b,
{
    lemma_dec_reads_back(a);
    lemma_dec_reads_back(b);
}

/// Whether `template` starts with a placeholder for one of `count` arguments.
pub open spec fn starts_with_placeholder(template: Seq<char>, count: nat) -> bool {
    &&& template.len() >= 2
    &&& template[0] == '$'
    &&& 48 <= template[1] as int
    &&& (template[1] as int) - 48 < count
    &&& template[1] as int <= 57
}

/// The template with every placeholder replaced by its argument, in one pass:
/// a `$` inside an argument is not looked at again.
pub open spec fn fill(template: Seq<char>, args: Seq<Seq<char>>) -> Seq<char>
    decreases template.len(),
{
    if template.len() == 0 {
        Seq::empty()
    } else if starts_with_placeholder(template, args.len()) {
        args[template[1] as int - 48] + fill(template.skip(2), args)
    } else {
        seq![template[0]] + fill(template.skip(1), args)
    }
}

/// Whether a text has no placeholder sign.
pub open spec fn is_plain(text: Seq<char>) -> bool {
    forall|i: int| 0 <= i < text.len() ==> text[i] != '$'
}

/// The placeholder of an argument.
pub open spec fn placeholder(index: nat) -> Seq<char> {
    seq!['$', digit_char(index)]
}

/// What stands in front of the first placeholder is kept, the placeholder gives way to its
/// argument, and the rest is filled in the same way.
pub proof fn law_placeholders_give_way(head: Seq<char>, index: nat, rest: Seq<char>, args: Seq<Seq<char>>)
    requires
        is_plain(head),
        index < args.len(),
        index < 10,
    ensures
        fill(head + placeholder(index) + rest, args) == head + args[index as int] + fill(rest, args),
    decreases head.len(),
{
    let template = head + placeholder(index) + rest;
    if head.len() == 0 {
        assert(template[0] == '$');
        assert(template[1] as int == 48 + index);
        assert(template.skip(2) =~= rest);
        assert(head + args[index as int] + fill(rest, args) =~= args[index as int] + fill(rest, args));
    } else {
        assert(template[0] == head[0]);
        assert(template.skip(1) =~= head.skip(1) + placeholder(index) + rest);
        law_placeholders_give_way(head.skip(1), index, rest, args);
        assert(head + args[index as int] + fill(rest, args) =~= seq![head[0]] + (head.skip(1)
            + args[index as int] + fill(rest, args)));
    }
}

/// A text without placeholder signs stays as it is, whatever the arguments.
pub proof fn law_plain_text_is_kept(text: Seq<char>, args: Seq<Seq<char>>)
    requires
        is_plain(text),
    ensures
        fill(text, args) == text,
    decreases text.len(),
{
    if text.len() > 0 {
        assert(text.skip(1)[0int] == text.skip(1)[0int]);
        law_plain_text_is_kept(text.skip(1), args);
        assert(seq![text[0]] + text.skip(1) =~= text);
    }
}

/// Parts of a template are filled on their own, where no placeholder is cut in two.
pub proof fn law_parts_are_filled(a: Seq<char>, b: Seq<char>, args: Seq<Seq<char>>)
    requires
        a.len() > 0 ==> a.last() != '$',
    ensures
        fill(a + b, args) == fill(a, args) + fill(b, args),
    decreases a.len(),
{
    let template = a + b;
    if a.len() == 0 {
        assert(template =~= b);
        assert(fill(a, args) + fill(b, args) =~= fill(b, args));
    } else {
        assert(template[0] == a[0]);
        if a.len() >= 2 {
            assert(template[1] == a[1]);
        }
        assert(starts_with_placeholder(template, args.len()) == starts_with_placeholder(
            a,
            args.len(),
        ));
        if starts_with_placeholder(a, args.len()) {
            assert(template.skip(2) =~= a.skip(2) + b);
            law_parts_are_filled(a.skip(2), b, args);
            assert(fill(template, args) =~= fill(a, args) + fill(b, args));
        } else {
            assert(template.skip(1) =~= a.skip(1) + b);
            law_parts_are_filled(a.skip(1), b, args);
            assert(fill(template, args) =~= fill(a, args) + fill(b, args));
        }
    }
}

/// What stands in a template stands, filled, in the filled template.
pub proof fn law_lines_are_filled(template: Seq<char>, line: Seq<char>, at: int, args: Seq<Seq<char>>)
    requires
        stands_at(template, line, at),
        at > 0 ==> template[at - 1] != '$',
        line.len() > 0 ==> line.last() != '$',
    ensures
        contains(fill(template, args), fill(line, args)),
{
    if line.len() > 0 {
        let head = template.take(at);
        let tail = template.skip(at + line.len());
        assert(template =~= head + (line + tail));
        law_parts_are_filled(head, line + tail, args);
        law_parts_are_filled(line, tail, args);
        law_parts_are_contained(fill(head, args), fill(line, args), fill(tail, args));
        assert(fill(template, args) =~= fill(head, args) + fill(line, args) + fill(tail, args));
    } else {
        assert(fill(line, args) =~= Seq::<char>::empty());
        law_parts_are_contained(fill(template, args), fill(line, args), Seq::empty());
        assert(fill(template, args) =~= fill(template, args) + fill(line, args) + Seq::empty());
    }
}

/// A line of a template with one placeholder stands in the filled template, with the
/// argument in its place.
pub proof fn law_line_holds_its_argument(
    template: Seq<char>,
    head: Seq<char>,
    index: nat,
    tail: Seq<char>,
    at: int,
    args: Seq<Seq<char>>,
)
    requires
        stands_at(template, head + placeholder(index) + tail, at),
        at > 0 ==> template[at - 1] != '$',
        is_plain(head),
        is_plain(tail),
        index < 10,
        index < args.len(),
    ensures
        contains(fill(template, args), head + args[index as int] + tail),
{
    let line = head + placeholder(index) + tail;
    assert(line.last() != '$') by {
        if tail.len() > 0 {
            assert(line.last() == tail.last());
        } else {
            assert(line.last() == digit_char(index));
        }
    }
    law_lines_are_filled(template, line, at, args);
    law_placeholders_give_way(head, index, tail, args);
    law_plain_text_is_kept(tail, args);
}

/// A template, from some of its segments on: between two segments there is a placeholder.
pub open spec fn skeleton(segments: Seq<Seq<char>>, indices: Seq<nat>, from: nat) -> Seq<char>
    decreases indices.len() - from,
{
    if from >= indices.len() {
        segments[from as int]
    } else {
        segments[from as int] + placeholder(indices[from as int]) + skeleton(segments, indices, from + 1)
    }
}

/// What a template is filled to: between two segments there is an argument.
pub open spec fn fleshed(
    segments: Seq<Seq<char>>,
    indices: Seq<nat>,
    args: Seq<Seq<char>>,
    from: nat,
) -> Seq<char>
    decreases indices.len() - from,
{
    if from >= indices.len() {
        segments[from as int]
    } else {
        segments[from as int] + args[indices[from as int] as int] + fleshed(
            segments,
            indices,
            args,
            from + 1,
        )
    }
}

/// Every placeholder of a template gives way to its argument, and the segments between
/// them are kept.
pub proof fn law_segments_are_kept(
    segments: Seq<Seq<char>>,
    indices: Seq<nat>,
    args: Seq<Seq<char>>,
    from: nat,
)
    requires
        segments.len() == indices.len() + 1,
        from <= indices.len(),
        forall|i: int| 0 <= i < segments.len() ==> is_plain(#[trigger] segments[i]),
        forall|i: int|
            0 <= i < indices.len() ==> #[trigger] indices[i] < 10 && indices[i] < args.len(),
    ensures
        fill(skeleton(segments, indices, from), args) == fleshed(segments, indices, args, from),
    decreases indices.len() - from,
{
    if from >= indices.len() {
        law_plain_text_is_kept(segments[from as int], args);
    } else {
        law_segments_are_kept(segments, indices, args, from + 1);
        assert(indices[from as int] < 10);
        law_placeholders_give_way(
            segments[from as int],
            indices[from as int],
            skeleton(segments, indices, from + 1),
            args,
        );
    }
}

/// A line of a template stands in the filled template, with the arguments in their places.
pub proof fn law_line_is_fleshed(
    template: Seq<char>,
    segments: Seq<Seq<char>>,
    indices: Seq<nat>,
    at: int,
    args: Seq<Seq<char>>,
)
    requires
        segments.len() == indices.len() + 1,
        forall|i: int| 0 <= i < segments.len() ==> is_plain(#[trigger] segments[i]),
        forall|i: int|
            0 <= i < indices.len() ==> #[trigger] indices[i] < 10 && indices[i] < args.len(),
        stands_at(template, skeleton(segments, indices, 0), at),
        at > 0 ==> template[at - 1] != '$',
    ensures
        contains(fill(template, args), fleshed(segments, indices, args, 0)),
{
    let line = skeleton(segments, indices, 0);
    lemma_skeleton_ends_well(segments, indices, 0);
    law_lines_are_filled(template, line, at, args);
    law_segments_are_kept(segments, indices, args, 0);
}

proof fn lemma_skeleton_ends_well(segments: Seq<Seq<char>>, indices: Seq<nat>, from: nat)
    requires
        segments.len() == indices.len() + 1,
        from <= indices.len(),
        forall|i: int| 0 <= i < segments.len() ==> is_plain(#[trigger] segments[i]),
        forall|i: int| 0 <= i < indices.len() ==> #[trigger] indices[i] < 10,
    ensures
        skeleton(segments, indices, from).len() > 0 ==> skeleton(segments, indices, from).last()
            != '$',
    decreases indices.len() - from,
{
    let line = skeleton(segments, indices, from);
    assert(is_plain(segments[from as int]));
    if from < indices.len() {
        lemma_skeleton_ends_well(segments, indices, from + 1);
        let rest = skeleton(segments, indices, from + 1);
        assert(indices[from as int] < 10);
        if rest.len() > 0 {
            assert(line.last() == rest.last());
        } else {
            assert(line.last() == digit_char(indices[from as int]));
        }
    }
}

/// The decimal digits of a number stand for that number, and a number of two digits or
/// more does not start with a zero.
pub proof fn law_dec_reads_back(n: nat)
    ensures
        number_of(dec(n)) == n,
        dec(n).len() > 0,
        forall|i: int| 0 <= i < dec(n).len() ==> '0' <= #[trigger] dec(n)[i] <= '9',
        dec(n).len() > 1 ==> dec(n)[0] != '0',
    decreases n,
{
    lemma_dec_reads_back(n);
    if n >= 10 {
        law_dec_reads_back(n / 10);
        if dec(n / 10).len() == 1 {
            reveal_with_fuel(number_of, 2);
            assert(dec(n / 10).drop_last().len() == 0);
            assert(number_of(dec(n / 10)) == dec(n / 10)[0] as int - 48);
        }
    }
}

/// A text stands in what it is a part of.
pub proof fn law_parts_are_contained(before: Seq<char>, part: Seq<char>, after: Seq<char>)
    ensures
        contains(before + part + after, part),
{
    let whole = before + part + after;
    assert(whole.subrange(before.len() as int, (before.len() + part.len()) as int) =~= part);
    assert(stands_at(whole, part, before.len() as int));
}

/// What stands in a part of a text stands in the text.
pub proof fn law_containment_is_transitive(whole: Seq<char>, part: Seq<char>, piece: Seq<char>)
    requires
        contains(whole, part),
        contains(part, piece),
    ensures
        contains(whole, piece),
{
    let at = choose|at: int| stands_at(whole, part, at);
    let inner = choose|inner: int| stands_at(part, piece, inner);
    assert(whole.subrange(at + inner, at + inner + piece.len()) =~= whole.subrange(
        at,
        at + part.len(),
    ).subrange(inner, inner + piece.len()));
    assert(stands_at(whole, piece, at + inner));
}

/// The characters of a text.
pub fn chars_of(text: &str) -> (chars: Vec<char>)
    ensures
        chars@ == text@,
{
    let mut chars: Vec<char> = Vec::new();
    for c in it: text.chars()
        invariant
            it.seq() == text@,
            chars@ == text@.take(it.index() as int),
    {
        chars.push(c);
        assert(text@.take(it.index() as int + 1) =~= text@.take(it.index() as int).push(c));
    }
    assert(text@.take(text@.len() as int) =~= text@);
    chars
}

/// The views of a list of texts.
pub open spec fn views(texts: Seq<&str>) -> Seq<Seq<char>> {
    texts.map_values(|t: &str| t@)
}

fn fill_with(template: &str, args: &Vec<&str>) -> (text: String)
    ensures
        text@ == fill(template@, views(args@)),
{
    let chars = chars_of(template);
    let mut text = String::new();
    let mut at: usize = 0;
    assert(chars@.skip(0) =~= template@);
    assert(text@ + fill(template@, views(args@)) =~= fill(template@, views(args@)));
    while at < chars.len()
        invariant
            chars@ == template@,
            at <= chars.len(),
            text@ + fill(template@.skip(at as int), views(args@)) == fill(template@, views(args@)),
        decreases chars.len() - at,
    {
        let ghost rest = template@.skip(at as int);
        let ghost before = text@;
        if chars.len() - at >= 2 && chars[at] == '$' && '0' <= chars[at + 1] && chars[at + 1] <= '9'
            && ((chars[at + 1] as u32 - 48) as usize) < args.len() {
            let index: usize = (chars[at + 1] as u32 - 48) as usize;
            text.append(args[index]);
            assert(rest.skip(2) =~= template@.skip(at + 2));
            assert(views(args@)[index as int] == args[index as int]@);
            assert(text@ + fill(rest.skip(2), views(args@)) =~= before + fill(rest, views(args@)));
            at += 2;
        } else {
            text.push(chars[at]);
            assert(rest.skip(1) =~= template@.skip(at + 1));
            assert(text@ + fill(rest.skip(1), views(args@)) =~= before + fill(rest, views(args@)));
            at += 1;
        }
    }
    assert(template@.skip(at as int).len() == 0);
    assert(text@ + fill(template@.skip(at as int), views(args@)) =~= text@);
    text
}

pub fn fill1(template: &str, a: &str) -> (text: String)
    ensures
        text@ == fill(template@, seq![a@]),
{
    let args = vec![a];
    assert(views(args@) =~= seq![a@]);
    fill_with(template, &args)
}

pub fn fill2(template: &str, a: &str, b: &str) -> (text: String)
    ensures
        text@ == fill(template@, seq![a@, b@]),
{
    let args = vec![a, b];
    assert(views(args@) =~= seq![a@, b@]);
    fill_with(template, &args)
}

pub fn fill3(template: &str, a: &str, b: &str, c: &str) -> (text: String)
    ensures
        text@ == fill(template@, seq![a@, b@, c@]),
{
    let args = vec![a, b, c];
    assert(views(args@) =~= seq![a@, b@, c@]);
    fill_with(template, &args)
}

pub fn fill4(template: &str, a: &str, b: &str, c: &str, d: &str) -> (text: String)
    ensures
        text@ == fill(template@, seq![a@, b@, c@, d@]),
{
    let args = vec![a, b, c, d];
    assert(views(args@) =~= seq![a@, b@, c@, d@]);
    fill_with(template, &args)
}

pub fn fill5(template: &str, a: &str, b: &str, c: &str, d: &str, e: &str) -> (text: String)
    ensures
        text@ == fill(template@, seq![a@, b@, c@, d@, e@]),
{
    let args = vec![a, b, c, d, e];
    assert(views(args@) =~= seq![a@, b@, c@, d@, e@]);
    fill_with(template, &args)
}

pub fn fill6(template: &str, a: &str, b: &str, c: &str, d: &str, e: &str, f: &str) -> (text: String)
    ensures
        text@ == fill(template@, seq![a@, b@, c@, d@, e@, f@]),
{
    let args = vec![a, b, c, d, e, f];
    assert(views(args@) =~= seq![a@, b@, c@, d@, e@, f@]);
    fill_with(template, &args)
}

/// The template filled with each number of `from..to` in turn.
pub open spec fn numbered(template: Seq<char>, from: nat, to: nat) -> Seq<char>
    decreases to,
{
    if to <= from {
        Seq::empty()
    } else {
        numbered(template, from, (to - 1) as nat) + fill(template, seq![dec((to - 1) as nat)])
    }
}

/// Every number of a range has its line, behind those of the smaller numbers and before
/// those of the larger ones.
pub proof fn law_every_number_has_its_line(template: Seq<char>, from: nat, at: nat, to: nat)
    requires
        from <= at < to,
    ensures
        numbered(template, from, to) == numbered(template, from, at) + fill(
            template,
            seq![dec(at)],
        ) + numbered(template, at + 1, to),
    decreases to,
{
    if at + 1 == to {
        assert(numbered(template, at + 1, to) =~= Seq::<char>::empty());
        assert(numbered(template, from, to) =~= numbered(template, from, at) + fill(
            template,
            seq![dec(at)],
        ) + numbered(template, at + 1, to));
    } else {
        law_every_number_has_its_line(template, from, at, (to - 1) as nat);
        assert(numbered(template, from, to) =~= numbered(template, from, at) + fill(
            template,
            seq![dec(at)],
        ) + numbered(template, at + 1, to));
    }
}

/// The template filled with each number of `from..to` in turn.
pub fn numbered_text(template: &str, from: u32, to: u32) -> (text: String)
    ensures
        text@ == numbered(template@, from as nat, to as nat),
{
    let mut text = String::new();
    let mut at: u32 = from;
    while at < to
        invariant
            from <= at,
            at == from || at <= to,
            text@ == numbered(template@, from as nat, at as nat),
        decreases to - at,
    {
        text.append(fill1(template, dec_text(at as u64).as_str()).as_str());
        at += 1;
    }
    text
}

/// Whether two texts are the same.
pub fn same_text(a: &str, b: &str) -> (same: bool)
    ensures
        same == (a@ == b@),
{
    a.to_owned() == b.to_owned()
}

/// The text itself where the condition holds, nothing where it does not.
pub open spec fn given(condition: bool, text: Seq<char>) -> Seq<char> {
    if condition {
        text
    } else {
        Seq::empty()
    }
}

/// `text` where the condition holds, the empty text where it does not.
pub fn given_text(condition: bool, text: &str) -> (result: String)
    ensures
        result@ == given(condition, text@),
{
    if condition {
        text.to_owned()
    } else {
        String::new()
    }
}

/// Whether `needle` stands in `text` at position `at`.
pub open spec fn stands_at(text: Seq<char>, needle: Seq<char>, at: int) -> bool {
    0 <= at && at + needle.len() <= text.len() && text.subrange(at, at + needle.len()) == needle
}

/// Whether `needle` stands in `text` anywhere.
pub open spec fn contains(text: Seq<char>, needle: Seq<char>) -> bool {
    exists|at: int| stands_at(text, needle, at)
}

/// The first `count` parts, one behind the other.
pub open spec fn joined(parts: Seq<Seq<char>>, count: nat) -> Seq<char>
    decreases count,
{
    if count == 0 {
        Seq::empty()
    } else if count == 1 {
        parts[0]
    } else {
        joined(parts, (count - 1) as nat) + parts[count - 1]
    }
}

/// Every part stands in the text that is joined from the parts.
pub proof fn law_joined_parts_are_contained(parts: Seq<Seq<char>>, count: nat, at: int)
    requires
        0 <= at < count <= parts.len(),
    ensures
        contains(joined(parts, count), parts[at]),
    decreases count,
{
    let none = Seq::<char>::empty();
    if count == 1 {
        law_parts_are_contained(none, parts[0], none);
        assert(none + parts[0] + none =~= parts[0]);
    } else if at == count - 1 {
        let before = joined(parts, (count - 1) as nat);
        law_parts_are_contained(before, parts[at], none);
        assert(before + parts[at] + none =~= joined(parts, count));
    } else {
        let before = joined(parts, (count - 1) as nat);
        law_joined_parts_are_contained(parts, (count - 1) as nat, at);
        law_parts_are_contained(none, before, parts[count - 1]);
        assert(none + before + parts[count - 1] =~= joined(parts, count));
        law_containment_is_transitive(joined(parts, count), before, parts[at]);
    }
}

/// Whether lines stand in a text, one behind the other, with other text between them or
/// none.
pub open spec fn in_order(text: Seq<char>, lines: Seq<Seq<char>>) -> bool
    decreases lines.len(),
{
    if lines.len() == 0 {
        true
    } else {
        exists|at: int| #[trigger]
            stands_at(text, lines[0], at) && in_order(
                text.skip(at + lines[0].len()),
                lines.skip(1),
            )
    }
}

/// Lines that stand in order in a text stand so in every text around it.
pub proof fn law_order_is_kept_inside(
    before: Seq<char>,
    text: Seq<char>,
    after: Seq<char>,
    lines: Seq<Seq<char>>,
)
    requires
        in_order(text, lines),
    ensures
        in_order(before + text + after, lines),
    decreases lines.len(),
{
    if lines.len() > 0 {
        let at = choose|at: int| #[trigger]
            stands_at(text, lines[0], at) && in_order(text.skip(at + lines[0].len()), lines.skip(1));
        let whole = before + text + after;
        let end = at + lines[0].len();
        law_order_is_kept_inside(Seq::empty(), text.skip(end), after, lines.skip(1));
        assert(whole.skip(before.len() + end) =~= Seq::empty() + text.skip(end) + after);
        assert(whole.subrange(before.len() + at, before.len() + end) =~= text.subrange(at, end));
        assert(stands_at(whole, lines[0], before.len() + at));
    }
}

/// The lines of two texts stand in order in the two texts together.
pub proof fn law_order_is_joined(
    a: Seq<char>,
    first: Seq<Seq<char>>,
    b: Seq<char>,
    second: Seq<Seq<char>>,
)
    requires
        in_order(a, first),
        in_order(b, second),
    ensures
        in_order(a + b, first + second),
    decreases first.len(),
{
    let none = Seq::<char>::empty();
    if first.len() == 0 {
        assert(first + second =~= second);
        law_order_is_kept_inside(a, b, none, second);
        assert(a + b + none =~= a + b);
    } else {
        let at = choose|at: int| #[trigger]
            stands_at(a, first[0], at) && in_order(a.skip(at + first[0].len()), first.skip(1));
        let end = at + first[0].len();
        law_order_is_joined(a.skip(end), first.skip(1), b, second);
        assert((a + b).skip(end) =~= a.skip(end) + b);
        assert((a + b).subrange(at, end) =~= a.subrange(at, end));
        assert((first + second)[0] == first[0]);
        assert((first + second).skip(1) =~= first.skip(1) + second);
        assert(stands_at(a + b, (first + second)[0], at));
    }
}

/// A line stands in itself.
pub proof fn law_line_is_in_order(line: Seq<char>)
    ensures
        in_order(line, seq![line]),
{
    reveal_with_fuel(in_order, 2);
    assert(line.subrange(0, line.len() as int) =~= line);
    assert(stands_at(line, seq![line][0], 0));
    assert(seq![line].skip(1).len() == 0);
}

/// The first `count` lists, one behind the other.
pub open spec fn flattened(lists: Seq<Seq<Seq<char>>>, count: nat) -> Seq<Seq<char>>
    decreases count,
{
    if count == 0 {
        Seq::empty()
    } else {
        flattened(lists, (count - 1) as nat) + lists[count - 1]
    }
}

/// The lines of the parts of a text stand in order in the text.
pub proof fn law_order_of_parts(parts: Seq<Seq<char>>, lists: Seq<Seq<Seq<char>>>, count: nat)
    requires
        count <= parts.len(),
        parts.len() == lists.len(),
        forall|i: int| 0 <= i < count ==> in_order(#[trigger] parts[i], lists[i]),
    ensures
        in_order(joined(parts, count), flattened(lists, count)),
    decreases count,
{
    if count > 0 {
        law_order_of_parts(parts, lists, (count - 1) as nat);
        assert(in_order(parts[count - 1], lists[count - 1]));
        law_order_is_joined(
            joined(parts, (count - 1) as nat),
            flattened(lists, (count - 1) as nat),
            parts[count - 1],
            lists[count - 1],
        );
        if count == 1 {
            assert(joined(parts, 0) + parts[0] =~= parts[0]);
        }
    }
}

/// Each of some lines, filled.
pub open spec fn filled_lines(lines: Seq<Seq<char>>, args: Seq<Seq<char>>) -> Seq<Seq<char>> {
    lines.map_values(|line: Seq<char>| fill(line, args))
}

/// The lines of a template stand, filled, in order in the filled template.
pub proof fn law_filled_lines_are_in_order(lines: Seq<Seq<char>>, count: nat, args: Seq<Seq<char>>)
    requires
        count <= lines.len(),
        forall|i: int|
            0 <= i < count ==> (#[trigger] lines[i]).len() > 0 && lines[i].last() != '$',
    ensures
        in_order(fill(joined(lines, count), args), filled_lines(lines.take(count as int), args)),
    decreases count,
{
    if count == 0 {
        assert(filled_lines(lines.take(0), args).len() == 0);
    } else {
        let shorter = (count - 1) as nat;
        law_filled_lines_are_in_order(lines, shorter, args);
        assert(lines[count - 1].len() > 0);
        let last = fill(lines[count - 1], args);
        law_line_is_in_order(last);
        law_order_is_joined(
            fill(joined(lines, shorter), args),
            filled_lines(lines.take(shorter as int), args),
            last,
            seq![last],
        );
        assert(filled_lines(lines.take(count as int), args) =~= filled_lines(
            lines.take(shorter as int),
            args,
        ) + seq![last]);
        if count == 1 {
            assert(fill(joined(lines, 0), args) + last =~= last);
        } else {
            lemma_joined_ends_well(lines, shorter);
            law_parts_are_filled(joined(lines, shorter), lines[count - 1], args);
        }
    }
}

proof fn lemma_joined_ends_well(lines: Seq<Seq<char>>, count: nat)
    requires
        0 < count <= lines.len(),
        forall|i: int|
            0 <= i < count ==> (#[trigger] lines[i]).len() > 0 && lines[i].last() != '$',
    ensures
        joined(lines, count).len() > 0,
        joined(lines, count).last() != '$',
    decreases count,
{
    assert(lines[count - 1].len() > 0);
    if count > 1 {
        lemma_joined_ends_well(lines, (count - 1) as nat);
        assert(joined(lines, count).last() == lines[count - 1].last());
    }
}

/// What stands in the line of a number stands in the lines of all numbers.
pub proof fn law_order_of_one_number(
    template: Seq<char>,
    from: nat,
    at: nat,
    to: nat,
    lines: Seq<Seq<char>>,
)
    requires
        from <= at < to,
        in_order(fill(template, seq![dec(at)]), lines),
    ensures
        in_order(numbered(template, from, to), lines),
{
    law_every_number_has_its_line(template, from, at, to);
    law_order_is_kept_inside(
        numbered(template, from, at),
        fill(template, seq![dec(at)]),
        numbered(template, at + 1, to),
        lines,
    );
}

/// The text with each occurrence of `needle` replaced by `with`; occurrences are
/// taken from the left and do not overlap.
pub open spec fn replaced(text: Seq<char>, needle: Seq<char>, with: Seq<char>) -> Seq<char>
    decreases text.len(),
{
    if text.len() == 0 || needle.len() == 0 {
        text
    } else if stands_at(text, needle, 0) {
        with + replaced(text.skip(needle.len() as int), needle, with)
    } else {
        seq![text[0]] + replaced(text.skip(1), needle, with)
    }
}

/// The first occurrence is replaced, what stands in front of it is kept, and so on behind
/// it.
pub proof fn law_occurrences_are_replaced(
    before: Seq<char>,
    needle: Seq<char>,
    after: Seq<char>,
    with: Seq<char>,
)
    requires
        needle.len() > 0,
        forall|at: int| 0 <= at < before.len() ==> !stands_at(before + needle + after, needle, at),
    ensures
        replaced(before + needle + after, needle, with) == before + with + replaced(
            after,
            needle,
            with,
        ),
    decreases before.len(),
{
    let text = before + needle + after;
    if before.len() == 0 {
        assert(text.subrange(0, needle.len() as int) =~= needle);
        assert(text.skip(needle.len() as int) =~= after);
        assert(before + with + replaced(after, needle, with) =~= with + replaced(after, needle, with));
    } else {
        let shorter = before.skip(1);
        assert(text.skip(1) =~= shorter + needle + after);
        assert forall|at: int| 0 <= at < shorter.len() implies !stands_at(
            shorter + needle + after,
            needle,
            at,
        ) by {
            if stands_at(text.skip(1), needle, at) {
                assert(text.subrange(at + 1, at + 1 + needle.len()) =~= text.skip(1).subrange(
                    at,
                    at + needle.len(),
                ));
                assert(stands_at(text, needle, at + 1));
            }
        }
        law_occurrences_are_replaced(shorter, needle, after, with);
        assert(!stands_at(text, needle, 0));
        assert(before + with + replaced(after, needle, with) =~= seq![before[0]] + (shorter + with
            + replaced(after, needle, with)));
    }
}

/// A text in which nothing is to be replaced stays as it is.
pub proof fn law_other_text_is_kept(text: Seq<char>, needle: Seq<char>, with: Seq<char>)
    requires
        !contains(text, needle),
    ensures
        replaced(text, needle, with) == text,
    decreases text.len(),
{
    if text.len() > 0 && needle.len() > 0 {
        assert(!stands_at(text, needle, 0));
        assert forall|at: int| !stands_at(text.skip(1), needle, at) by {
            if stands_at(text.skip(1), needle, at) {
                assert(text.subrange(at + 1, at + 1 + needle.len()) =~= text.skip(1).subrange(
                    at,
                    at + needle.len(),
                ));
                assert(stands_at(text, needle, at + 1));
            }
        }
        law_other_text_is_kept(text.skip(1), needle, with);
        assert(seq![text[0]] + text.skip(1) =~= text);
    }
}

fn found_at(text: &Vec<char>, needle: &Vec<char>, at: usize) -> (found: bool)
    requires
        at <= text.len(),
    ensures
        found == stands_at(text@, needle@, at as int),
{
    if needle.len() > text.len() - at {
        return false;
    }
    let mut i: usize = 0;
    while i < needle.len()
        invariant
            i <= needle.len(),
            at + needle.len() <= text.len(),
            forall|j: int| 0 <= j < i ==> text[at + j] == needle[j],
        decreases needle.len() - i,
    {
        if text[at + i] != needle[i] {
            assert(text@.subrange(at as int, at + needle.len())[i as int] != needle@[i as int]);
            return false;
        }
        i += 1;
    }
    assert(text@.subrange(at as int, at + needle.len()) =~= needle@);
    true
}

/// Whether a text starts with `needle`.
pub fn starts_with_text(text: &str, needle: &str) -> (found: bool)
    ensures
        found == stands_at(text@, needle@, 0),
{
    let chars = chars_of(text);
    let wanted = chars_of(needle);
    found_at(&chars, &wanted, 0)
}

/// Whether `needle` stands in `text` anywhere.
pub fn contains_text(text: &str, needle: &str) -> (found: bool)
    ensures
        found == contains(text@, needle@),
{
    let chars = chars_of(text);
    let wanted = chars_of(needle);
    let mut at: usize = 0;
    while at < chars.len()
        invariant
            at <= chars.len(),
            chars@ == text@,
            wanted@ == needle@,
            forall|j: int| 0 <= j < at ==> !stands_at(text@, needle@, j),
        decreases chars.len() - at,
    {
        if found_at(&chars, &wanted, at) {
            return true;
        }
        at += 1;
    }
    let last = found_at(&chars, &wanted, at);
    assert(forall|j: int| stands_at(text@, needle@, j) ==> j <= at);
    last
}

/// The text with each occurrence of `needle` replaced by `with`.
pub fn replaced_text(text: &str, needle: &str, with: &str) -> (result: String)
    ensures
        result@ == replaced(text@, needle@, with@),
{
    let chars = chars_of(text);
    let wanted = chars_of(needle);
    if wanted.len() == 0 {
        return text.to_owned();
    }
    let mut result = String::new();
    let mut at: usize = 0;
    assert(text@.skip(0) =~= text@);
    assert(result@ + replaced(text@, needle@, with@) =~= replaced(text@, needle@, with@));
    while at < chars.len()
        invariant
            chars@ == text@,
            wanted@ == needle@,
            wanted.len() > 0,
            at <= chars.len(),
            result@ + replaced(text@.skip(at as int), needle@, with@) == replaced(text@, needle@, with@),
        decreases chars.len() - at,
    {
        let ghost rest = text@.skip(at as int);
        let ghost before = result@;
        assert(stands_at(rest, needle@, 0) == stands_at(text@, needle@, at as int)) by {
            if at + needle@.len() <= text@.len() {
                assert(rest.subrange(0, needle@.len() as int) =~= text@.subrange(at as int, at + needle@.len()));
            }
        }
        if found_at(&chars, &wanted, at) {
            result.append(with);
            assert(rest.skip(needle@.len() as int) =~= text@.skip(at + needle@.len()));
            assert(result@ + replaced(rest.skip(needle@.len() as int), needle@, with@) =~= before + replaced(
                rest,
                needle@,
                with@,
            ));
            at += wanted.len();
        } else {
            result.push(chars[at]);
            assert(rest.skip(1) =~= text@.skip(at + 1));
            assert(result@ + replaced(rest.skip(1), needle@, with@) =~= before + replaced(
                rest,
                needle@,
                with@,
            ));
            at += 1;
        }
    }
    assert(text@.skip(at as int).len() == 0);
    assert(result@ + replaced(text@.skip(at as int), needle@, with@) =~= result@);
    result
}

/// Whether a character is an ASCII letter or digit.
pub open spec fn is_ascii_alphanumeric(c: char) -> bool {
    ('0' <= c && c <= '9') || ('A' <= c && c <= 'Z') || ('a' <= c && c <= 'z')
}

/// The text with every character that is no ASCII letter or digit replaced by `_`.
pub open spec fn sanitized(text: Seq<char>) -> Seq<char> {
    text.map_values(
        |c: char|
            if is_ascii_alphanumeric(c) {
                c
            } else {
                '_'
            },
    )
}

/// A sanitized name can stand in a C++ identifier, is as long as the name, and is the name
/// itself where that can stand there already.
pub proof fn law_sanitized_names_are_identifiers(text: Seq<char>)
    ensures
        sanitized(text).len() == text.len(),
        forall|i: int|
            0 <= i < text.len() ==> is_ascii_alphanumeric(#[trigger] sanitized(text)[i])
                || sanitized(text)[i] == '_',
        (forall|i: int|
            0 <= i < text.len() ==> is_ascii_alphanumeric(#[trigger] text[i]) || text[i] == '_')
            ==> sanitized(text) == text,
{
    if forall|i: int|
        0 <= i < text.len() ==> is_ascii_alphanumeric(#[trigger] text[i]) || text[i] == '_' {
        assert(sanitized(text) =~= text);
    }
}

/// The text with every character that is no ASCII letter or digit replaced by `_`.
pub fn tt_sanitize_name(name: &str) -> (result: String)
    ensures
        result@ == sanitized(name@),
{
    let chars = chars_of(name);
    let mut result = String::new();
    let mut at: usize = 0;
    while at < chars.len()
        invariant
            chars@ == name@,
            at <= chars.len(),
            result@ == sanitized(name@).take(at as int),
        decreases chars.len() - at,
    {
        let c = chars[at];
        let kept = ('0' <= c && c <= '9') || ('A' <= c && c <= 'Z') || ('a' <= c && c <= 'z');
        result.push(if kept { c } else { '_' });
        assert(sanitized(name@).take(at + 1) =~= sanitized(name@).take(at as int).push(sanitized(name@)[at as int]));
        at += 1;
    }
    assert(sanitized(name@).take(at as int) =~= sanitized(name@));
    result
}

/// A letter of the alphabet, large or small, and a digit stay in a name; all else becomes an
/// underscore.
pub proof fn law_letters_and_digits_stay(text: Seq<char>, at: int)
    requires
        0 <= at < text.len(),
    ensures
        ({
            let c = text[at];
            let kept = sanitized(text)[at];
            if ('a' <= c && c <= 'z') || ('A' <= c && c <= 'Z') || ('0' <= c && c <= '9') {
                kept == c
            } else {
                kept == '_'
            }
        }),
{
}

} // verus!
