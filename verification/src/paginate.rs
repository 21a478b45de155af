//! The paginator: cuts rendered content into the chunks that fill the message slots.
//!
//! The title is one chunk. Every team body gives two: its lines are split in the middle, the
//! odd line going to the second half. So there are always one plus twice as many chunks as
//! teams, however long the bodies are.

use crate::render::RenderedContent;
use crate::text::texts_of;
use vstd::prelude::*;

verus! {

/// Whether `text` holds no line break.
pub open spec fn one_line(text: Seq<char>) -> bool {
    forall|i: int| 0 <= i < text.len() ==> text[i] != '\n'
}

/// The place of the first line break in `text`, or its length if there is none.
pub open spec fn first_break(text: Seq<char>) -> int
    decreases text.len(),
{
    if text.len() == 0 || text[0] == '\n' {
        0
    } else {
        1 + first_break(text.drop_first())
    }
}

/// The lines of `text`: the pieces between its line breaks, in order. A text without a line
/// break is one line, and so is the empty text.
pub open spec fn lines_of(text: Seq<char>) -> Seq<Seq<char>>
    decreases text.len(),
{
    let at = first_break(text);
    if 0 <= at < text.len() {
        seq![text.take(at)] + lines_of(text.skip(at + 1))
    } else {
        seq![text]
    }
}

/// `lines` put together again, with a line break between neighbours.
pub open spec fn joined(lines: Seq<Seq<char>>) -> Seq<char>
    decreases lines.len(),
{
    if lines.len() == 0 {
        Seq::empty()
    } else if lines.len() == 1 {
        lines[0]
    } else {
        joined(lines.drop_last()) + seq!['\n'] + lines.last()
    }
}

/// The first half of a body: its first `n / 2` lines, where `n` is the number of its lines.
pub open spec fn first_half(body: Seq<char>) -> Seq<char> {
    joined(lines_of(body).take(lines_of(body).len() as int / 2))
}

/// The second half of a body: the lines that the first half leaves.
pub open spec fn second_half(body: Seq<char>) -> Seq<char> {
    joined(lines_of(body).skip(lines_of(body).len() as int / 2))
}

/// The chunk in slot `i`: the title in slot 0, then for each body its two halves.
pub open spec fn chunk_at(title: Seq<char>, bodies: Seq<Seq<char>>, i: int) -> Seq<char> {
    if i == 0 {
        title
    } else if i % 2 == 1 {
        first_half(bodies[(i - 1) / 2])
    } else {
        second_half(bodies[(i - 1) / 2])
    }
}

/// The chunks of a title and team bodies, in slot order: one plus twice as many as bodies.
pub open spec fn chunks_of(title: Seq<char>, bodies: Seq<Seq<char>>) -> Seq<Seq<char>> {
    Seq::new(1 + 2 * bodies.len(), |i: int| chunk_at(title, bodies, i))
}

/// The first break stands inside the text or at its end, with no break before it.
pub proof fn lemma_first_break(text: Seq<char>)
    ensures
        0 <= first_break(text) <= text.len(),
        forall|i: int| 0 <= i < first_break(text) ==> text[i] != '\n',
        first_break(text) < text.len() ==> text[first_break(text)] == '\n',
        one_line(text) <==> first_break(text) == text.len(),
    decreases text.len(),
{
    if text.len() > 0 && text[0] != '\n' {
        let rest = text.drop_first();
        lemma_first_break(rest);
        assert forall|i: int| 0 <= i < first_break(text) implies text[i] != '\n' by {
            if i > 0 {
                assert(text[i] == rest[i - 1]);
            }
        }
        if first_break(text) < text.len() {
            assert(text[first_break(text)] == rest[first_break(rest)]);
        }
    }
}

/// A text has at least one line, and no line holds a line break.
pub proof fn lemma_lines_are_lines(text: Seq<char>)
    ensures
        lines_of(text).len() >= 1,
        forall|k: int| 0 <= k < lines_of(text).len() ==> one_line(#[trigger] lines_of(text)[k]),
    decreases text.len(),
{
    lemma_first_break(text);
    let at = first_break(text);
    if 0 <= at < text.len() {
        lemma_lines_are_lines(text.skip(at + 1));
        let rest = lines_of(text.skip(at + 1));
        assert forall|k: int| 0 <= k < lines_of(text).len() implies one_line(
            #[trigger] lines_of(text)[k],
        ) by {
            if k == 0 {
                assert(lines_of(text)[0] == text.take(at));
            } else {
                assert(lines_of(text)[k] == rest[k - 1]);
            }
        }
    }
}

/// Splitting goes through a line break: the lines of two texts with a line break between them
/// are the lines of the first followed by the lines of the second.
pub proof fn lemma_lines_concat(a: Seq<char>, b: Seq<char>)
    ensures
        lines_of(a + seq!['\n'] + b) == lines_of(a) + lines_of(b),
    decreases a.len(),
{
    let whole = a + seq!['\n'] + b;
    lemma_first_break(a);
    lemma_first_break(whole);
    let at = first_break(a);
    assert(first_break(whole) == at) by {
        let w = first_break(whole);
        if w < at {
            assert(whole[w] == a[w]);
        } else if w > at {
            assert(whole[at] == '\n');
        }
    }
    if at < a.len() {
        assert(whole.take(at) =~= a.take(at));
        assert(whole.skip(at + 1) =~= a.skip(at + 1) + seq!['\n'] + b);
        lemma_lines_concat(a.skip(at + 1), b);
    } else {
        assert(whole.take(at) =~= a);
        assert(whole.skip(at + 1) =~= b);
    }
}

/// Joining goes through a cut: two runs of lines, neither empty, join to the two joined
/// runs with a line break between them.
pub proof fn lemma_joined_concat(a: Seq<Seq<char>>, b: Seq<Seq<char>>)
    requires
        a.len() > 0,
        b.len() > 0,
    ensures
        joined(a + b) == joined(a) + seq!['\n'] + joined(b),
    decreases b.len(),
{
    let all = a + b;
    if b.len() == 1 {
        assert(all.drop_last() =~= a);
    } else {
        assert(all.drop_last() =~= a + b.drop_last());
        lemma_joined_concat(a, b.drop_last());
    }
}

/// Joining the lines of a text gives the text back.
pub proof fn lemma_joined_lines(text: Seq<char>)
    ensures
        joined(lines_of(text)) == text,
    decreases text.len(),
{
    lemma_first_break(text);
    let at = first_break(text);
    if 0 <= at < text.len() {
        let rest = text.skip(at + 1);
        lemma_joined_lines(rest);
        lemma_lines_are_lines(rest);
        lemma_joined_concat(seq![text.take(at)], lines_of(rest));
    }
}

/// Splitting what was joined gives the lines back, where there is at least one line and no
/// line holds a line break.
pub proof fn lemma_lines_of_joined(lines: Seq<Seq<char>>)
    requires
        lines.len() > 0,
        forall|k: int| 0 <= k < lines.len() ==> one_line(#[trigger] lines[k]),
    ensures
        lines_of(joined(lines)) == lines,
    decreases lines.len(),
{
    if lines.len() == 1 {
        lemma_first_break(lines[0]);
    } else {
        let earlier = lines.drop_last();
        assert forall|k: int| 0 <= k < earlier.len() implies one_line(#[trigger] earlier[k]) by {
            assert(earlier[k] == lines[k]);
        }
        lemma_lines_of_joined(earlier);
        lemma_lines_concat(joined(earlier), lines.last());
        lemma_first_break(lines.last());
    }
}

/// The two halves of a body hold all its lines, in order, and nothing else.
///
/// A body of two lines or more is its first half, a line break and its second half, and the
/// lines of the two halves, one after the other, are the lines of the body. A body without a
/// line break has an empty first half and is its own second half.
pub proof fn lemma_halves_rejoin(body: Seq<char>)
    ensures
        lines_of(body).take(lines_of(body).len() as int / 2) + lines_of(body).skip(
            lines_of(body).len() as int / 2,
        ) == lines_of(body),
        lines_of(body).len() >= 2 ==> first_half(body) + seq!['\n'] + second_half(body) == body,
        lines_of(body).len() >= 2 ==> lines_of(first_half(body)) + lines_of(second_half(body))
            == lines_of(body),
        lines_of(body).len() < 2 ==> first_half(body) == Seq::<char>::empty() && second_half(body)
            == body,
{
    let lines = lines_of(body);
    let k = lines.len() as int / 2;
    let front = lines.take(k);
    let back = lines.skip(k);
    lemma_lines_are_lines(body);
    lemma_joined_lines(body);
    if lines.len() >= 2 {
        lemma_joined_concat(front, back);
        lemma_lines_of_joined(front);
        lemma_lines_of_joined(back);
    } else {
        assert(front =~= Seq::<Seq<char>>::empty());
    }
}

/// Cuts `text` at its line breaks.
pub fn split_lines(text: &str) -> (lines: Vec<String>)
    ensures
        texts_of(lines@) == lines_of(text@),
{
    broadcast use vstd::string::group_string_axioms;

    let mut lines: Vec<String> = Vec::new();
    let mut current = String::new();
    let ghost mut start: int = 0;
    for c in it: text.chars()
        invariant
            it.seq() == text@,
            0 <= start <= it.index() <= text@.len(),
            current@ == text@.subrange(start, it.index()),
            one_line(current@),
            start > 0 ==> text@[start - 1] == '\n' && texts_of(lines@) == lines_of(
                text@.take(start - 1),
            ),
            start == 0 ==> lines@.len() == 0,
    {
        let ghost at = it.index();
        if c == '\n' {
            proof {
                lemma_segment_closes(text@, start, at);
            }
            lines.push(current);
            current = String::new();
            proof {
                start = at + 1;
            }
        } else {
            current.push(c);
        }
    }
    proof {
        let n = text@.len() as int;
        assert(text@.push('\n').subrange(start, n) =~= current@);
        lemma_segment_closes(text@.push('\n'), start, n);
        assert(text@.push('\n').take(n) =~= text@);
        if start > 0 {
            assert(text@.push('\n').take(start - 1) =~= text@.take(start - 1));
        }
    }
    lines.push(current);
    lines
}

/// The lines up to a break at `at`, where the last line before it begins at `start`: they
/// are the lines before that line, then that line.
proof fn lemma_segment_closes(text: Seq<char>, start: int, at: int)
    requires
        0 <= start <= at < text.len(),
        text[at] == '\n',
        one_line(text.subrange(start, at)),
        start > 0 ==> text[start - 1] == '\n',
    ensures
        lines_of(text.take(at)) == (if start > 0 {
            lines_of(text.take(start - 1))
        } else {
            Seq::<Seq<char>>::empty()
        }).push(text.subrange(start, at)),
{
    let segment = text.subrange(start, at);
    lemma_first_break(segment);
    if start > 0 {
        let before = text.take(start - 1);
        assert(text.take(at) =~= before + seq!['\n'] + segment);
        lemma_lines_concat(before, segment);
    } else {
        assert(seq![segment] =~= Seq::<Seq<char>>::empty().push(segment));
    }
}

/// Puts the lines `from..to` together, with a line break between neighbours.
pub fn join_lines(lines: &Vec<String>, from: usize, to: usize) -> (text: String)
    requires
        from <= to <= lines@.len(),
    ensures
        text@ == joined(texts_of(lines@).subrange(from as int, to as int)),
{
    proof {
        reveal_strlit("\n");
    }
    let mut text = String::new();
    let mut j = from;
    while j < to
        invariant
            from <= j <= to <= lines@.len(),
            text@ == joined(texts_of(lines@).subrange(from as int, j as int)),
            "\n"@ == seq!['\n'],
        decreases to - j,
    {
        let ghost before = texts_of(lines@).subrange(from as int, j as int);
        let ghost now = texts_of(lines@).subrange(from as int, j + 1);
        proof {
            assert(now.drop_last() =~= before);
        }
        if j > from {
            text.append("\n");
        }
        text.append(lines[j].as_str());
        proof {
            if j == from {
                assert(text@ =~= now[0]);
            } else {
                assert(text@ =~= joined(before) + seq!['\n'] + now.last());
            }
        }
        j = j + 1;
    }
    text
}

/// Splits a body into its two halves by line count, the odd line going to the second half.
pub fn split_halves(body: &str) -> (halves: (String, String))
    ensures
        halves.0@ == first_half(body@),
        halves.1@ == second_half(body@),
{
    let lines = split_lines(body);
    let n = lines.len();
    let middle = n / 2;
    let first = join_lines(&lines, 0, middle);
    let second = join_lines(&lines, middle, n);
    proof {
        let texts = texts_of(lines@);
        assert(texts.subrange(0, middle as int) =~= texts.take(middle as int));
        assert(texts.subrange(middle as int, n as int) =~= texts.skip(middle as int));
    }
    (first, second)
}

/// Cuts rendered content into chunks: the title first and unsplit, then the two halves of each
/// team body, in team order.
pub fn paginate(content: &RenderedContent) -> (chunks: Vec<String>)
    ensures
        chunks@.len() == 1 + 2 * content.teams@.len(),
        texts_of(chunks@) == chunks_of(content.title@, texts_of(content.teams@)),
{
    let mut chunks: Vec<String> = Vec::new();
    chunks.push(content.title.clone());
    let mut t: usize = 0;
    while t < content.teams.len()
        invariant
            t <= content.teams@.len(),
            chunks@.len() == 1 + 2 * t,
            forall|i: int|
                0 <= i < chunks@.len() ==> (#[trigger] chunks@[i])@ == chunk_at(
                    content.title@,
                    texts_of(content.teams@),
                    i,
                ),
        decreases content.teams@.len() - t,
    {
        let (first, second) = split_halves(content.teams[t].as_str());
        proof {
            assert(texts_of(content.teams@)[t as int] == content.teams@[t as int]@);
        }
        chunks.push(first);
        chunks.push(second);
        t = t + 1;
    }
    chunks
}

} // verus!
