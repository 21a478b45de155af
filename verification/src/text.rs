//! Text building blocks: decimal numerals, cell cleaning and the frame put round a message.

use vstd::prelude::*;

verus! {

/// `String::push` appends one character to the end of the string and changes nothing else.
pub assume_specification[ String::push ](s: &mut String, c: char)
    ensures
        final(s)@ == old(s)@.push(c),
;

/// The texts of `strings`, in order.
pub open spec fn texts_of(strings: Seq<String>) -> Seq<Seq<char>> {
    Seq::new(strings.len(), |i: int| strings[i]@)
}

/// The character that writes the digit `d`.
pub open spec fn digit_char(d: int) -> char {
    seq!['0', '1', '2', '3', '4', '5', '6', '7', '8', '9'][d]
}

/// The decimal numeral of a natural number, without leading zeros.
pub open spec fn nat_text(n: nat) -> Seq<char>
    decreases n,
{
    if n < 10 {
        seq![digit_char(n as int)]
    } else {
        nat_text(n / 10).push(digit_char((n % 10) as int))
    }
}

/// The decimal numeral of an integer: a minus sign before the numeral of a negative one.
pub open spec fn int_text(n: int) -> Seq<char> {
    if n < 0 {
        seq!['-'] + nat_text((-n) as nat)
    } else {
        nat_text(n as nat)
    }
}

fn digit(d: u64) -> (c: char)
    requires
        d < 10,
    ensures
        c == digit_char(d as int),
{
    if d == 0 {
        '0'
    } else if d == 1 {
        '1'
    } else if d == 2 {
        '2'
    } else if d == 3 {
        '3'
    } else if d == 4 {
        '4'
    } else if d == 5 {
        '5'
    } else if d == 6 {
        '6'
    } else if d == 7 {
        '7'
    } else if d == 8 {
        '8'
    } else {
        '9'
    }
}

/// Writes `n` in decimal.
pub fn u64_text(n: u64) -> (s: String)
    ensures
        s@ == nat_text(n as nat),
    decreases n,
{
    if n < 10 {
        let mut s = String::new();
        s.push(digit(n));
        s
    } else {
        let mut s = u64_text(n / 10);
        s.push(digit(n % 10));
        s
    }
}

/// Writes `n` in decimal, with a leading minus sign if it is negative.
pub fn i64_text(n: i64) -> (s: String)
    ensures
        s@ == int_text(n as int),
{
    if n < 0 {
        let magnitude: u64 = if n == i64::MIN {
            9223372036854775808u64
        } else {
            (-n) as u64
        };
        let mut s = String::new();
        s.push('-');
        let digits = u64_text(magnitude);
        s.append(digits.as_str());
        s
    } else {
        u64_text(n as u64)
    }
}

/// The opening and closing mark of the fixed-width frame that a message is published in.
pub open spec fn fence() -> Seq<char> {
    seq!['`', '`', '`']
}

/// A text inside the fixed-width frame: the mark, a line break, the text, a line break, the mark.
pub open spec fn framed(text: Seq<char>) -> Seq<char> {
    fence() + seq!['\n'] + text + seq!['\n'] + fence()
}

/// Puts `text` into the fixed-width frame in which the chat platform shows it unchanged.
pub fn frame(text: &str) -> (message: String)
    ensures
        message@ == framed(text@),
{
    proof {
        reveal_strlit("```\n");
        reveal_strlit("\n```");
    }
    let mut message = String::from_str("```\n");
    message.append(text);
    message.append("\n```");
    message
}

/// The gap that the tables leave between two columns.
pub open spec fn gap() -> Seq<char> {
    seq![' ', ' ']
}

/// A character as it may stand in a table cell: the character of the frame's mark gives way
/// to an apostrophe and a line break to a space; every other character stays.
pub open spec fn clean_char(c: char) -> char {
    if c == '`' {
        '\''
    } else if c == '\n' {
        ' '
    } else {
        c
    }
}

/// A cell text cleaned: every character cleaned, and of spaces that follow one another only
/// the first kept.
pub open spec fn clean(text: Seq<char>) -> Seq<char>
    decreases text.len(),
{
    if text.len() == 0 {
        Seq::empty()
    } else {
        let before = clean(text.drop_last());
        let kept = clean_char(text.last());
        if kept == ' ' && before.len() > 0 && before.last() == ' ' {
            before
        } else {
            before.push(kept)
        }
    }
}

/// A heading cleaned: every character cleaned, and nothing else changed.
pub open spec fn clean_heading(text: Seq<char>) -> Seq<char> {
    Seq::new(text.len(), |i: int| clean_char(text[i]))
}

/// Whether `text` is one line that cannot close the frame: it holds neither a line break nor
/// the character of the frame's mark.
pub open spec fn is_safe_line(text: Seq<char>) -> bool {
    forall|i: int| 0 <= i < text.len() ==> #[trigger] text[i] != '`' && text[i] != '\n'
}

/// Whether `text` can stand in a table cell as it is: it holds none of the table's
/// delimiters, neither a line break nor two spaces in a row, and not the character of the
/// frame's mark.
pub open spec fn is_plain(text: Seq<char>) -> bool {
    forall|i: int|
        0 <= i < text.len() ==> #[trigger] text[i] != '`' && text[i] != '\n' && !(i > 0 && text[i]
            == ' ' && text[i - 1] == ' ')
}

/// Whether `needle` occurs in `text` as a run of neighbouring characters.
pub open spec fn occurs_in(needle: Seq<char>, text: Seq<char>) -> bool {
    exists|at: int|
        0 <= at && at + needle.len() <= text.len() && #[trigger] text.subrange(
            at,
            at + needle.len(),
        ) == needle
}

/// Cleans a cell text so that it holds no delimiter of the table and cannot close the frame
/// that the table is shown in.
pub fn sanitize(text: &str) -> (cell: String)
    ensures
        cell@ == clean(text@),
{
    broadcast use vstd::string::group_string_axioms;

    let mut cell = String::new();
    let mut after_space = false;
    for c in it: text.chars()
        invariant
            it.seq() == text@,
            0 <= it.index() <= text@.len(),
            cell@ == clean(text@.take(it.index())),
            after_space == (cell@.len() > 0 && cell@.last() == ' '),
    {
        let ghost at = it.index();
        proof {
            assert(text@.take(at + 1).drop_last() =~= text@.take(at));
        }
        let kept = if c == '`' {
            '\''
        } else if c == '\n' {
            ' '
        } else {
            c
        };
        if !(kept == ' ' && after_space) {
            cell.push(kept);
            after_space = kept == ' ';
        }
    }
    assert(text@.take(text@.len() as int) =~= text@);
    cell
}

/// Cleans a heading so that it stays one line and cannot close the frame that the table is
/// shown in. Spaces are left as they are.
pub fn sanitize_heading(text: &str) -> (heading: String)
    ensures
        heading@ == clean_heading(text@),
{
    broadcast use vstd::string::group_string_axioms;

    let mut heading = String::new();
    for c in it: text.chars()
        invariant
            it.seq() == text@,
            0 <= it.index() <= text@.len(),
            heading@ == clean_heading(text@.take(it.index())),
    {
        let ghost at = it.index();
        let kept = if c == '`' {
            '\''
        } else if c == '\n' {
            ' '
        } else {
            c
        };
        heading.push(kept);
        assert(heading@ =~= clean_heading(text@.take(at + 1)));
    }
    assert(text@.take(text@.len() as int) =~= text@);
    heading
}

/// A cleaned heading is one line that cannot close the frame, as long as the heading was, and
/// a heading that is such a line already stays as it is.
pub proof fn lemma_clean_heading(text: Seq<char>)
    ensures
        is_safe_line(clean_heading(text)),
        clean_heading(text).len() == text.len(),
        !occurs_in(fence(), clean_heading(text)),
        !occurs_in(seq!['\n'], clean_heading(text)),
        is_safe_line(text) ==> clean_heading(text) == text,
{
    let cleaned = clean_heading(text);
    assert forall|at: int| 0 <= at && at + fence().len() <= cleaned.len() implies #[trigger] cleaned.subrange(
        at,
        at + fence().len(),
    ) != fence() by {
        assert(cleaned.subrange(at, at + fence().len())[0] == cleaned[at]);
        assert(fence()[0] == '`');
    }
    assert forall|at: int| 0 <= at && at + seq!['\n'].len() <= cleaned.len() implies #[trigger] cleaned.subrange(
        at,
        at + seq!['\n'].len(),
    ) != seq!['\n'] by {
        assert(cleaned.subrange(at, at + seq!['\n'].len())[0] == cleaned[at]);
    }
    if is_safe_line(text) {
        assert(cleaned =~= text);
    }
}

/// A cleaned text is plain, whatever the text was.
pub proof fn lemma_clean_is_plain(text: Seq<char>)
    ensures
        is_plain(clean(text)),
    decreases text.len(),
{
    if text.len() > 0 {
        lemma_clean_is_plain(text.drop_last());
        let before = clean(text.drop_last());
        let kept = clean_char(text.last());
        if !(kept == ' ' && before.len() > 0 && before.last() == ' ') {
            assert forall|i: int| 0 <= i < clean(text).len() implies #[trigger] clean(text)[i] != '`'
                && clean(text)[i] != '\n' && !(i > 0 && clean(text)[i] == ' ' && clean(text)[i - 1]
                == ' ') by {
                if i < before.len() {
                    if i > 0 {
                        assert(clean(text)[i - 1] == before[i - 1]);
                    }
                }
            }
        }
    }
}

/// A plain text holds none of the table's delimiters and not the frame's mark.
pub proof fn lemma_plain_has_no_delimiter(text: Seq<char>)
    requires
        is_plain(text),
    ensures
        !occurs_in(fence(), text),
        !occurs_in(gap(), text),
        !occurs_in(seq!['\n'], text),
{
    assert forall|at: int| 0 <= at && at + fence().len() <= text.len() implies #[trigger] text.subrange(
        at,
        at + fence().len(),
    ) != fence() by {
        assert(fence()[0] == '`');
    }
    assert forall|at: int| 0 <= at && at + gap().len() <= text.len() implies #[trigger] text.subrange(
        at,
        at + gap().len(),
    ) != gap() by {
        assert(text.subrange(at, at + gap().len())[1] == text[at + 1]);
    }
    assert forall|at: int| 0 <= at && at + seq!['\n'].len() <= text.len() implies #[trigger] text.subrange(
        at,
        at + seq!['\n'].len(),
    ) != seq!['\n'] by {
        assert(text.subrange(at, at + seq!['\n'].len())[0] == text[at]);
    }
}

/// Cleaning leaves a plain text as it is.
pub proof fn lemma_plain_is_kept(text: Seq<char>)
    requires
        is_plain(text),
    ensures
        clean(text) == text,
    decreases text.len(),
{
    if text.len() > 0 {
        let earlier = text.drop_last();
        assert forall|i: int| 0 <= i < earlier.len() implies #[trigger] earlier[i] != '`'
            && earlier[i] != '\n' && !(i > 0 && earlier[i] == ' ' && earlier[i - 1] == ' ') by {
            if i > 0 {
                assert(earlier[i - 1] == text[i - 1]);
            }
        }
        lemma_plain_is_kept(earlier);
        let n = text.len() as int;
        if n > 1 {
            assert(earlier.last() == text[n - 2]);
        }
    }
}

} // verus!
