//! The bubble: a border above, one row for each line, a border below.

use vstd::prelude::*;
use vstd::string::{StrSliceExecFns, StringExecFns};
use crate::wrap::line_views;

verus! {

/// `count` copies of `c`.
pub open spec fn fill(c: char, count: nat) -> Seq<char> {
    Seq::new(count, |i: int| c)
}

/// The length of the longest line, 0 where there is none.
pub open spec fn widest(lines: Seq<Seq<char>>) -> nat
    decreases lines.len(),
{
    if lines.len() == 0 {
        0
    } else if lines.last().len() > widest(lines.drop_last()) {
        lines.last().len()
    } else {
        widest(lines.drop_last())
    }
}

/// A border for lines of `width` characters: a space, `width + 2` copies of
/// `c`, a line feed.
pub open spec fn border(width: nat, c: char) -> Seq<char> {
    seq![' '] + fill(c, width + 2) + seq!['\n']
}

/// The border above the lines, made of underscores.
pub open spec fn top_border(width: nat) -> Seq<char> {
    border(width, '_')
}

/// The border below the lines, made of hyphens.
pub open spec fn bottom_border(width: nat) -> Seq<char> {
    border(width, '-')
}

/// The pair of delimiters around line `index` of `count` lines. A thought has
/// round brackets on every line. Speech has angle brackets around a single
/// line; with more lines it has a slash and a backslash around the first, a
/// backslash and a slash around the last, and bars around the others.
pub open spec fn delimiters(thought: bool, count: nat, index: nat) -> (char, char) {
    if thought {
        ('(', ')')
    } else if count == 1 {
        ('<', '>')
    } else if index == 0 {
        ('/', '\\')
    } else if index + 1 == count {
        ('\\', '/')
    } else {
        ('|', '|')
    }
}

/// One row: the left delimiter, a space, the line, spaces up to `width`, a
/// space, the right delimiter, a line feed.
pub open spec fn row(line: Seq<char>, width: nat, pair: (char, char)) -> Seq<char> {
    seq![pair.0, ' '] + line + fill(' ', (width - line.len()) as nat) + seq![' ', pair.1, '\n']
}

/// The rows of the first `count` lines.
pub open spec fn rows(lines: Seq<Seq<char>>, width: nat, thought: bool, count: nat) -> Seq<char>
    decreases count,
{
    if count == 0 || count > lines.len() {
        Seq::empty()
    } else {
        rows(lines, width, thought, (count - 1) as nat) + row(
            lines[count - 1],
            width,
            delimiters(thought, lines.len(), (count - 1) as nat),
        )
    }
}

/// The bubble around `lines`: its width is that of the longest line.
pub open spec fn bubble(lines: Seq<Seq<char>>, thought: bool) -> Seq<char> {
    let width = widest(lines);
    top_border(width) + rows(lines, width, thought, lines.len()) + bottom_border(width)
}

/// Appends `count` copies of `c`.
fn push_fill(out: &mut String, c: char, count: usize)
    ensures
        final(out)@ == old(out)@ + fill(c, count as nat),
{
    let mut done: usize = 0;
    proof {
        assert(out@ =~= old(out)@ + fill(c, 0));
    }
    while done < count
        invariant
            done <= count,
            out@ == old(out)@ + fill(c, done as nat),
        decreases count - done,
    {
        out.push(c);
        done += 1;
        proof {
            assert(out@ =~= old(out)@ + fill(c, done as nat));
        }
    }
}

/// Appends a border for lines of `width` characters, made of `c`.
fn push_border(out: &mut String, width: usize, c: char)
    ensures
        final(out)@ == old(out)@ + border(width as nat, c),
{
    out.push(' ');
    push_fill(out, c, width);
    out.push(c);
    out.push(c);
    out.push('\n');
    proof {
        assert(out@ =~= old(out)@ + border(width as nat, c));
    }
}

/// Appends the border above lines of `width` characters.
pub fn bubble_top(out: &mut String, width: usize)
    ensures
        final(out)@ == old(out)@ + top_border(width as nat),
{
    push_border(out, width, '_');
}

/// Appends the border below lines of `width` characters.
pub fn bubble_bottom(out: &mut String, width: usize)
    ensures
        final(out)@ == old(out)@ + bottom_border(width as nat),
{
    push_border(out, width, '-');
}

/// The pair of delimiters around line `index` of `count` lines.
pub fn bubble_delimiters(thought: bool, count: usize, index: usize) -> (pair: (char, char))
    ensures
        pair == delimiters(thought, count as nat, index as nat),
{
    if thought {
        ('(', ')')
    } else if count == 1 {
        ('<', '>')
    } else if index == 0 {
        ('/', '\\')
    } else if count > 0 && index == count - 1 {
        ('\\', '/')
    } else {
        ('|', '|')
    }
}

/// Every line is at most as long as the longest, and with at least one line
/// some line is that long.
pub proof fn lemma_widest(lines: Seq<Seq<char>>)
    ensures
        forall|i: int| 0 <= i < lines.len() ==> (#[trigger] lines[i]).len() <= widest(lines),
        lines.len() > 0 ==> exists|i: int|
            0 <= i < lines.len() && (#[trigger] lines[i]).len() == widest(lines),
    decreases lines.len(),
{
    if lines.len() > 0 {
        let front = lines.drop_last();
        lemma_widest(front);
        assert forall|i: int| 0 <= i < lines.len() implies (#[trigger] lines[i]).len() <= widest(
            lines,
        ) by {
            if i < front.len() {
                assert(front[i] == lines[i]);
            }
        }
        if lines.last().len() > widest(front) || front.len() == 0 {
            assert(lines[lines.len() - 1].len() == widest(lines));
        } else {
            let i = choose|i: int|
                0 <= i < front.len() && (#[trigger] front[i]).len() == widest(front);
            assert(lines[i] == front[i]);
        }
    }
}

/// The length in characters of the longest line.
pub fn max_width(lines: &Vec<String>) -> (width: usize)
    ensures
        width == widest(line_views(lines@)),
{
    let mut width: usize = 0;
    let mut i: usize = 0;
    proof {
        assert(line_views(lines@).take(0) =~= Seq::<Seq<char>>::empty());
    }
    while i < lines.len()
        invariant
            i <= lines.len(),
            width == widest(line_views(lines@).take(i as int)),
        decreases lines.len() - i,
    {
        let len = lines[i].as_str().unicode_len();
        proof {
            let views = line_views(lines@);
            assert(views.take(i + 1).drop_last() =~= views.take(i as int));
            assert(views.take(i + 1).last() == lines@[i as int]@);
        }
        if len > width {
            width = len;
        }
        i += 1;
    }
    proof {
        assert(line_views(lines@).take(lines.len() as int) =~= line_views(lines@));
    }
    width
}

/// Appends the row of line `index`.
fn push_row(out: &mut String, lines: &Vec<String>, index: usize, width: usize, thought: bool)
    requires
        index < lines.len(),
        lines@[index as int]@.len() <= width,
    ensures
        final(out)@ == old(out)@ + row(
            lines@[index as int]@,
            width as nat,
            delimiters(thought, lines.len() as nat, index as nat),
        ),
{
    let line = lines[index].as_str();
    let pair = bubble_delimiters(thought, lines.len(), index);
    out.push(pair.0);
    out.push(' ');
    out.append(line);
    push_fill(out, ' ', width - line.unicode_len());
    out.push(' ');
    out.push(pair.1);
    out.push('\n');
    proof {
        assert(out@ =~= old(out)@ + row(line@, width as nat, pair));
    }
}

/// Appends the bubble around `lines`.
pub fn push_bubble(out: &mut String, lines: &Vec<String>, thought: bool)
    ensures
        final(out)@ == old(out)@ + bubble(line_views(lines@), thought),
{
    let ghost views = line_views(lines@);
    let width = max_width(lines);
    bubble_top(out, width);
    let mut i: usize = 0;
    proof {
        lemma_widest(views);
        assert(out@ =~= old(out)@ + top_border(width as nat) + rows(
            views,
            width as nat,
            thought,
            0,
        ));
    }
    while i < lines.len()
        invariant
            i <= lines.len(),
            views == line_views(lines@),
            width == widest(views),
            forall|k: int| 0 <= k < views.len() ==> (#[trigger] views[k]).len() <= width,
            out@ == old(out)@ + top_border(width as nat) + rows(
                views,
                width as nat,
                thought,
                i as nat,
            ),
        decreases lines.len() - i,
    {
        proof {
            assert(views[i as int] == lines@[i as int]@);
        }
        push_row(out, lines, i, width, thought);
        i += 1;
        proof {
            assert(out@ =~= old(out)@ + top_border(width as nat) + rows(
                views,
                width as nat,
                thought,
                i as nat,
            ));
        }
    }
    bubble_bottom(out, width);
    proof {
        assert(out@ =~= old(out)@ + bubble(views, thought));
    }
}

/// The bubble around a single line: the borders are as wide as the line, and
/// between them stands the one row, which holds the line without padding.
pub proof fn lemma_single_line_bubble(line: Seq<char>, thought: bool)
    ensures
        bubble(seq![line], thought) == top_border(line.len()) + row(
            line,
            line.len(),
            delimiters(thought, 1, 0),
        ) + bottom_border(line.len()),
        row(line, line.len(), delimiters(thought, 1, 0)) == seq![
            delimiters(thought, 1, 0).0,
            ' ',
        ] + line + seq![' ', delimiters(thought, 1, 0).1, '\n'],
{
    let lines = seq![line];
    assert(lines.drop_last() =~= Seq::<Seq<char>>::empty());
    assert(widest(lines.drop_last()) == 0);
    assert(widest(lines) == line.len());
    assert(rows(lines, line.len(), thought, 0) =~= Seq::<char>::empty());
    assert(rows(lines, line.len(), thought, 1) =~= row(
        line,
        line.len(),
        delimiters(thought, 1, 0),
    ));
    assert(row(line, line.len(), delimiters(thought, 1, 0)) =~= seq![
        delimiters(thought, 1, 0).0,
        ' ',
    ] + line + seq![' ', delimiters(thought, 1, 0).1, '\n']);
}

/// Both borders are 4 characters longer than the lines are wide: a space,
/// the width and 2 more in border characters, and a line feed.
pub proof fn lemma_border_len(width: nat)
    ensures
        top_border(width).len() == width + 4,
        bottom_border(width).len() == width + 4,
{
}

/// With its line feed a row is 5 characters longer than the lines are wide,
/// whatever the length of its line.
pub proof fn lemma_row_len(line: Seq<char>, width: nat, pair: (char, char))
    requires
        line.len() <= width,
    ensures
        row(line, width, pair).len() == width + 5,
{
}

/// The rows of a bubble all have the same length.
pub proof fn lemma_rows_len(lines: Seq<Seq<char>>, thought: bool, count: nat)
    requires
        count <= lines.len(),
    ensures
        rows(lines, widest(lines), thought, count).len() == count * (widest(lines) + 5),
    decreases count,
{
    let width = widest(lines);
    if count > 0 {
        lemma_widest(lines);
        lemma_rows_len(lines, thought, (count - 1) as nat);
        lemma_row_len(
            lines[count - 1],
            width,
            delimiters(thought, lines.len(), (count - 1) as nat),
        );
        assert((count - 1) * (width + 5) + (width + 5) == count * (width + 5))
            by (nonlinear_arith);
    } else {
        assert(0 * (width + 5) == 0) by (nonlinear_arith);
    }
}

/// The bubble is as wide as its longest line asks for: its borders are 4
/// characters longer than that line, and it holds one row of equal length for
/// each line between them.
pub proof fn lemma_bubble_len(lines: Seq<Seq<char>>, thought: bool)
    ensures
        bubble(lines, thought).len() == 2 * (widest(lines) + 4) + lines.len() * (widest(lines)
            + 5),
        bubble(lines, thought).take((widest(lines) + 4) as int) == top_border(widest(lines)),
        bubble(lines, thought).skip(bubble(lines, thought).len() - (widest(lines) + 4))
            == bottom_border(widest(lines)),
{
    let width = widest(lines);
    let all = bubble(lines, thought);
    lemma_border_len(width);
    lemma_rows_len(lines, thought, lines.len());
    assert(all.take((width + 4) as int) =~= top_border(width));
    assert(all.skip(all.len() - (width + 4)) =~= bottom_border(width));
}

} // verus!
