//! Rendering to text: values separated by single spaces, lines by line
//! feeds.

use vstd::prelude::*;
use vstd::string::to_string_from_display_ensures;
use core::fmt::Display;

verus! {

/// Appends `t` to `s`, with `String::push_str`: the text of `s` afterwards is
/// its text before, followed by that of `t`.
#[verifier::external_body]
fn push_str(s: &mut String, t: &str)
    ensures
        final(s)@ == old(s)@ + t@,
{
    s.push_str(t)
}

/// `text` is a rendering of `v` as `Display` gives it.
pub open spec fn shown<T: Display>(v: T, text: Seq<char>) -> bool {
    exists|s: String| #[trigger] to_string_from_display_ensures::<T>(&v, s) && s@ == text
}

/// The parts, in order, with `sep` between each two of them: none before
/// the first part and none after the last.
pub open spec fn joined(parts: Seq<Seq<char>>, sep: char) -> Seq<char>
    decreases parts.len(),
{
    if parts.len() == 0 {
        Seq::empty()
    } else if parts.len() == 1 {
        parts[0]
    } else {
        joined(parts.drop_last(), sep) + seq![sep] + parts.last()
    }
}

/// Joining one more part: the separator goes in only where something came
/// before.
pub proof fn lemma_joined_push(parts: Seq<Seq<char>>, sep: char, part: Seq<char>)
    ensures
        joined(parts.push(part), sep) == if parts.len() == 0 {
            part
        } else {
            joined(parts, sep) + seq![sep] + part
        },
{
    let all = parts.push(part);
    assert(all.drop_last() =~= parts);
    assert(all.last() == part);
}

/// `cells[i]` is a rendering of `values[i]`, for every `i`.
pub open spec fn all_shown<T: Display>(values: Seq<T>, cells: Seq<Seq<char>>) -> bool {
    &&& cells.len() == values.len()
    &&& forall|i: int| 0 <= i < values.len() ==> shown(values[i], #[trigger] cells[i])
}

/// `text` is a rendering of `values` with `sep` between each two of them.
pub open spec fn line_shown<T: Display>(values: Seq<T>, sep: char, text: Seq<char>) -> bool {
    exists|cells: Seq<Seq<char>>| #[trigger] all_shown(values, cells) && text == joined(cells, sep)
}

/// The separator as a string: a single space, or a line feed.
fn separator(line_feed: bool) -> (s: &'static str)
    ensures
        s@ == seq![
            if line_feed {
                '\n'
            } else {
                ' '
            },
        ],
{
    proof {
        reveal_strlit("\n");
        reveal_strlit(" ");
    }
    if line_feed {
        let s = "\n";
        assert(s@ =~= seq!['\n']);
        s
    } else {
        let s = " ";
        assert(s@ =~= seq![' ']);
        s
    }
}

/// Renders `values` on one line with single spaces between them or, with
/// `line_feed`, one to a line.
pub fn render_line<T>(values: &[T], line_feed: bool) -> (out: String) where T: Copy + Display
    ensures
        line_shown(
            values@,
            if line_feed {
                '\n'
            } else {
                ' '
            },
            out@,
        ),
{
    let ghost sep = if line_feed {
        '\n'
    } else {
        ' '
    };
    let mut out = String::new();
    let ghost mut cells: Seq<Seq<char>> = Seq::empty();
    let mut i: usize = 0;
    while i < values.len()
        invariant
            i <= values.len(),
            sep == (if line_feed {
                '\n'
            } else {
                ' '
            }),
            all_shown(values@.take(i as int), cells),
            out@ == joined(cells, sep),
        decreases values.len() - i,
    {
        let cell = values[i].to_string();
        if i != 0 {
            push_str(&mut out, separator(line_feed));
        }
        push_str(&mut out, cell.as_str());
        proof {
            lemma_joined_push(cells, sep, cell@);
            assert(shown(values@[i as int], cell@));
            cells = cells.push(cell@);
            assert(all_shown(values@.take(i + 1), cells));
        }
        i += 1;
    }
    proof {
        assert(values@.take(values.len() as int) =~= values@);
    }
    out
}

/// Joins the lines with line feeds between them.
pub fn join_lines(lines: &Vec<String>) -> (out: String)
    ensures
        out@ == joined(lines@.map_values(|l: String| l@), '\n'),
{
    let ghost texts = lines@.map_values(|l: String| l@);
    let mut out = String::new();
    let mut i: usize = 0;
    while i < lines.len()
        invariant
            i <= lines.len(),
            texts == lines@.map_values(|l: String| l@),
            out@ == joined(texts.take(i as int), '\n'),
        decreases lines.len() - i,
    {
        if i != 0 {
            push_str(&mut out, separator(true));
        }
        push_str(&mut out, lines[i].as_str());
        proof {
            lemma_joined_push(texts.take(i as int), '\n', texts[i as int]);
            assert(texts.take(i as int).push(texts[i as int]) =~= texts.take(i + 1));
        }
        i += 1;
    }
    proof {
        assert(texts.take(lines.len() as int) =~= texts);
    }
    out
}

} // verus!
