use vstd::prelude::*;
use crate::chat::{is_space, is_space_char};
use crate::screen::{chars_of, string_of};

verus! {

/// How a line of a chat message is shown.
#[derive(Clone, Copy, Debug, PartialEq, Eq, Structural)]
pub enum LineStyle {
    /// A line that opens or closes a code block.
    Fence,
    /// A line inside a code block.
    Code,
    /// Any other line.
    Plain,
}

/// A line of a chat message with its style.
pub struct StyledLine {
    pub style: LineStyle,
    pub text: String,
}

/// The pieces of `s` between line feeds: one more than there are line feeds.
pub open spec fn segments(s: Seq<char>) -> Seq<Seq<char>>
    decreases s.len(),
{
    if s.len() == 0 {
        seq![Seq::<char>::empty()]
    } else {
        let rest = segments(s.drop_last());
        if s.last() == '\n' {
            rest.push(Seq::empty())
        } else {
            rest.update(rest.len() - 1, rest.last().push(s.last()))
        }
    }
}

/// A line that ended in a line feed, without a carriage return before it.
pub open spec fn strip_cr(line: Seq<char>) -> Seq<char> {
    if line.len() > 0 && line.last() == '\r' {
        line.drop_last()
    } else {
        line
    }
}

/// The lines of a text: split at `\n` or `\r\n`, the final line ending being
/// optional (no empty last line comes of it).
pub open spec fn text_lines(s: Seq<char>) -> Seq<Seq<char>> {
    let seg = segments(s);
    let ended = seg.drop_last().map_values(|l: Seq<char>| strip_cr(l));
    if seg.last().len() == 0 {
        ended
    } else {
        ended.push(seg.last())
    }
}

/// Number of white space characters at the start of `line`.
pub open spec fn leading_space(line: Seq<char>) -> nat
    decreases line.len(),
{
    if line.len() == 0 {
        0
    } else if is_space_char(line[0]) {
        1 + leading_space(line.drop_first())
    } else {
        0
    }
}

/// A line that, after its leading white space, starts with three backticks.
pub open spec fn is_fence(line: Seq<char>) -> bool {
    let k = leading_space(line) as int;
    k + 3 <= line.len() && line[k] == '`' && line[k + 1] == '`' && line[k + 2] == '`'
}

/// Whether a code block is open after `lines`: each fence toggles it.
pub open spec fn in_code_after(lines: Seq<Seq<char>>) -> bool
    decreases lines.len(),
{
    if lines.len() == 0 {
        false
    } else if is_fence(lines.last()) {
        !in_code_after(lines.drop_last())
    } else {
        in_code_after(lines.drop_last())
    }
}

/// The style of line `i` of `lines`.
pub open spec fn style_at(lines: Seq<Seq<char>>, i: int) -> LineStyle {
    if is_fence(lines[i]) {
        LineStyle::Fence
    } else if in_code_after(lines.take(i)) {
        LineStyle::Code
    } else {
        LineStyle::Plain
    }
}

fn leading_space_count(line: &Vec<char>) -> (r: usize)
    ensures
        r == leading_space(line@),
{
    let n = line.len();
    let mut i: usize = n;
    let mut count: usize = 0;
    // Scan from the right: `count` is the leading space of `line[i..]`.
    while i > 0
        invariant
            i <= line@.len(),
            count == leading_space(line@.skip(i as int)),
            count + i <= n,
            n == line@.len(),
        decreases i,
    {
        proof {
            assert(line@.skip(i - 1).drop_first() =~= line@.skip(i as int));
            assert(line@.skip(i - 1)[0] == line@[i - 1]);
        }
        if is_space(line[i - 1]) {
            count = count + 1;
        } else {
            count = 0;
        }
        i = i - 1;
    }
    proof {
        assert(line@.skip(0) =~= line@);
    }
    count
}

fn fence(line: &Vec<char>) -> (r: bool)
    ensures
        r == is_fence(line@),
{
    let k = leading_space_count(line);
    k <= line.len() && line.len() - k >= 3 && line[k] == '`' && line[k + 1] == '`' && line[k
        + 2] == '`'
}

/// The lines of a text, as `text_lines` describes.
pub fn split_lines(text: &str) -> (r: Vec<Vec<char>>)
    ensures
        r@.map_values(|l: Vec<char>| l@) == text_lines(text@),
{
    let chars = chars_of(text);
    let mut done: Vec<Vec<char>> = Vec::new();
    let mut cur: Vec<char> = Vec::new();
    let mut i: usize = 0;
    while i < chars.len()
        invariant
            chars@ == text@,
            i <= chars@.len(),
            cur@ == segments(chars@.take(i as int)).last(),
            done@.map_values(|l: Vec<char>| l@) == segments(chars@.take(i as int)).drop_last().map_values(
                |l: Seq<char>| strip_cr(l),
            ),
        decreases chars@.len() - i,
    {
        let ghost prev = chars@.take(i as int);
        let ghost done_before = done@;
        proof {
            assert(chars@.take(i + 1).drop_last() =~= prev);
            lemma_segments_nonempty(prev);
        }
        let c = chars[i];
        if c == '\n' {
            let n = cur.len();
            if n > 0 && cur[n - 1] == '\r' {
                cur.pop();
            }
            let mut line: Vec<char> = Vec::new();
            std::mem::swap(&mut line, &mut cur);
            proof {
                assert(line@ == strip_cr(segments(prev).last()));
                assert(segments(chars@.take(i + 1)) == segments(prev).push(Seq::empty()));
                assert(segments(chars@.take(i + 1)).drop_last() =~= segments(prev));
                assert(segments(prev).map_values(|l: Seq<char>| strip_cr(l)) =~= segments(
                    prev,
                ).drop_last().map_values(|l: Seq<char>| strip_cr(l)).push(strip_cr(segments(prev).last())));
            }
            done.push(line);
            proof {
                assert(done@.map_values(|l: Vec<char>| l@) =~= done_before.map_values(
                    |l: Vec<char>| l@,
                ).push(line@));
                assert(done@.map_values(|l: Vec<char>| l@) =~= segments(
                    chars@.take(i + 1),
                ).drop_last().map_values(|l: Seq<char>| strip_cr(l)));
            }
        } else {
            cur.push(c);
            proof {
                assert(segments(chars@.take(i + 1)).drop_last() =~= segments(prev).drop_last());
            }
        }
        i = i + 1;
    }
    proof {
        assert(chars@.take(i as int) =~= text@);
        lemma_segments_nonempty(text@);
    }
    if cur.len() > 0 {
        let ghost before = done@;
        done.push(cur);
        proof {
            assert(done@.map_values(|l: Vec<char>| l@) =~= before.map_values(|l: Vec<char>| l@).push(
                segments(text@).last(),
            ));
        }
    }
    done
}

proof fn lemma_segments_nonempty(s: Seq<char>)
    ensures
        segments(s).len() >= 1,
    decreases s.len(),
{
    if s.len() > 0 {
        lemma_segments_nonempty(s.drop_last());
    }
}

/// The lines of a chat message, each with how it is shown: a line whose
/// text (past leading white space) starts with three backticks is a fence
/// and opens or closes a code block; lines between are code.
pub fn styled_lines(content: &str) -> (r: Vec<StyledLine>)
    ensures
        r@.len() == text_lines(content@).len(),
        forall|i: int|
            0 <= i < r@.len() ==> (#[trigger] r@[i]).text@ == text_lines(content@)[i] && r@[i].style
                == style_at(text_lines(content@), i),
{
    let lines = split_lines(content);
    let ghost ls = text_lines(content@);
    let mut r: Vec<StyledLine> = Vec::new();
    let mut in_code = false;
    let mut i: usize = 0;
    while i < lines.len()
        invariant
            lines@.map_values(|l: Vec<char>| l@) == ls,
            ls == text_lines(content@),
            i <= lines@.len(),
            r@.len() == i,
            in_code == in_code_after(ls.take(i as int)),
            forall|j: int|
                0 <= j < i ==> (#[trigger] r@[j]).text@ == ls[j] && r@[j].style == style_at(ls, j),
        decreases lines@.len() - i,
    {
        proof {
            assert(ls.take(i + 1).drop_last() =~= ls.take(i as int));
            assert(lines@[i as int]@ == ls[i as int]);
        }
        let is_f = fence(&lines[i]);
        let style = if is_f {
            LineStyle::Fence
        } else if in_code {
            LineStyle::Code
        } else {
            LineStyle::Plain
        };
        r.push(StyledLine { style, text: string_of(&lines[i]) });
        if is_f {
            in_code = !in_code;
        }
        i = i + 1;
    }
    r
}

} // verus!
