use vstd::prelude::*;

use crate::pretty_print::border_variants::BorderVariants;
use crate::pretty_print::formatting::{PrettyPrintAlignment, PrettyPrintFormat};
use crate::text::{push_char, push_repeated, push_str, spec_repeat};

verus! {

/// The text holder
#[derive(Debug, Clone, PartialEq, Eq, PartialOrd, Ord, Hash)]
pub struct PrettyPrintText {
    /// The lines to pp
    pub lines: Vec<PrettyPrintFormat>,
    /// If there should be a horizontal margin between the text and the border
    pub margin: bool,
    /// If the text should have border
    pub border: bool,
}

/// The number of characters a line holds before padding (a divider holds none)
pub open spec fn spec_line_length(line: PrettyPrintFormat) -> nat {
    match line {
        PrettyPrintFormat::Text(t, _) => t@.len(),
        PrettyPrintFormat::Divider => 0,
    }
}

/// The greatest line length of `lines`
pub open spec fn spec_longest(lines: Seq<PrettyPrintFormat>) -> nat
    decreases lines.len(),
{
    if lines.len() == 0 {
        0
    } else {
        let rest = spec_longest(lines.drop_last());
        let here = spec_line_length(lines.last());
        if here > rest {
            here
        } else {
            rest
        }
    }
}

/// The sum of the line lengths, where a divider counts as `longest`
pub open spec fn spec_estimated_size(lines: Seq<PrettyPrintFormat>, longest: nat) -> nat
    decreases lines.len(),
{
    if lines.len() == 0 {
        0
    } else {
        spec_estimated_size(lines.drop_last(), longest) + match lines.last() {
            PrettyPrintFormat::Text(t, _) => t@.len(),
            PrettyPrintFormat::Divider => longest,
        }
    }
}

/// `text` padded with spaces to `width` characters according to `alignment`;
/// the middle alignment puts the extra space of an odd padding at the end
pub open spec fn spec_aligned(text: Seq<char>, alignment: PrettyPrintAlignment, width: nat) -> Seq<
    char,
> {
    let pad = (width - text.len()) as nat;
    match alignment {
        PrettyPrintAlignment::Front => text + spec_repeat(' ', pad),
        PrettyPrintAlignment::End => spec_repeat(' ', pad) + text,
        PrettyPrintAlignment::Middle => {
            let front = pad / 2;
            let back = if pad % 2 == 0 {
                front
            } else {
                front + 1
            };
            spec_repeat(' ', front) + text + spec_repeat(' ', back)
        },
    }
}

/// `inner` between the two side characters when there is a border
pub open spec fn spec_framed(left: Seq<char>, inner: Seq<char>, right: Seq<char>, border: bool) -> Seq<
    char,
> {
    if border {
        left + inner + right
    } else {
        inner
    }
}

impl PrettyPrintText {
    /// The width of the area inside the border: the longest line plus the margins
    pub open spec fn spec_inner_width(self) -> nat {
        spec_longest(self.lines@) + if self.margin {
            2nat
        } else {
            0nat
        }
    }

    /// The row that `line` becomes in the output, without line break
    pub open spec fn spec_row(self, line: PrettyPrintFormat, f: BorderVariants) -> Seq<char> {
        let width = self.spec_inner_width();
        match line {
            PrettyPrintFormat::Divider => spec_framed(
                seq![f.spec_vertical_right()],
                spec_repeat(f.spec_horizontal(), width),
                seq![f.spec_vertical_left()],
                self.border,
            ),
            PrettyPrintFormat::Text(t, a) => {
                let pad: Seq<char> = if self.margin {
                    seq![' ']
                } else {
                    Seq::empty()
                };
                spec_framed(
                    seq![f.spec_vertical()] + pad,
                    spec_aligned(t@, a, spec_longest(self.lines@)),
                    pad + seq![f.spec_vertical()],
                    self.border,
                )
            },
        }
    }

    /// The top row of the border
    pub open spec fn spec_top_row(self, f: BorderVariants) -> Seq<char> {
        seq![f.spec_top_left()] + spec_repeat(f.spec_horizontal(), self.spec_inner_width()) + seq![
            f.spec_top_right(),
        ]
    }

    /// The bottom row of the border
    pub open spec fn spec_bottom_row(self, f: BorderVariants) -> Seq<char> {
        seq![f.spec_bottom_left()] + spec_repeat(f.spec_horizontal(), self.spec_inner_width())
            + seq![f.spec_bottom_right()]
    }

    /// The rows of the first `n` lines, each preceded by a line break
    pub open spec fn spec_body(self, f: BorderVariants, n: nat) -> Seq<char>
        decreases n,
    {
        if n == 0 {
            Seq::empty()
        } else {
            self.spec_body(f, (n - 1) as nat) + seq!['\n'] + self.spec_row(
                self.lines@[n - 1],
                f,
            )
        }
    }

    /// The whole text: the rows of the lines, each after a line break, and
    /// with a border the top row first and the bottom row last, on a line of its own
    pub open spec fn spec_text(self, f: BorderVariants) -> Seq<char> {
        let body = self.spec_body(f, self.lines@.len());
        if self.border {
            self.spec_top_row(f) + body + seq!['\n'] + self.spec_bottom_row(f)
        } else {
            body
        }
    }

    /// Get the longest line length
    pub fn get_longest_line_length(&self) -> (r: usize)
        ensures
            r == spec_longest(self.lines@),
    {
        let mut longest: usize = 0;
        let mut i: usize = 0;
        while i < self.lines.len()
            invariant
                i <= self.lines@.len(),
                longest == spec_longest(self.lines@.take(i as int)),
            decreases self.lines@.len() - i,
        {
            let length: usize = match &self.lines[i] {
                PrettyPrintFormat::Divider => 0,
                PrettyPrintFormat::Text(t, _) => t.as_str().unicode_len(),
            };
            assert(self.lines@.take(i + 1).drop_last() =~= self.lines@.take(i as int));
            if length > longest {
                longest = length;
            }
            i = i + 1;
        }
        assert(self.lines@.take(i as int) =~= self.lines@);
        longest
    }

    /// Estimate the size of all characters (outside of border)
    pub fn get_estimated_size(&self, longest: usize) -> (r: usize)
        requires
            spec_estimated_size(self.lines@, longest as nat) <= usize::MAX,
        ensures
            r == spec_estimated_size(self.lines@, longest as nat),
    {
        let mut total: usize = 0;
        let mut i: usize = 0;
        while i < self.lines.len()
            invariant
                i <= self.lines@.len(),
                total == spec_estimated_size(self.lines@.take(i as int), longest as nat),
                spec_estimated_size(self.lines@, longest as nat) <= usize::MAX,
            decreases self.lines@.len() - i,
        {
            proof {
                lemma_estimated_size_prefix(self.lines@, longest as nat, i as int + 1);
            }
            let length: usize = match &self.lines[i] {
                PrettyPrintFormat::Divider => longest,
                PrettyPrintFormat::Text(t, _) => t.as_str().unicode_len(),
            };
            assert(self.lines@.take(i + 1).drop_last() =~= self.lines@.take(i as int));
            total = total + length;
            i = i + 1;
        }
        assert(self.lines@.take(i as int) =~= self.lines@);
        total
    }

    /// Appends the row of `line`
    fn push_row(
        &self,
        output: &mut String,
        line: &PrettyPrintFormat,
        formatting: BorderVariants,
        text_length: usize,
        longest: usize,
    )
        requires
            text_length == spec_longest(self.lines@),
            longest == self.spec_inner_width(),
            spec_line_length(*line) <= text_length,
        ensures
            final(output)@ == old(output)@ + self.spec_row(*line, formatting),
    {
        let ghost before = output@;
        match line {
            PrettyPrintFormat::Divider => {
                if self.border {
                    push_char(output, formatting.get_vertical_right());
                }
                push_repeated(output, formatting.get_horizontal(), longest);
                if self.border {
                    push_char(output, formatting.get_vertical_left());
                }
            },
            PrettyPrintFormat::Text(text, alignment) => {
                if self.border {
                    push_char(output, formatting.get_vertical());
                    if self.margin {
                        push_char(output, ' ');
                    }
                }
                let ghost mid = output@;
                push_aligned(output, text.as_str(), *alignment, text_length);
                let ghost aligned = output@;
                if self.border {
                    if self.margin {
                        push_char(output, ' ');
                    }
                    push_char(output, formatting.get_vertical());
                }
                proof {
                    let pad: Seq<char> = if self.margin {
                        seq![' ']
                    } else {
                        Seq::empty()
                    };
                    if self.border {
                        assert(mid =~= before + seq![formatting.spec_vertical()] + pad);
                        assert(output@ =~= aligned + pad + seq![formatting.spec_vertical()]);
                    }
                }
            },
        }
        assert(output@ =~= before + self.spec_row(*line, formatting));
    }

    /// Turn the given lines into text
    pub fn to_text(&self, formatting: BorderVariants) -> (r: String)
        requires
            self.spec_inner_width() <= usize::MAX,
        ensures
            r@ == self.spec_text(formatting),
    {
        let text_length = self.get_longest_line_length();
        let longest = text_length + if self.margin {
            2
        } else {
            0
        };
        let mut output = String::new();
        if self.border {
            push_char(&mut output, formatting.get_top_left());
            push_repeated(&mut output, formatting.get_horizontal(), longest);
            push_char(&mut output, formatting.get_top_right());
        }
        let ghost start = output@;
        proof {
            if self.border {
                assert(start =~= self.spec_top_row(formatting));
            } else {
                assert(start =~= Seq::<char>::empty());
            }
        }
        let mut i: usize = 0;
        while i < self.lines.len()
            invariant
                i <= self.lines@.len(),
                text_length == spec_longest(self.lines@),
                longest == self.spec_inner_width(),
                output@ == start + self.spec_body(formatting, i as nat),
            decreases self.lines@.len() - i,
        {
            let ghost before = output@;
            push_char(&mut output, '\n');
            proof {
                if self.lines@[i as int] is Text {
                    lemma_longest_bounds(self.lines@, i as int);
                }
            }
            self.push_row(&mut output, &self.lines[i], formatting, text_length, longest);
            assert(output@ =~= before + seq!['\n'] + self.spec_row(self.lines@[i as int], formatting));
            i = i + 1;
        }
        if self.border {
            push_char(&mut output, '\n');
            push_char(&mut output, formatting.get_bottom_left());
            push_repeated(&mut output, formatting.get_horizontal(), longest);
            push_char(&mut output, formatting.get_bottom_right());
        }
        assert(output@ =~= self.spec_text(formatting));
        output
    }
}

/// Appends `text` padded to `width` characters according to `alignment`
fn push_aligned(output: &mut String, text: &str, alignment: PrettyPrintAlignment, width: usize)
    requires
        text@.len() <= width,
    ensures
        final(output)@ == old(output)@ + spec_aligned(text@, alignment, width as nat),
{
    let count = text.unicode_len();
    let ghost before = output@;
    match alignment {
        PrettyPrintAlignment::Front => {
            push_str(output, text);
            push_repeated(output, ' ', width - count);
        },
        PrettyPrintAlignment::End => {
            push_repeated(output, ' ', width - count);
            push_str(output, text);
        },
        PrettyPrintAlignment::Middle => {
            let c = width - count;
            let f = c / 2;
            let e = if c % 2 == 0 {
                f
            } else {
                f + 1
            };
            push_repeated(output, ' ', f);
            push_str(output, text);
            push_repeated(output, ' ', e);
        },
    }
    assert(output@ =~= before + spec_aligned(text@, alignment, width as nat));
}

/// `rows` joined with line breaks between them
pub open spec fn spec_join_lines(rows: Seq<Seq<char>>) -> Seq<char>
    decreases rows.len(),
{
    if rows.len() == 0 {
        Seq::empty()
    } else if rows.len() == 1 {
        rows[0]
    } else {
        spec_join_lines(rows.drop_last()) + seq!['\n'] + rows.last()
    }
}

impl PrettyPrintText {
    /// The rows of a bordered text: the top row, the row of each line, the bottom row
    pub open spec fn spec_rows(self, f: BorderVariants) -> Seq<Seq<char>> {
        seq![self.spec_top_row(f)] + Seq::new(
            self.lines@.len(),
            |i: int| self.spec_row(self.lines@[i], f),
        ) + seq![self.spec_bottom_row(f)]
    }

    /// No line of text holds a line break
    pub open spec fn spec_single_line_texts(self) -> bool {
        forall|i: int|
            0 <= i < self.lines@.len() ==> (#[trigger] self.lines@[i] matches PrettyPrintFormat::Text(
                t,
                _,
            ) ==> !t@.contains('\n'))
    }
}

/// A bordered text is a rectangle: it is its rows joined by line breaks, one row
/// for each line and one for each side of the border, and every row holds no
/// line break and exactly two characters more than the inner width.
pub proof fn lemma_bordered_text_is_rectangular(t: PrettyPrintText, f: BorderVariants)
    requires
        t.border,
        t.spec_single_line_texts(),
    ensures
        t.spec_text(f) == spec_join_lines(t.spec_rows(f)),
        t.spec_rows(f).len() == t.lines@.len() + 2,
        forall|i: int|
            0 <= i < t.spec_rows(f).len() ==> (#[trigger] t.spec_rows(f)[i]).len()
                == t.spec_inner_width() + 2 && !t.spec_rows(f)[i].contains('\n'),
{
    let rows = t.spec_rows(f);
    let n = t.lines@.len();
    assert forall|k: nat| k <= n implies spec_join_lines(#[trigger] rows.take(k as int + 1)) == t.spec_top_row(f)
        + t.spec_body(f, k) by {
        lemma_join_prefix(t, f, k);
    }
    assert(rows.take(n as int + 1) == rows.drop_last());
    assert(spec_join_lines(rows.take(n as int + 1)) == t.spec_top_row(f) + t.spec_body(f, n));
    assert(rows.drop_last() =~= rows.take(n as int + 1));
    assert(t.spec_text(f) =~= spec_join_lines(rows));
    assert forall|i: int| 0 <= i < rows.len() implies (#[trigger] rows[i]).len() == t.spec_inner_width()
        + 2 && !rows[i].contains('\n') by {
        lemma_row_shape(t, f, i);
    }
}

proof fn lemma_join_prefix(t: PrettyPrintText, f: BorderVariants, k: nat)
    requires
        k <= t.lines@.len(),
    ensures
        spec_join_lines(t.spec_rows(f).take(k as int + 1)) == t.spec_top_row(f) + t.spec_body(f, k),
    decreases k,
{
    let rows = t.spec_rows(f);
    if k == 0 {
        assert(t.spec_body(f, 0) =~= Seq::<char>::empty());
        assert(t.spec_top_row(f) + t.spec_body(f, 0) =~= t.spec_top_row(f));
    } else {
        lemma_join_prefix(t, f, (k - 1) as nat);
        assert(rows.take(k as int + 1).drop_last() =~= rows.take(k as int));
        assert(rows.take(k as int + 1).last() == t.spec_row(t.lines@[k - 1], f));
        assert(t.spec_top_row(f) + t.spec_body(f, k) =~= t.spec_top_row(f) + t.spec_body(
            f,
            (k - 1) as nat,
        ) + seq!['\n'] + t.spec_row(t.lines@[k - 1], f));
    }
}

proof fn lemma_row_shape(t: PrettyPrintText, f: BorderVariants, i: int)
    requires
        t.border,
        t.spec_single_line_texts(),
        0 <= i < t.lines@.len() + 2,
    ensures
        t.spec_rows(f)[i].len() == t.spec_inner_width() + 2,
        !t.spec_rows(f)[i].contains('\n'),
{
    let rows = t.spec_rows(f);
    let w = t.spec_inner_width();
    let h = spec_repeat(f.spec_horizontal(), w);
    assert(!h.contains('\n'));
    if i == 0 {
        assert(rows[i] == t.spec_top_row(f));
        assert(!rows[i].contains('\n')) by {
            if rows[i].contains('\n') {
                let j = choose|j: int| 0 <= j < rows[i].len() && rows[i][j] == '\n';
                if 1 <= j < w + 1 {
                    assert(h[j - 1] == rows[i][j]);
                }
            }
        }
    } else if i == t.lines@.len() + 1 {
        assert(rows[i] == t.spec_bottom_row(f));
        assert(!rows[i].contains('\n')) by {
            if rows[i].contains('\n') {
                let j = choose|j: int| 0 <= j < rows[i].len() && rows[i][j] == '\n';
                if 1 <= j < w + 1 {
                    assert(h[j - 1] == rows[i][j]);
                }
            }
        }
    } else {
        let line = t.lines@[i - 1];
        assert(rows[i] == t.spec_row(line, f));
        match line {
            PrettyPrintFormat::Divider => {
                assert(!rows[i].contains('\n')) by {
                    if rows[i].contains('\n') {
                        let j = choose|j: int| 0 <= j < rows[i].len() && rows[i][j] == '\n';
                        if 1 <= j < w + 1 {
                            assert(h[j - 1] == rows[i][j]);
                        }
                    }
                }
            },
            PrettyPrintFormat::Text(x, a) => {
                let longest = spec_longest(t.lines@);
                lemma_longest_bounds(t.lines@, i - 1);
                assert(t.lines@[i - 1] matches PrettyPrintFormat::Text(y, _) ==> !y@.contains('\n'));
                lemma_aligned_shape(x@, a, longest);
                let pad: Seq<char> = if t.margin {
                    seq![' ']
                } else {
                    Seq::empty()
                };
                let al = spec_aligned(x@, a, longest);
                let left = seq![f.spec_vertical()] + pad;
                let right = pad + seq![f.spec_vertical()];
                assert(rows[i] == left + al + right);
                assert(!rows[i].contains('\n')) by {
                    if rows[i].contains('\n') {
                        let j = choose|j: int| 0 <= j < rows[i].len() && rows[i][j] == '\n';
                        if left.len() <= j < left.len() + al.len() {
                            assert(al[j - left.len()] == rows[i][j]);
                        } else if j >= left.len() + al.len() {
                            assert(right[j - left.len() - al.len()] == rows[i][j]);
                        } else {
                            assert(left[j] == rows[i][j]);
                        }
                    }
                }
            },
        }
    }
}

proof fn lemma_aligned_shape(text: Seq<char>, a: PrettyPrintAlignment, width: nat)
    requires
        text.len() <= width,
        !text.contains('\n'),
    ensures
        spec_aligned(text, a, width).len() == width,
        !spec_aligned(text, a, width).contains('\n'),
{
    let r = spec_aligned(text, a, width);
    let pad = (width - text.len()) as nat;
    assert(!r.contains('\n')) by {
        if r.contains('\n') {
            let j = choose|j: int| 0 <= j < r.len() && r[j] == '\n';
            match a {
                PrettyPrintAlignment::Front => {
                    if j < text.len() {
                        assert(text[j] == r[j]);
                    }
                },
                PrettyPrintAlignment::End => {
                    if j >= pad {
                        assert(text[j - pad] == r[j]);
                    }
                },
                PrettyPrintAlignment::Middle => {
                    let front = pad / 2;
                    if front <= j < front + text.len() {
                        assert(text[j - front] == r[j]);
                    }
                },
            }
        }
    }
}

/// A prefix never has a greater estimated size than the whole
proof fn lemma_estimated_size_prefix(lines: Seq<PrettyPrintFormat>, longest: nat, k: int)
    requires
        0 <= k <= lines.len(),
    ensures
        spec_estimated_size(lines.take(k), longest) <= spec_estimated_size(lines, longest),
    decreases lines.len(),
{
    if k < lines.len() {
        assert(lines.drop_last().take(k) =~= lines.take(k));
        lemma_estimated_size_prefix(lines.drop_last(), longest, k);
    } else {
        assert(lines.take(k) =~= lines);
    }
}

/// Every line is at most as long as the longest one
proof fn lemma_longest_bounds(lines: Seq<PrettyPrintFormat>, i: int)
    requires
        0 <= i < lines.len(),
    ensures
        spec_line_length(lines[i]) <= spec_longest(lines),
    decreases lines.len(),
{
    if i < lines.len() - 1 {
        lemma_longest_bounds(lines.drop_last(), i);
    }
}

} // verus!
