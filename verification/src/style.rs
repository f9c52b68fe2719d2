//! Styled text, its width and rows, and how entries are laid out on lines.

use vstd::prelude::*;

use crate::order;
use crate::text;

verus! {

// ---------------------------------------------------------------------------
// Styled text
// ---------------------------------------------------------------------------

/// A color of the terminal.
#[derive(Clone, Copy, Debug, PartialEq, Eq, Structural)]
pub enum Color {
    Red,
    Green,
    Yellow,
    Cyan,
    Gray,
    DarkGray,
    Rgb(u8, u8, u8),
}

/// How text looks: its color, where it has one, and whether it is bold.
#[derive(Clone, Copy, Debug, PartialEq, Eq, Structural)]
pub struct Style {
    pub fg: Option<Color>,
    pub bold: bool,
}

/// Text of one style.
#[derive(Debug, PartialEq, Eq)]
pub struct Span {
    pub content: String,
    pub style: Style,
}

/// Text of one style, as mathematics has it.
pub struct SpanView {
    pub content: Seq<char>,
    pub style: Style,
}

impl View for Span {
    type V = SpanView;

    open spec fn view(&self) -> SpanView {
        SpanView { content: self.content@, style: self.style }
    }
}

impl Clone for Span {
    fn clone(&self) -> (copy: Self)
        ensures
            copy@ == self@,
    {
        Span { content: self.content.clone(), style: self.style }
    }
}

/// Text without a color.
pub open spec fn plain(content: Seq<char>) -> SpanView {
    SpanView { content, style: Style { fg: None, bold: false } }
}

/// Text of a color.
pub open spec fn colored(content: Seq<char>, color: Color) -> SpanView {
    SpanView { content, style: Style { fg: Some(color), bold: false } }
}

/// Bold text.
pub open spec fn bold(content: Seq<char>) -> SpanView {
    SpanView { content, style: Style { fg: None, bold: true } }
}

/// Bold text of a color.
pub open spec fn bold_colored(content: Seq<char>, color: Color) -> SpanView {
    SpanView { content, style: Style { fg: Some(color), bold: true } }
}

impl Span {
    /// Text without a color.
    pub fn raw(content: String) -> (span: Span)
        ensures
            span@ == plain(content@),
    {
        Span { content, style: Style { fg: None, bold: false } }
    }

    /// Text of a color.
    pub fn colored(content: String, color: Color) -> (span: Span)
        ensures
            span@ == self::colored(content@, color),
    {
        Span { content, style: Style { fg: Some(color), bold: false } }
    }

    /// Bold text.
    pub fn bold(content: String) -> (span: Span)
        ensures
            span@ == self::bold(content@),
    {
        Span { content, style: Style { fg: None, bold: true } }
    }

    /// Bold text of a color.
    pub fn bold_colored(content: String, color: Color) -> (span: Span)
        ensures
            span@ == self::bold_colored(content@, color),
    {
        Span { content, style: Style { fg: Some(color), bold: true } }
    }
}

/// Spans on one line.
#[derive(Debug, PartialEq, Eq)]
pub struct Line {
    pub spans: Vec<Span>,
}

impl View for Line {
    type V = Seq<SpanView>;

    open spec fn view(&self) -> Seq<SpanView> {
        order::views(self.spans@)
    }
}

// ---------------------------------------------------------------------------
// Width
// ---------------------------------------------------------------------------

/// How many columns of the terminal a text takes.
pub uninterp spec fn display_width(content: Seq<char>) -> nat;

/// Whether a text holds nothing but letters, digits, punctuation and spaces of
/// ASCII.
pub open spec fn is_printable_ascii(content: Seq<char>) -> bool {
    forall|i: int| 0 <= i < content.len() ==> 0x20 <= #[trigger] content[i] as u32 <= 0x7e
}

/// Measures a text with `ratatui::text::Span::width`. The result depends on the
/// text alone; each character of printable ASCII takes one column. How many
/// columns other characters take is left unsaid.
#[verifier::external_body]
pub(crate) fn text_width(content: &str) -> (width: usize)
    ensures
        width == display_width(content@),
        is_printable_ascii(content@) ==> width == content@.len(),
{
    ratatui::text::Span::raw(content).width()
}

/// How many columns a line takes.
pub open spec fn line_width(spans: Seq<SpanView>) -> nat
    decreases spans.len(),
{
    if spans.len() == 0 {
        0
    } else {
        line_width(spans.drop_last()) + display_width(spans.last().content)
    }
}

proof fn lemma_line_width_concat(left: Seq<SpanView>, right: Seq<SpanView>)
    ensures
        line_width(left + right) == line_width(left) + line_width(right),
    decreases right.len(),
{
    if right.len() == 0 {
        assert(left + right =~= left);
    } else {
        assert((left + right).drop_last() =~= left + right.drop_last());
        lemma_line_width_concat(left, right.drop_last());
    }
}

impl Line {
    /// How many columns the line takes.
    pub fn width(&self) -> (width: u128)
        ensures
            width == line_width(self@),
    {
        let ghost all = self@;
        let mut total: u128 = 0;
        let mut index: usize = 0;
        while index < self.spans.len()
            invariant
                index <= self.spans.len(),
                all == self@,
                total == line_width(all.take(index as int)),
                total <= index * 0xffff_ffff_ffff_ffff,
            decreases self.spans@.len() - index,
        {
            let span_width: usize = text_width(self.spans[index].content.as_str());
            assert(all.take(index + 1).drop_last() =~= all.take(index as int));
            total += span_width as u128;
            index += 1;
        }
        assert(all.take(all.len() as int) =~= all);
        total
    }

    /// A line of the given spans.
    pub fn from(spans: Vec<Span>) -> (line: Line)
        ensures
            line@ == order::views(spans@),
    {
        Line { spans }
    }
}

// ---------------------------------------------------------------------------
// Rows
// ---------------------------------------------------------------------------

/// The most columns at which rows are counted. Wrapping adds up columns in
/// sixteen bits, four widths of the pane at most, and no sum overflows up to
/// here.
pub const MAX_WRAP_COLUMNS: u16 = 16_384;

/// How many rows a line of texts takes when it is wrapped by words at a number
/// of columns, with the spaces at its beginning or without them.
pub uninterp spec fn wrapped_rows(contents: Seq<Seq<char>>, trim: bool, columns: nat) -> nat;

/// How many characters texts hold.
pub open spec fn total_len(contents: Seq<Seq<char>>) -> nat
    decreases contents.len(),
{
    if contents.len() == 0 {
        0
    } else {
        total_len(contents.drop_last()) + contents.last().len()
    }
}

/// Whether texts hold nothing but printable ASCII, something that is no space,
/// and no more characters than there are columns.
pub open spec fn fits_one_row(contents: Seq<Seq<char>>, columns: nat) -> bool {
    &&& forall|i: int| 0 <= i < contents.len() ==> is_printable_ascii(#[trigger] contents[i])
    &&& exists|i: int, j: int|
        0 <= i < contents.len() && 0 <= j < contents[i].len() && #[trigger] contents[i][j] != ' '
    &&& total_len(contents) <= columns
}

/// Counts the rows of a line with `ratatui::widgets::Paragraph::line_count`, on
/// a paragraph that wraps. The result depends on the texts of the line, on
/// whether they are trimmed and on the columns alone. There is one row at least,
/// and no more for a line of printable ASCII that fits in the columns, unless it
/// holds nothing but spaces. Where longer lines break, and so how many rows they
/// take, is left unsaid.
#[verifier::external_body]
pub(crate) fn count_rows(contents: &Vec<String>, trim: bool, columns: u16) -> (rows: usize)
    requires
        0 < columns <= MAX_WRAP_COLUMNS,
    ensures
        rows == wrapped_rows(text::texts(contents@), trim, columns as nat),
        rows >= 1,
        !trim && fits_one_row(text::texts(contents@), columns as nat) ==> rows == 1,
{
    let spans: Vec<ratatui::text::Span> = contents
        .iter()
        .map(|content| ratatui::text::Span::raw(content.as_str()))
        .collect();
    ratatui::widgets::Paragraph::new(ratatui::text::Line::from(spans))
        .wrap(ratatui::widgets::Wrap { trim })
        .line_count(columns)
}

/// The texts of a line.
pub open spec fn contents_of(spans: Seq<SpanView>) -> Seq<Seq<char>> {
    spans.map_values(|span: SpanView| span.content)
}

/// How many rows a line takes when it is wrapped by words at a number of
/// columns, with all its spaces.
pub open spec fn line_rows(spans: Seq<SpanView>, columns: nat) -> nat {
    wrapped_rows(contents_of(spans), false, columns)
}

impl Line {
    /// How many rows the line takes when it is wrapped by words at a number of
    /// columns, with all its spaces.
    pub fn rows(&self, columns: u16) -> (rows: usize)
        requires
            0 < columns <= MAX_WRAP_COLUMNS,
        ensures
            rows == line_rows(self@, columns as nat),
            rows >= 1,
            fits_one_row(contents_of(self@), columns as nat) ==> rows == 1,
    {
        let ghost wanted = contents_of(self@);
        let mut contents: Vec<String> = Vec::new();
        let mut index: usize = 0;
        while index < self.spans.len()
            invariant
                index <= self.spans@.len(),
                wanted == contents_of(self@),
                text::texts(contents@) == wanted.take(index as int),
            decreases self.spans@.len() - index,
        {
            let ghost held = contents@;
            let content = self.spans[index].content.clone();
            contents.push(content);
            proof {
                assert(text::texts(contents@) =~= text::texts(held).push(content@));
                assert(wanted[index as int] == self.spans@[index as int].content@);
                assert(wanted.take(index + 1) =~= wanted.take(index as int).push(content@));
            }
            index += 1;
        }
        assert(wanted.take(wanted.len() as int) =~= wanted);
        count_rows(&contents, false, columns)
    }
}

/// How many rows each line takes when it is wrapped by words at a number of
/// columns.
pub open spec fn rows_of(lines: Seq<Seq<SpanView>>, columns: nat) -> Seq<nat> {
    lines.map_values(|line: Seq<SpanView>| line_rows(line, columns))
}

/// How many rows each line takes when it is wrapped by words at a number of
/// columns.
pub fn line_row_counts(lines: &Vec<Line>, columns: u16) -> (rows: Vec<usize>)
    requires
        0 < columns <= MAX_WRAP_COLUMNS,
    ensures
        natural(rows@) == rows_of(order::views(lines@), columns as nat),
{
    let ghost wanted = rows_of(order::views(lines@), columns as nat);
    let mut rows: Vec<usize> = Vec::new();
    let mut index: usize = 0;
    while index < lines.len()
        invariant
            0 < columns <= MAX_WRAP_COLUMNS,
            index <= lines@.len(),
            wanted == rows_of(order::views(lines@), columns as nat),
            natural(rows@) == wanted.take(index as int),
        decreases lines@.len() - index,
    {
        let ghost held = rows@;
        let count: usize = lines[index].rows(columns);
        rows.push(count);
        proof {
            assert(natural(rows@) =~= natural(held).push(count as nat));
            assert(wanted.take(index + 1) =~= wanted.take(index as int).push(count as nat));
        }
        index += 1;
    }
    assert(wanted.take(wanted.len() as int) =~= wanted);
    rows
}

// ---------------------------------------------------------------------------
// Entries on lines
// ---------------------------------------------------------------------------

/// What stands between two entries of a line.
pub open spec fn separator() -> SpanView {
    colored(" │ "@, Color::Rgb(72, 72, 72))
}

/// What stands between two entries of a line.
pub fn separator_span() -> (span: Span)
    ensures
        span@ == separator(),
{
    Span::colored(" │ ".to_owned(), Color::Rgb(72, 72, 72))
}

/// Entries on one line, with separators between them.
pub open spec fn joined_entries(entries: Seq<Seq<SpanView>>) -> Seq<SpanView>
    decreases entries.len(),
{
    if entries.len() == 0 {
        Seq::empty()
    } else if entries.len() == 1 {
        entries[0]
    } else {
        joined_entries(entries.drop_last()) + seq![separator()] + entries.last()
    }
}

/// How many columns things take on one line, with gaps between them.
pub open spec fn joined_width(widths: Seq<nat>, gap: nat) -> nat
    decreases widths.len(),
{
    if widths.len() == 0 {
        0
    } else if widths.len() == 1 {
        widths[0]
    } else {
        joined_width(widths.drop_last(), gap) + gap + widths.last()
    }
}

/// How many things go on a line, given that some number does: as many more as
/// fit in its columns.
pub open spec fn fitting(widths: Seq<nat>, gap: nat, count: nat, columns: nat) -> nat
    decreases widths.len() - count,
{
    if count < widths.len() && joined_width(widths.take(count as int + 1), gap) <= columns {
        fitting(widths, gap, count + 1, columns)
    } else {
        count
    }
}

proof fn lemma_fitting(widths: Seq<nat>, gap: nat, count: nat, columns: nat)
    requires
        count <= widths.len(),
    ensures
        ({
            let last = fitting(widths, gap, count, columns);
            &&& count <= last <= widths.len()
            &&& last == count || joined_width(widths.take(last as int), gap) <= columns
            &&& last < widths.len() ==> joined_width(widths.take(last as int + 1), gap) > columns
        }),
    decreases widths.len() - count,
{
    if count < widths.len() && joined_width(widths.take(count as int + 1), gap) <= columns {
        lemma_fitting(widths, gap, count + 1, columns);
    }
}

/// How many things go on each line: as many as fit, but at least one. The first
/// line may have fewer columns than the others.
pub open spec fn line_counts(widths: Seq<nat>, gap: nat, first: nat, columns: nat) -> Seq<nat>
    decreases widths.len(),
    via line_counts_decreases
{
    if widths.len() == 0 {
        Seq::empty()
    } else {
        let count = fitting(widths, gap, 1, first);
        seq![count] + line_counts(widths.skip(count as int), gap, columns, columns)
    }
}

#[via_fn]
proof fn line_counts_decreases(widths: Seq<nat>, gap: nat, first: nat, columns: nat) {
    if widths.len() > 0 {
        lemma_fitting(widths, gap, 1, first);
    }
}

/// How many things go on each line, where the first line stays empty if it has
/// no room for the first of them.
pub open spec fn head_counts(widths: Seq<nat>, gap: nat, first: nat, columns: nat) -> Seq<nat> {
    if widths.len() > 0 && widths[0] > first {
        seq![0nat] + line_counts(widths, gap, columns, columns)
    } else {
        line_counts(widths, gap, first, columns)
    }
}

/// A number of things in all.
pub open spec fn total(counts: Seq<nat>) -> nat
    decreases counts.len(),
{
    if counts.len() == 0 {
        0
    } else {
        counts[0] + total(counts.drop_first())
    }
}

/// Every thing is on exactly one line.
pub proof fn law_wrapping_keeps_everything(widths: Seq<nat>, gap: nat, first: nat, columns: nat)
    ensures
        total(line_counts(widths, gap, first, columns)) == widths.len(),
        total(head_counts(widths, gap, first, columns)) == widths.len(),
    decreases widths.len(),
{
    let counts = line_counts(widths, gap, first, columns);
    if widths.len() > 0 {
        lemma_fitting(widths, gap, 1, first);
        let rest = widths.skip(fitting(widths, gap, 1, first) as int);
        law_wrapping_keeps_everything(rest, gap, columns, columns);
        assert(counts.drop_first() =~= line_counts(rest, gap, columns, columns));
        if widths[0] > first {
            lemma_total_of_lines(widths, gap, columns);
            let later = line_counts(widths, gap, columns, columns);
            assert((seq![0nat] + later).drop_first() =~= later);
        }
    }
}

proof fn lemma_total_of_lines(widths: Seq<nat>, gap: nat, columns: nat)
    ensures
        total(line_counts(widths, gap, columns, columns)) == widths.len(),
    decreases widths.len(),
{
    let counts = line_counts(widths, gap, columns, columns);
    if widths.len() > 0 {
        lemma_fitting(widths, gap, 1, columns);
        let rest = widths.skip(fitting(widths, gap, 1, columns) as int);
        lemma_total_of_lines(rest, gap, columns);
        assert(counts.drop_first() =~= line_counts(rest, gap, columns, columns));
    }
}

/// A line takes as many things as fit: with more than one thing it fits in its
/// columns, and with one thing more it would not.
pub proof fn law_lines_are_filled_but_not_more(
    widths: Seq<nat>,
    gap: nat,
    first: nat,
    columns: nat,
)
    requires
        widths.len() > 0,
    ensures
        ({
            let count = line_counts(widths, gap, first, columns)[0] as int;
            &&& 1 <= count <= widths.len()
            &&& count > 1 ==> joined_width(widths.take(count), gap) <= first
            &&& count < widths.len() ==> joined_width(widths.take(count + 1), gap) > first
        }),
{
    lemma_fitting(widths, gap, 1, first);
}

/// Lays out things on lines, given how many columns each takes.
pub fn fit_lines(widths: &Vec<u128>, gap: usize, first: usize, columns: usize) -> (counts: Vec<
    usize,
>)
    ensures
        natural(counts@) == line_counts(
            natural_widths(widths@),
            gap as nat,
            first as nat,
            columns as nat,
        ),
{
    let ghost all = natural_widths(widths@);
    let ghost wanted = line_counts(all, gap as nat, first as nat, columns as nat);
    let mut counts: Vec<usize> = Vec::new();
    let mut room: usize = first;
    let mut next: usize = 0;
    proof {
        assert(all.skip(0) =~= all);
        assert(natural(counts@) + line_counts(
            all.skip(0),
            gap as nat,
            room as nat,
            columns as nat,
        ) =~= wanted);
    }
    while next < widths.len()
        invariant
            next <= widths@.len(),
            all == natural_widths(widths@),
            natural(counts@) + line_counts(
                all.skip(next as int),
                gap as nat,
                room as nat,
                columns as nat,
            ) == wanted,
        decreases widths@.len() - next,
    {
        let ghost begin = next as int;
        let ghost rest = all.skip(begin);
        let start: usize = next;
        let mut used: u128 = widths[next];
        next += 1;
        assert(rest.take(1)[0] == rest[0]);
        let mut full = false;
        while next < widths.len() && !full
            invariant
                0 <= begin < next <= widths@.len(),
                all == natural_widths(widths@),
                rest == all.skip(begin),
                used == joined_width(rest.take(next - begin), gap as nat),
                fitting(rest, gap as nat, 1, room as nat) == fitting(
                    rest,
                    gap as nat,
                    (next - begin) as nat,
                    room as nat,
                ),
                full ==> fitting(rest, gap as nat, 1, room as nat) == next - begin,
            decreases
                    widths@.len() - next,
                    (if full {
                        0int
                    } else {
                        1int
                    }),
        {
            let ghost count = next - begin;
            let width: u128 = widths[next];
            proof {
                assert(rest.take(count + 1).drop_last() =~= rest.take(count));
                assert(rest[count] == all[next as int]);
            }
            let limit: u128 = room as u128;
            if used <= limit && gap as u128 <= limit - used && width <= limit - used
                - gap as u128 {
                used = used + gap as u128 + width;
                next += 1;
            } else {
                full = true;
            }
        }
        let ghost held = counts@;
        let count: usize = next - start;
        counts.push(count);
        proof {
            assert(fitting(rest, gap as nat, 1, room as nat) == count);
            assert(rest.skip(count as int) =~= all.skip(next as int));
            assert(natural(counts@) =~= natural(held).push(count as nat));
            let later = line_counts(
                rest.skip(count as int),
                gap as nat,
                columns as nat,
                columns as nat,
            );
            assert(natural(held).push(count as nat) + later =~= natural(held) + (seq![count as nat]
                + later));
        }
        room = columns;
    }
    proof {
        assert(all.skip(next as int).len() == 0);
        assert(natural(counts@) =~= wanted);
    }
    counts
}

/// Lays out things on lines, given how many columns each takes, where the first
/// line stays empty if it has no room for the first of them.
pub fn fit_head_lines(widths: &Vec<u128>, gap: usize, first: usize, columns: usize) -> (counts: Vec<
    usize,
>)
    ensures
        natural(counts@) == head_counts(
            natural_widths(widths@),
            gap as nat,
            first as nat,
            columns as nat,
        ),
{
    if widths.len() > 0 && widths[0] > first as u128 {
        let mut counts: Vec<usize> = vec![0];
        let mut rest = fit_lines(widths, gap, columns, columns);
        let ghost later = rest@;
        counts.append(&mut rest);
        assert(natural(counts@) =~= seq![0nat] + natural(later));
        counts
    } else {
        fit_lines(widths, gap, first, columns)
    }
}

/// Numbers without bounds.
pub open spec fn natural(numbers: Seq<usize>) -> Seq<nat> {
    numbers.map_values(|number: usize| number as nat)
}

/// Widths without bounds.
pub open spec fn natural_widths(widths: Seq<u128>) -> Seq<nat> {
    widths.map_values(|width: u128| width as nat)
}

/// How many columns entries take.
pub open spec fn widths_of(entries: Seq<Seq<SpanView>>) -> Seq<nat> {
    entries.map_values(|entry: Seq<SpanView>| line_width(entry))
}

/// Entries on lines, a given number on each.
pub open spec fn on_lines(entries: Seq<Seq<SpanView>>, counts: Seq<nat>) -> Seq<Seq<SpanView>>
    decreases counts.len(),
{
    if counts.len() == 0 {
        Seq::empty()
    } else {
        seq![joined_entries(entries.take(counts[0] as int))] + on_lines(
            entries.skip(counts[0] as int),
            counts.drop_first(),
        )
    }
}

/// The width of what stands between two entries.
pub open spec fn gap() -> nat {
    display_width(separator().content)
}

/// Entries on lines of a width, as many as fit on each.
pub open spec fn wrapped(entries: Seq<Seq<SpanView>>, columns: nat) -> Seq<Seq<SpanView>> {
    on_lines(entries, line_counts(widths_of(entries), gap(), columns, columns))
}

/// Entries on lines of a width, as many as fit on each. The first line has
/// columns of its own, and stays empty if they leave no room for an entry.
pub open spec fn head_wrapped(entries: Seq<Seq<SpanView>>, first: nat, columns: nat) -> Seq<
    Seq<SpanView>,
> {
    on_lines(entries, head_counts(widths_of(entries), gap(), first, columns))
}

proof fn lemma_joined_width(entries: Seq<Seq<SpanView>>)
    ensures
        line_width(joined_entries(entries)) == joined_width(widths_of(entries), gap()),
    decreases entries.len(),
{
    if entries.len() > 1 {
        let front = entries.drop_last();
        lemma_joined_width(front);
        assert(widths_of(entries).drop_last() =~= widths_of(front));
        lemma_line_width_concat(joined_entries(front) + seq![separator()], entries.last());
        lemma_line_width_concat(joined_entries(front), seq![separator()]);
        assert(seq![separator()].drop_last() =~= Seq::<SpanView>::empty());
        assert(line_width(seq![separator()]) == gap()) by {
            reveal_with_fuel(line_width, 2);
        }
    }
}

/// Where each entry fits in the columns, no line is clipped.
pub proof fn law_wrapped_lines_fit(entries: Seq<Seq<SpanView>>, columns: nat, place: int)
    requires
        0 <= place < wrapped(entries, columns).len(),
        forall|i: int| 0 <= i < entries.len() ==> line_width(#[trigger] entries[i]) <= columns,
    ensures
        line_width(wrapped(entries, columns)[place]) <= columns,
    decreases entries.len(),
{
    let widths = widths_of(entries);
    if entries.len() > 0 {
        lemma_fitting(widths, gap(), 1, columns);
        let count = fitting(widths, gap(), 1, columns) as int;
        let rest = entries.skip(count);
        let counts = line_counts(widths, gap(), columns, columns);
        assert(widths.skip(count) =~= widths_of(rest));
        assert(counts.drop_first() =~= line_counts(widths_of(rest), gap(), columns, columns));
        if place == 0 {
            lemma_joined_width(entries.take(count));
            assert(widths_of(entries.take(count)) =~= widths.take(count));
            if count == 1 {
                assert(entries.take(1)[0] == entries[0]);
            }
        } else {
            assert(wrapped(entries, columns)[place] == wrapped(rest, columns)[place - 1]);
            assert forall|i: int| 0 <= i < rest.len() implies line_width(#[trigger] rest[i])
                <= columns by {
                assert(rest[i] == entries[count + i]);
            }
            law_wrapped_lines_fit(rest, columns, place - 1);
        }
    }
}

fn append_copies(spans: &mut Vec<Span>, more: &Vec<Span>)
    ensures
        order::views(final(spans)@) == order::views(old(spans)@) + order::views(more@),
{
    let ghost before = order::views(spans@);
    let ghost added = order::views(more@);
    let mut index: usize = 0;
    assert(before + added.take(0) =~= before);
    while index < more.len()
        invariant
            index <= more@.len(),
            added == order::views(more@),
            order::views(spans@) == before + added.take(index as int),
        decreases more@.len() - index,
    {
        let ghost held = spans@;
        let copy = more[index].clone();
        spans.push(copy);
        proof {
            assert(order::views(spans@) =~= order::views(held).push(copy@));
            assert(before + added.take(index + 1) =~= (before + added.take(index as int)).push(
                copy@,
            ));
        }
        index += 1;
    }
    assert(added.take(added.len() as int) =~= added);
}

fn joined_line(entries: &Vec<Line>, from: usize, to: usize) -> (line: Line)
    requires
        from <= to <= entries@.len(),
    ensures
        line@ == joined_entries(order::views(entries@).subrange(from as int, to as int)),
{
    let ghost all = order::views(entries@);
    let mut spans: Vec<Span> = Vec::new();
    let mut next: usize = from;
    assert(order::views(spans@) =~= joined_entries(all.subrange(from as int, from as int)));
    while next < to
        invariant
            from <= next <= to <= entries@.len(),
            all == order::views(entries@),
            order::views(spans@) == joined_entries(all.subrange(from as int, next as int)),
        decreases to - next,
    {
        let ghost part = all.subrange(from as int, next + 1);
        assert(part.drop_last() =~= all.subrange(from as int, next as int));
        if next > from {
            let ghost held = spans@;
            spans.push(separator_span());
            assert(order::views(spans@) =~= order::views(held) + seq![separator()]);
        }
        let ghost before = order::views(spans@);
        append_copies(&mut spans, &entries[next].spans);
        proof {
            assert(part.last() == entries@[next as int]@);
            if next == from {
                assert(before + entries@[next as int]@ =~= part[0]);
            }
        }
        next += 1;
    }
    Line::from(spans)
}

/// Puts entries on lines, a given number on each.
pub fn lay_out(entries: &Vec<Line>, counts: &Vec<usize>) -> (lines: Vec<Line>)
    requires
        total(natural(counts@)) <= entries@.len(),
    ensures
        order::views(lines@) == on_lines(order::views(entries@), natural(counts@)),
{
    let ghost all = order::views(entries@);
    let ghost numbers = natural(counts@);
    let ghost wanted = on_lines(all, numbers);
    let mut lines: Vec<Line> = Vec::new();
    let mut next: usize = 0;
    let mut index: usize = 0;
    proof {
        assert(all.skip(0) =~= all);
        assert(numbers.skip(0) =~= numbers);
        assert(order::views(lines@) + on_lines(all.skip(0), numbers.skip(0)) =~= wanted);
    }
    while index < counts.len()
        invariant
            index <= counts@.len(),
            next <= entries@.len(),
            all == order::views(entries@),
            numbers == natural(counts@),
            total(numbers.skip(index as int)) <= entries@.len() - next,
            order::views(lines@) + on_lines(all.skip(next as int), numbers.skip(index as int))
                == wanted,
        decreases counts@.len() - index,
    {
        let count: usize = counts[index];
        let ghost rest = all.skip(next as int);
        proof {
            assert(numbers.skip(index as int)[0] == count);
            assert(numbers.skip(index as int).drop_first() =~= numbers.skip(index + 1));
            assert(rest.take(count as int) =~= all.subrange(next as int, next + count));
            assert(rest.skip(count as int) =~= all.skip(next + count));
            assert(next + count <= entries.len());
        }
        let line = joined_line(entries, next, next + count);
        let ghost held = order::views(lines@);
        lines.push(line);
        proof {
            assert(order::views(lines@) =~= held.push(line@));
            let later = on_lines(all.skip(next + count), numbers.skip(index + 1));
            assert(held.push(line@) + later =~= held + (seq![line@] + later));
        }
        next += count;
        index += 1;
    }
    assert(numbers.skip(index as int).len() == 0);
    assert(order::views(lines@) =~= wanted);
    lines
}

/// How many columns entries take.
pub fn entry_widths(entries: &Vec<Line>) -> (widths: Vec<u128>)
    ensures
        natural_widths(widths@) == widths_of(order::views(entries@)),
{
    let ghost wanted = widths_of(order::views(entries@));
    let mut widths: Vec<u128> = Vec::new();
    let mut index: usize = 0;
    while index < entries.len()
        invariant
            index <= entries@.len(),
            wanted == widths_of(order::views(entries@)),
            natural_widths(widths@) == wanted.take(index as int),
        decreases entries@.len() - index,
    {
        let ghost held = widths@;
        let width: u128 = entries[index].width();
        widths.push(width);
        proof {
            assert(natural_widths(widths@) =~= natural_widths(held).push(width as nat));
            assert(wanted.take(index + 1) =~= wanted.take(index as int).push(width as nat));
        }
        index += 1;
    }
    assert(wanted.take(wanted.len() as int) =~= wanted);
    widths
}

/// Puts entries on lines of a width, as many as fit on each.
pub fn wrap_entries(entries: &Vec<Line>, columns: usize) -> (lines: Vec<Line>)
    ensures
        order::views(lines@) == wrapped(order::views(entries@), columns as nat),
{
    let widths = entry_widths(entries);
    let between: usize = text_width(separator_span().content.as_str());
    let counts = fit_lines(&widths, between, columns, columns);
    proof {
        law_wrapping_keeps_everything(
            widths_of(order::views(entries@)),
            gap(),
            columns as nat,
            columns as nat,
        );
    }
    lay_out(entries, &counts)
}

/// Puts entries on lines of a width, as many as fit on each. The first line has
/// columns of its own, and stays empty if they leave no room for an entry.
pub fn wrap_head_entries(entries: &Vec<Line>, first: usize, columns: usize) -> (lines: Vec<Line>)
    ensures
        order::views(lines@) == head_wrapped(order::views(entries@), first as nat, columns as nat),
{
    let widths = entry_widths(entries);
    let between: usize = text_width(separator_span().content.as_str());
    let counts = fit_head_lines(&widths, between, first, columns);
    proof {
        law_wrapping_keeps_everything(
            widths_of(order::views(entries@)),
            gap(),
            first as nat,
            columns as nat,
        );
    }
    lay_out(entries, &counts)
}

// ---------------------------------------------------------------------------
// Laws
// ---------------------------------------------------------------------------

/// Text keeps its content whatever it looks like, and looks as it is told to.
pub proof fn law_texts_look_as_they_are_told(content: Seq<char>, color: Color)
    ensures
        plain(content).content == content && plain(content).style == (Style {
            fg: None,
            bold: false,
        }),
        colored(content, color).content == content && colored(content, color).style == (Style {
            fg: Some(color),
            bold: false,
        }),
        bold(content).content == content && bold(content).style == (Style {
            fg: None,
            bold: true,
        }),
        bold_colored(content, color).content == content && bold_colored(content, color).style
            == (Style { fg: Some(color), bold: true }),
        separator() == colored(" │ "@, Color::Rgb(72, 72, 72)),
{
}

/// Entries stand on a line in their order, with a separator between each two,
/// and their widths add up with those of the separators.
pub proof fn law_entries_are_joined_by_separators(
    entries: Seq<Seq<SpanView>>,
    entry: Seq<SpanView>,
)
    ensures
        joined_entries(Seq::empty()).len() == 0,
        joined_entries(seq![entry]) == entry,
        entries.len() > 0 ==> joined_entries(entries.push(entry)) == joined_entries(entries)
            + seq![colored(" │ "@, Color::Rgb(72, 72, 72))] + entry,
        line_width(joined_entries(entries)) == joined_width(widths_of(entries), gap()),
{
    assert(entries.push(entry).drop_last() =~= entries);
    lemma_joined_width(entries);
}

/// Entries are put on lines from the first on, as many on each as they are
/// counted, and all of them in their order.
pub proof fn law_lines_take_entries_in_order(
    entries: Seq<Seq<SpanView>>,
    count: nat,
    counts: Seq<nat>,
)
    requires
        count <= entries.len(),
    ensures
        on_lines(entries, Seq::empty()).len() == 0,
        on_lines(entries, seq![count] + counts) == seq![
            joined_entries(entries.take(count as int)),
        ] + on_lines(entries.skip(count as int), counts),
{
    assert((seq![count] + counts).drop_first() =~= counts);
}

/// The first line may have columns of its own. Where the first entry does not
/// fit in them, that line stays empty and the entries begin on the next.
pub proof fn law_a_narrow_first_line_stays_empty(
    widths: Seq<nat>,
    gap: nat,
    first: nat,
    columns: nat,
)
    requires
        widths.len() > 0,
    ensures
        widths[0] > first ==> head_counts(widths, gap, first, columns) == seq![0nat] + line_counts(
            widths,
            gap,
            columns,
            columns,
        ),
        widths[0] <= first ==> head_counts(widths, gap, first, columns) == line_counts(
            widths,
            gap,
            first,
            columns,
        ),
        widths[0] <= first ==> head_counts(widths, gap, first, columns)[0] >= 1,
{
    lemma_fitting(widths, gap, 1, first);
}

} // verus!
