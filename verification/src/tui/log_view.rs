//! The logs of a service, as they are shown.

use vstd::prelude::*;

use crate::json;
use crate::json::JsonKind;
use crate::logs;
use crate::logs::{
    LogBuffer, LogBufferView, LogNavigation, LogSource, StreamEvent, TiltLogStream,
};
use crate::order;
use crate::style;
use crate::style::{line_row_counts, separator_span, Color, Line, Span};
use crate::text;
use crate::tui::view;

verus! {

// ---------------------------------------------------------------------------
// Records
// ---------------------------------------------------------------------------

/// The color of a record, by the gravest word in it.
pub open spec fn record_color(line: Seq<char>) -> Color {
    let lower = text::lower(line);
    if text::occurs(lower, "fatal"@) || text::occurs(lower, "panic"@) || text::occurs(
        lower,
        "error"@,
    ) || text::occurs(lower, "failed"@) {
        Color::Red
    } else if text::occurs(lower, "warn"@) {
        Color::Yellow
    } else if text::occurs(lower, "debug"@) || text::occurs(lower, "trace"@) {
        Color::DarkGray
    } else {
        Color::Gray
    }
}

fn color_of(line: &str) -> (color: Color)
    ensures
        color == record_color(line@),
{
    let lower = text::to_lower(line);
    let lower = lower.as_str();
    if text::contains(lower, "fatal") || text::contains(lower, "panic") || text::contains(
        lower,
        "error",
    ) || text::contains(lower, "failed") {
        Color::Red
    } else if text::contains(lower, "warn") {
        Color::Yellow
    } else if text::contains(lower, "debug") || text::contains(lower, "trace") {
        Color::DarkGray
    } else {
        Color::Gray
    }
}

/// What stands before the bar of a record, if it has one.
pub open spec fn record_prefix(line: Seq<char>) -> Option<Seq<char>> {
    match text::split_first(line, " │ "@) {
        Some((prefix, _)) => Some(prefix),
        None => None,
    }
}

/// What stands behind the bar of a record, or all of it.
pub open spec fn record_message(line: Seq<char>) -> Seq<char> {
    match text::split_first(line, " │ "@) {
        Some((_, message)) => message,
        None => line,
    }
}

/// The prefix of a record and the bar, as they are shown.
pub open spec fn prefix_spans(prefix: Seq<char>) -> Seq<style::SpanView> {
    seq![style::colored(prefix, Color::DarkGray), style::separator()]
}

/// A line of a record that is spread over several: the first behind the prefix,
/// the others indented under it.
pub open spec fn spread_line(
    prefix: Option<Seq<char>>,
    place: int,
    line: Seq<char>,
    color: Color,
) -> Seq<style::SpanView> {
    match prefix {
        Some(content) => if place == 0 {
            prefix_spans(content).push(style::colored(line, color))
        } else {
            seq![style::plain("  "@), style::colored(line, color)]
        },
        None => seq![style::colored(line, color)],
    }
}

/// Whether a document is spread over several lines.
pub open spec fn is_spread(document: Option<(JsonKind, Seq<char>)>) -> bool {
    document matches Some((kind, _)) && (kind == JsonKind::Object || kind == JsonKind::Array)
}

/// The lines of a record, given the JSON document that it holds, if it holds
/// one.
pub open spec fn record_lines(line: Seq<char>, document: Option<(JsonKind, Seq<char>)>) -> Seq<
    Seq<style::SpanView>,
> {
    let color = record_color(line);
    let prefix = record_prefix(line);
    if is_spread(document) {
        text::lines_of((document->0).1).map(
            |place: int, part: Seq<char>| spread_line(prefix, place, part, color),
        )
    } else {
        seq![spread_line(prefix, 0, record_message(line), color)]
    }
}

/// The text of a record that may be a JSON document.
pub open spec fn record_source(line: Seq<char>) -> Seq<char> {
    text::trimmed(record_message(line))
}

/// The lines of a record.
pub open spec fn styled_lines(line: Seq<char>) -> Seq<Seq<style::SpanView>> {
    record_lines(line, json::json_document(record_source(line)))
}

fn spread_spans(prefix: &Option<String>, first: bool, line: &str, color: Color) -> (spans: Line)
    ensures
        forall|place: int|
            (place == 0) == first ==> spans@ == #[trigger] spread_line(
                crate::tilt::model::optional_text(*prefix),
                place,
                line@,
                color,
            ),
{
    let mut spans: Vec<Span> = Vec::new();
    if let Some(content) = prefix {
        if first {
            spans.push(Span::colored(content.clone(), Color::DarkGray));
            spans.push(separator_span());
        } else {
            spans.push(Span::raw("  ".to_owned()));
        }
    }
    spans.push(Span::colored(line.to_owned(), color));
    let spans = Line::from(spans);
    proof {
        match prefix {
            Some(content) => {
                if first {
                    assert(spans@ =~= prefix_spans(content@).push(style::colored(line@, color)));
                } else {
                    assert(spans@ =~= seq![style::plain("  "@), style::colored(line@, color)]);
                }
            },
            None => {
                assert(spans@ =~= seq![style::colored(line@, color)]);
            },
        }
    }
    spans
}

/// The document of a record, as a value without bounds.
pub open spec fn document_view(document: Option<(JsonKind, String)>) -> Option<
    (JsonKind, Seq<char>),
> {
    match document {
        Some((kind, indented)) => Some((kind, indented@)),
        None => None,
    }
}

/// The lines of a record, given the JSON document that it holds, if it holds
/// one.
pub fn lines_of_record(line: &str, document: Option<(JsonKind, String)>) -> (lines: Vec<Line>)
    ensures
        order::views(lines@) == record_lines(line@, document_view(document)),
{
    let color = color_of(line);
    let (prefix, message) = match text::split_once(line, " │ ") {
        Some((prefix, message)) => (Some(prefix), message),
        None => (None, line.to_owned()),
    };
    let mut lines: Vec<Line> = Vec::new();
    if let Some((kind, indented)) = document {
        if kind == JsonKind::Object || kind == JsonKind::Array {
            let parts = text::lines(indented.as_str());
            let ghost all = text::lines_of(indented@);
            let ghost wanted = record_lines(line@, document_view(document));
            let ghost before_bar = record_prefix(line@);
            let mut index: usize = 0;
            while index < parts.len()
                invariant
                    index <= parts@.len(),
                    all == text::texts(parts@),
                    before_bar == crate::tilt::model::optional_text(prefix),
                    wanted == all.map(
                        |place: int, part: Seq<char>| spread_line(before_bar, place, part, color),
                    ),
                    order::views(lines@) == wanted.take(index as int),
                decreases parts@.len() - index,
            {
                let ghost before = order::views(lines@);
                let shown = spread_spans(&prefix, index == 0, parts[index].as_str(), color);
                proof {
                    assert(all[index as int] == parts@[index as int]@);
                    assert(wanted[index as int] == spread_line(
                        before_bar,
                        index as int,
                        all[index as int],
                        color,
                    ));
                }
                lines.push(shown);
                proof {
                    assert(order::views(lines@) =~= before.push(shown@));
                    assert(wanted.take(index + 1) =~= wanted.take(index as int).push(shown@));
                }
                index += 1;
            }
            assert(wanted.take(wanted.len() as int) =~= wanted);
            return lines;
        }
    }
    let shown = spread_spans(&prefix, true, message.as_str(), color);
    lines.push(shown);
    proof {
        assert(shown@ == spread_line(record_prefix(line@), 0, record_message(line@), color));
        assert(order::views(lines@) =~= seq![shown@]);
    }
    lines
}

/// The lines of a record.
pub fn styled_log_lines(line: &str) -> (lines: Vec<Line>)
    ensures
        order::views(lines@) == styled_lines(line@),
        forall|i: int|
            0 <= i < lines@.len() ==> (#[trigger] lines@[i])@.len() > 0 && lines@[i]@.last().style
                == (style::Style { fg: Some(record_color(line@)), bold: false }),
{
    let message = match text::split_once(line, " │ ") {
        Some((_, message)) => message,
        None => line.to_owned(),
    };
    let source = text::trim(message.as_str());
    let lines = lines_of_record(line, json::indented_json(source.as_str()));
    proof {
        let document = json::json_document(record_source(line@));
        assert forall|i: int| 0 <= i < lines@.len() implies (#[trigger] lines@[i])@.len() > 0
            && lines@[i]@.last().style == (style::Style {
            fg: Some(record_color(line@)),
            bold: false,
        }) by {
            assert(order::views(lines@)[i] == lines@[i]@);
            law_messages_have_the_color_of_the_record(line@, document, i);
        }
    }
    lines
}

/// The lines of records.
pub open spec fn all_styled_lines(records: Seq<Seq<char>>) -> Seq<Seq<style::SpanView>>
    decreases records.len(),
{
    if records.len() == 0 {
        Seq::empty()
    } else {
        all_styled_lines(records.drop_last()) + styled_lines(records.last())
    }
}

fn all_log_lines(records: &Vec<&str>) -> (lines: Vec<Line>)
    ensures
        order::views(lines@) == all_styled_lines(text::borrowed_texts(records@)),
{
    let ghost all = text::borrowed_texts(records@);
    let mut lines: Vec<Line> = Vec::new();
    let mut index: usize = 0;
    assert(order::views(lines@) =~= all_styled_lines(all.take(0)));
    while index < records.len()
        invariant
            index <= records@.len(),
            all == text::borrowed_texts(records@),
            order::views(lines@) == all_styled_lines(all.take(index as int)),
        decreases records@.len() - index,
    {
        let ghost before = lines@;
        assert(all.take(index + 1).drop_last() =~= all.take(index as int));
        let mut more = styled_log_lines(records[index]);
        let ghost added = more@;
        lines.append(&mut more);
        assert(order::views(lines@) =~= order::views(before) + order::views(added));
        index += 1;
    }
    assert(all.take(all.len() as int) =~= all);
    lines
}

// ---------------------------------------------------------------------------
// The body
// ---------------------------------------------------------------------------

/// What the body of the log view shows.
#[derive(Debug)]
pub enum LogBody {
    /// There are no records.
    Message(String),
    /// Records, and how far down and sideways they are scrolled.
    Records { lines: Vec<Line>, wrap: bool, down: u16, sideways: u16 },
}

/// What the body of the log view shows, as mathematics has it.
pub enum BodyView {
    Message(Seq<char>),
    Records { lines: Seq<Seq<style::SpanView>>, wrap: bool, down: nat, sideways: nat },
}

impl View for LogBody {
    type V = BodyView;

    open spec fn view(&self) -> BodyView {
        match self {
            LogBody::Message(message) => BodyView::Message(message@),
            LogBody::Records { lines, wrap, down, sideways } => BodyView::Records {
                lines: order::views(lines@),
                wrap: *wrap,
                down: *down as nat,
                sideways: *sideways as nat,
            },
        }
    }
}

/// How many rows lines take together, given the rows of each.
pub open spec fn total_rows(rows: Seq<nat>) -> nat
    decreases rows.len(),
{
    if rows.len() == 0 {
        0
    } else {
        total_rows(rows.drop_last()) + rows.last()
    }
}

/// The last of some lines, as many as there are rows.
pub open spec fn newest(lines: Seq<Seq<style::SpanView>>, height: nat) -> Seq<
    Seq<style::SpanView>,
> {
    if lines.len() <= height {
        lines
    } else {
        lines.skip(lines.len() - height)
    }
}

/// The columns at which the lines of a pane wrap: one at least, and no more
/// than rows are counted for.
pub open spec fn columns_of(width: u16) -> nat {
    if width == 0 {
        1
    } else {
        logs::least(width as nat, style::MAX_WRAP_COLUMNS as nat)
    }
}

/// How far down wrapped lines are scrolled so that the last row shows, given
/// the rows of each.
pub open spec fn scroll_to_end(rows: Seq<nat>, height: u16) -> nat {
    logs::least(view::less(total_rows(rows), height as nat), u16::MAX as nat)
}

/// The lines of a scrollback that are in view.
pub open spec fn lines_in_view(buffer: LogBufferView, height: u16) -> Seq<Seq<style::SpanView>> {
    let lines = all_styled_lines(buffer.visible(height as nat));
    if buffer.following {
        newest(lines, height as nat)
    } else {
        lines
    }
}

/// What is said where there are no records.
pub open spec fn no_records(running: bool, last_error: Option<Seq<char>>) -> Seq<char> {
    if running {
        "Waiting for logs…"@
    } else {
        match last_error {
            Some(error) => error,
            None => "Log stream ended"@,
        }
    }
}

/// What the body of the log view shows in a pane.
pub open spec fn body_of(
    buffer: LogBufferView,
    running: bool,
    last_error: Option<Seq<char>>,
    height: u16,
    width: u16,
) -> BodyView {
    if buffer.visible(height as nat).len() == 0 {
        BodyView::Message(no_records(running, last_error))
    } else {
        let lines = lines_in_view(buffer, height);
        BodyView::Records {
            lines,
            wrap: buffer.wrapping,
            down: if buffer.wrapping && buffer.following {
                scroll_to_end(style::rows_of(lines, columns_of(width)), height)
            } else {
                0
            },
            sideways: if buffer.wrapping {
                0
            } else {
                buffer.horizontal_offset
            },
        }
    }
}

/// While it follows, the view ends with the newest line. Where it wraps lines
/// by words as well, it is scrolled down just so far that the last row of that
/// line is the last row in the pane, or that all rows show, as far as the
/// terminal can scroll.
pub proof fn law_following_stays_at_the_newest_line(
    buffer: LogBufferView,
    running: bool,
    last_error: Option<Seq<char>>,
    height: u16,
    width: u16,
)
    requires
        buffer.following,
        height > 0,
        all_styled_lines(buffer.visible(height as nat)).len() > 0,
    ensures
        ({
            let body = body_of(buffer, running, last_error, height, width);
            &&& body is Records
            &&& body->lines.len() > 0
            &&& body->lines.last() == all_styled_lines(buffer.visible(height as nat)).last()
            &&& buffer.wrapping ==> {
                let rows = total_rows(style::rows_of(body->lines, columns_of(width)));
                rows <= u16::MAX + height ==> rows - body->down == logs::least(
                    rows,
                    height as nat,
                )
            }
        }),
{
}

/// How far down wrapped lines are scrolled so that the last row shows, given
/// the rows of each.
pub fn end_of_lines(rows: &Vec<usize>, height: u16) -> (down: u16)
    ensures
        down == scroll_to_end(style::natural(rows@), height),
{
    let ghost all = style::natural(rows@);
    let limit: u128 = 0xffff_ffff;
    let mut total: u128 = 0;
    let mut index: usize = 0;
    while index < rows.len()
        invariant
            limit == 0xffff_ffff,
            index <= rows@.len(),
            all == style::natural(rows@),
            total == logs::least(total_rows(all.take(index as int)), limit as nat),
        decreases rows@.len() - index,
    {
        assert(all.take(index + 1).drop_last() =~= all.take(index as int));
        let more: u128 = rows[index] as u128;
        if more >= limit - total {
            total = limit;
        } else {
            total = total + more;
        }
        index += 1;
    }
    assert(all.take(all.len() as int) =~= all);
    if total <= height as u128 {
        0
    } else if total - height as u128 >= u16::MAX as u128 {
        u16::MAX
    } else {
        (total - height as u128) as u16
    }
}

fn keep_newest(lines: Vec<Line>, height: usize) -> (kept: Vec<Line>)
    ensures
        order::views(kept@) == newest(order::views(lines@), height as nat),
{
    let ghost all = order::views(lines@);
    let mut kept = lines;
    if kept.len() > height {
        let excess: usize = kept.len() - height;
        let tail = kept.split_off(excess);
        assert(order::views(tail@) =~= all.skip(excess as int));
        tail
    } else {
        kept
    }
}

/// What the body of the log view shows in a pane.
pub fn log_body(
    buffer: &LogBuffer,
    running: bool,
    last_error: Option<&str>,
    height: u16,
    width: u16,
) -> (body: LogBody)
    requires
        buffer@.well_formed(),
    ensures
        body@ == body_of(
            buffer@,
            running,
            match last_error {
                Some(error) => Some(error@),
                None => None,
            },
            height,
            width,
        ),
{
    let visible = buffer.visible_lines(height as usize);
    assert(text::borrowed_texts(visible@).len() == visible@.len());
    if visible.len() == 0 {
        let message = if running {
            "Waiting for logs…"
        } else {
            match last_error {
                Some(error) => error,
                None => "Log stream ended",
            }
        };
        return LogBody::Message(message.to_owned());
    }
    let mut lines = all_log_lines(&visible);
    if buffer.is_following() {
        lines = keep_newest(lines, height as usize);
    }
    let columns: u16 = if width == 0 {
        1
    } else if width <= style::MAX_WRAP_COLUMNS {
        width
    } else {
        style::MAX_WRAP_COLUMNS
    };
    let wrap = buffer.is_wrapping();
    let down: u16 = if wrap && buffer.is_following() {
        end_of_lines(&line_row_counts(&lines, columns), height)
    } else {
        0
    };
    let sideways: u16 = if wrap {
        0
    } else {
        buffer.horizontal_offset()
    };
    LogBody::Records { lines, wrap, down, sideways }
}

// ---------------------------------------------------------------------------
// The log view
// ---------------------------------------------------------------------------

/// The logs of a service: what Tilt writes when it builds the service, and what
/// the service itself writes.
#[derive(Debug)]
pub struct LogView {
    pub service_name: String,
    pub buffer: LogBuffer,
    pub build: TiltLogStream,
    pub runtime: TiltLogStream,
    pub running: bool,
}

/// The logs of a service, as mathematics has it.
pub struct LogViewView {
    pub service_name: Seq<char>,
    pub buffer: LogBufferView,
    pub build: logs::LogStreamView,
    pub runtime: logs::LogStreamView,
    pub running: bool,
}

impl View for LogView {
    type V = LogViewView;

    open spec fn view(&self) -> LogViewView {
        LogViewView {
            service_name: self.service_name@,
            buffer: self.buffer@,
            build: self.build@,
            runtime: self.runtime@,
            running: self.running,
        }
    }
}

/// A stream that has just been opened.
pub open spec fn opened_stream(source: LogSource) -> logs::LogStreamView {
    logs::LogStreamView { source: Some(source), open_readers: 2, last_error: None }
}

/// The logs of a service, before anything was read.
pub open spec fn opened_logs(service_name: Seq<char>) -> LogViewView {
    LogViewView {
        service_name,
        buffer: logs::empty_scrollback(
            logs::DEFAULT_MAX_LOG_LINES as nat,
            logs::DEFAULT_MAX_LOG_LINE_BYTES as nat,
        ),
        build: opened_stream(LogSource::Build),
        runtime: opened_stream(LogSource::Runtime),
        running: true,
    }
}

/// The first events of a stream, as many as one look takes.
pub open spec fn first_events(events: Seq<StreamEvent>) -> Seq<logs::StreamEventView> {
    order::views(events).take(
        logs::least(events.len(), logs::LOG_POLL_BATCH_SIZE as nat) as int,
    )
}

impl LogViewView {
    /// The logs after a look at both streams. They run as long as either does.
    pub open spec fn after_events(
        self,
        build_events: Seq<StreamEvent>,
        runtime_events: Seq<StreamEvent>,
        build_exited: bool,
        runtime_exited: bool,
    ) -> LogViewView {
        let first = logs::polled(self.build, self.buffer, first_events(build_events));
        let second = logs::polled(self.runtime, first.logs, first_events(runtime_events));
        LogViewView {
            buffer: second.logs,
            build: first.stream,
            runtime: second.stream,
            running: (first.stream.open_readers > 0 && !build_exited) || (
            second.stream.open_readers > 0 && !runtime_exited),
            ..self
        }
    }

    /// The last thing that went wrong in the streams.
    pub open spec fn last_error(self) -> Option<Seq<char>> {
        match self.runtime.last_error {
            Some(error) => Some(error),
            None => self.build.last_error,
        }
    }
}

impl LogView {
    /// The logs of a service, before anything was read.
    pub fn open(service_name: String) -> (view: LogView)
        ensures
            view@ == opened_logs(service_name@),
            view@.buffer.well_formed(),
    {
        LogView {
            service_name,
            buffer: LogBuffer::default(),
            build: TiltLogStream::new(Some(LogSource::Build)),
            runtime: TiltLogStream::new(Some(LogSource::Runtime)),
            running: true,
        }
    }

    /// Takes account of what came through both streams.
    pub fn poll(
        &mut self,
        build_events: &Vec<StreamEvent>,
        runtime_events: &Vec<StreamEvent>,
        build_exited: bool,
        runtime_exited: bool,
    )
        requires
            old(self)@.buffer.well_formed(),
        ensures
            final(self)@ == old(self)@.after_events(
                build_events@,
                runtime_events@,
                build_exited,
                runtime_exited,
            ),
            final(self)@.buffer.well_formed(),
    {
        let limit: usize = logs::LOG_POLL_BATCH_SIZE;
        let _ = self.build.poll_into(&mut self.buffer, build_events, limit);
        let _ = self.runtime.poll_into(&mut self.buffer, runtime_events, limit);
        let build_running = self.build.is_running(build_exited);
        let runtime_running = self.runtime.is_running(runtime_exited);
        self.running = build_running || runtime_running;
    }

    /// The last thing that went wrong in the streams.
    pub fn last_error(&self) -> (error: Option<&str>)
        ensures
            match error {
                Some(found) => self@.last_error() == Some(found@),
                None => self@.last_error() is None,
            },
    {
        match self.runtime.last_error() {
            Some(error) => Some(error),
            None => self.build.last_error(),
        }
    }

    /// What the body shows in a pane.
    pub fn body(&self, height: u16, width: u16) -> (body: LogBody)
        requires
            self@.buffer.well_formed(),
        ensures
            body@ == body_of(self@.buffer, self@.running, self@.last_error(), height, width),
    {
        log_body(&self.buffer, self.running, self.last_error(), height, width)
    }
}

/// What stands around the body of the log view.
#[derive(Debug)]
pub struct LogFrame {
    pub title: Line,
    pub status: Line,
    pub footer: Vec<Line>,
}

/// The title of the log view.
pub open spec fn log_title(service_name: Seq<char>) -> Seq<style::SpanView> {
    seq![
        style::colored("● "@, Color::Cyan),
        style::bold_colored(service_name, Color::Cyan),
        style::colored(" logs"@, Color::DarkGray),
    ]
}

/// How the log view is doing: whether the streams run, whether it follows them,
/// whether it wraps lines, and how many records there are.
pub open spec fn log_status(buffer: LogBufferView, running: bool) -> Seq<style::SpanView> {
    seq![
        if running {
            style::colored("live"@, Color::Green)
        } else {
            style::colored("ended"@, Color::Red)
        },
        style::separator(),
        style::colored(
            if buffer.following {
                "follow"@
            } else {
                "paused"@
            },
            Color::Gray,
        ),
        style::separator(),
        style::colored(
            if buffer.wrapping {
                "wrap"@
            } else {
                "nowrap"@
            },
            Color::Gray,
        ),
        style::separator(),
        style::colored(text::decimal(buffer.lines.len()) + " lines"@, Color::DarkGray),
    ]
}

/// What stands around the body of the log view, in a pane of a width.
pub fn log_frame(view: &LogView, width: u16) -> (frame: LogFrame)
    ensures
        frame.title@ == log_title(view@.service_name),
        frame.status@ == log_status(view@.buffer, view@.running),
        order::views(frame.footer@) == view::shortcut_lines(
            view::log_shortcuts(view@.buffer.wrapping),
            width,
        ),
{
    let title = Line::from(
        vec![
            Span::colored("● ".to_owned(), Color::Cyan),
            Span::bold_colored(view.service_name.clone(), Color::Cyan),
            Span::colored(" logs".to_owned(), Color::DarkGray),
        ],
    );
    assert(title@ =~= log_title(view@.service_name));
    let stream = if view.running {
        Span::colored("live".to_owned(), Color::Green)
    } else {
        Span::colored("ended".to_owned(), Color::Red)
    };
    let follow = if view.buffer.is_following() {
        "follow"
    } else {
        "paused"
    };
    let wrap = if view.buffer.is_wrapping() {
        "wrap"
    } else {
        "nowrap"
    };
    let mut count = text::decimal_text(view.buffer.len() as u64);
    count.append(" lines");
    let status = Line::from(
        vec![
            stream,
            separator_span(),
            Span::colored(follow.to_owned(), Color::Gray),
            separator_span(),
            Span::colored(wrap.to_owned(), Color::Gray),
            separator_span(),
            Span::colored(count, Color::DarkGray),
        ],
    );
    assert(status@ =~= log_status(view@.buffer, view@.running));
    let footer = view::log_shortcut_legend(width, view.buffer.is_wrapping());
    LogFrame { title, status, footer }
}

// ---------------------------------------------------------------------------
// Pages
// ---------------------------------------------------------------------------

/// How many rows the body of the log view has, in a terminal of a height: what
/// the title and the footer leave, one at least.
pub open spec fn body_rows(height: u16, footer_lines: nat) -> nat {
    let frame = 1 + view::section_rows(footer_lines);
    if height <= frame {
        1
    } else {
        (height - frame) as nat
    }
}

/// How many records a page of the log view has, in a terminal of a height: as
/// many as the body has rows.
pub fn log_page_size(height: u16, footer_lines: usize) -> (records: usize)
    ensures
        records == body_rows(height, footer_lines as nat),
{
    let frame: usize = 1 + view::section_height(footer_lines) as usize;
    if height as usize <= frame {
        1
    } else {
        height as usize - frame
    }
}

impl LogViewView {
    /// How many records a page has, in a terminal of a width and a height.
    pub open spec fn page_size(self, width: u16, height: u16) -> nat {
        body_rows(
            height,
            view::shortcut_lines(view::log_shortcuts(self.buffer.wrapping), width).len(),
        )
    }
}

impl LogView {
    /// How many records a page has, in a terminal of a width and a height.
    pub fn page_size(&self, width: u16, height: u16) -> (records: usize)
        ensures
            records == self@.page_size(width, height),
    {
        let footer = view::log_shortcut_legend(width, self.buffer.is_wrapping());
        assert(order::views(footer@).len() == footer@.len());
        log_page_size(height, footer.len())
    }
}

/// Home moves the viewport to the oldest records, as many as the body has rows.
pub proof fn law_home_shows_the_oldest_records(view: LogViewView, width: u16, height: u16)
    requires
        view.buffer.well_formed(),
    ensures
        ({
            let rows = view.page_size(width, height);
            view.buffer.navigated(LogNavigation::Home, rows).visible(rows)
                == view.buffer.lines.take(logs::least(rows, view.buffer.lines.len()) as int)
        }),
{
    logs::law_scrolling_up_ends_at_the_oldest(view.buffer, view.page_size(width, height));
}

/// A page up moves the viewport to the records right above it, as many as the
/// body has rows, or to the oldest where there are fewer above. A page down moves
/// it to those right below, or to the newest.
pub proof fn law_pages_move_by_the_rows_of_the_body(view: LogViewView, width: u16, height: u16)
    requires
        view.buffer.well_formed(),
    ensures
        ({
            let rows = view.page_size(width, height);
            let lines = view.buffer.lines;
            let end = lines.len() - view.buffer.offset_from_bottom;
            &&& view.buffer.navigated(LogNavigation::PageUp, rows).visible(rows) == if end
                >= 2 * rows {
                lines.subrange(end - 2 * rows, end - rows)
            } else {
                lines.take(logs::least(rows, lines.len()) as int)
            }
            &&& view.buffer.navigated(LogNavigation::PageDown, rows).visible(rows) == if end + rows
                <= lines.len() {
                lines.subrange(end as int, end + rows)
            } else {
                lines.skip(lines.len() - logs::least(rows, lines.len()))
            }
        }),
{
    let rows = view.page_size(width, height);
    let lines = view.buffer.lines;
    let end = lines.len() - view.buffer.offset_from_bottom;
    let up = view.buffer.navigated(LogNavigation::PageUp, rows).visible(rows);
    if end >= 2 * rows {
        assert(up =~= lines.subrange(end - 2 * rows, end - rows));
    } else {
        assert(up =~= lines.take(logs::least(rows, lines.len()) as int));
    }
    let down = view.buffer.navigated(LogNavigation::PageDown, rows).visible(rows);
    if end + rows <= lines.len() {
        assert(down =~= lines.subrange(end as int, end + rows));
    } else {
        assert(down =~= lines.skip(lines.len() - logs::least(rows, lines.len())));
    }
}

// ---------------------------------------------------------------------------
// Laws of what is shown
// ---------------------------------------------------------------------------

proof fn lemma_word_occurs_in_any_case(
    before: Seq<char>,
    word: Seq<char>,
    behind: Seq<char>,
    wanted: Seq<char>,
)
    requires
        text::lower(word) == wanted,
    ensures
        text::occurs(text::lower(before + word + behind), wanted),
{
    let whole = before + word + behind;
    assert(text::lower(whole) =~= text::lower(before) + wanted + text::lower(behind));
    text::law_what_stands_between_occurs(
        text::lower(before),
        wanted,
        text::lower(behind),
        text::lower(whole),
    );
}

/// A record that holds one of the words fatal, panic, error and failed, large or
/// small, is red, whatever stands around the word.
pub proof fn law_errors_are_red(before: Seq<char>, word: Seq<char>, behind: Seq<char>)
    ensures
        text::lower(word) == "fatal"@ ==> record_color(before + word + behind) == Color::Red,
        text::lower(word) == "panic"@ ==> record_color(before + word + behind) == Color::Red,
        text::lower(word) == "error"@ ==> record_color(before + word + behind) == Color::Red,
        text::lower(word) == "failed"@ ==> record_color(before + word + behind) == Color::Red,
{
    lemma_word_occurs_in_any_case(before, word, behind, text::lower(word));
}

/// Only a record that holds one of those words is red. Of the others, one that
/// holds warn is yellow; of the rest, one that holds debug or trace is dark; all
/// else is gray. Large letters count as small ones.
pub proof fn law_words_decide_the_color(line: Seq<char>)
    ensures
        ({
            let holds = |word: Seq<char>| text::occurs(text::lower(line), word);
            let grave = holds("fatal"@) || holds("panic"@) || holds("error"@) || holds("failed"@);
            &&& grave <==> record_color(line) == Color::Red
            &&& !grave && holds("warn"@) <==> record_color(line) == Color::Yellow
            &&& !grave && !holds("warn"@) && (holds("debug"@) || holds("trace"@))
                <==> record_color(line) == Color::DarkGray
            &&& !grave && !holds("warn"@) && !holds("debug"@) && !holds("trace"@)
                <==> record_color(line) == Color::Gray
        }),
{
}

/// The message of a record has the color of the record, on every line that the
/// record is spread over.
pub proof fn law_messages_have_the_color_of_the_record(
    line: Seq<char>,
    document: Option<(JsonKind, Seq<char>)>,
    place: int,
)
    requires
        0 <= place < record_lines(line, document).len(),
    ensures
        record_lines(line, document)[place].len() > 0,
        record_lines(line, document)[place].last().style == (style::Style {
            fg: Some(record_color(line)),
            bold: false,
        }),
{
}

/// A record that is no JSON object and no array is shown on one line: what
/// stands before the first bar, dark, the bar, and what stands behind it. Without
/// a bar it is shown as it is.
pub proof fn law_records_are_shown_behind_their_bar(
    prefix: Seq<char>,
    message: Seq<char>,
    line: Seq<char>,
    document: Option<(JsonKind, Seq<char>)>,
)
    requires
        match document {
            Some((kind, _)) => kind != JsonKind::Object && kind != JsonKind::Array,
            None => true,
        },
    ensures
        text::split_first(line, " │ "@) == Some((prefix, message)) ==> record_lines(line, document)
            == seq![
            seq![
                style::colored(prefix, Color::DarkGray),
                style::colored(" │ "@, Color::Rgb(72, 72, 72)),
                style::colored(message, record_color(line)),
            ],
        ],
        text::split_first(line, " │ "@) is None ==> record_lines(line, document) == seq![
            seq![style::colored(line, record_color(line))],
        ],
{
    if text::split_first(line, " │ "@) == Some((prefix, message)) {
        assert(record_lines(line, document)[0] =~= seq![
            style::colored(prefix, Color::DarkGray),
            style::colored(" │ "@, Color::Rgb(72, 72, 72)),
            style::colored(message, record_color(line)),
        ]);
    }
    if text::split_first(line, " │ "@) is None {
        assert(record_lines(line, document)[0] =~= seq![style::colored(line, record_color(line))]);
    }
}

/// A JSON object or array is spread over the lines of its indented form, in
/// their order: the first behind the prefix and the bar, the others indented,
/// and where there is no prefix, all as they are.
pub proof fn law_json_is_spread_over_its_lines(
    line: Seq<char>,
    kind: JsonKind,
    indented: Seq<char>,
    place: int,
)
    requires
        kind == JsonKind::Object || kind == JsonKind::Array,
        0 <= place < text::lines_of(indented).len(),
    ensures
        ({
            let shown = record_lines(line, Some((kind, indented)));
            let part = text::lines_of(indented)[place];
            &&& shown.len() == text::lines_of(indented).len()
            &&& match text::split_first(line, " │ "@) {
                Some((prefix, _)) => if place == 0 {
                    shown[0] == seq![
                        style::colored(prefix, Color::DarkGray),
                        style::colored(" │ "@, Color::Rgb(72, 72, 72)),
                        style::colored(part, record_color(line)),
                    ]
                } else {
                    shown[place] == seq![
                        style::plain("  "@),
                        style::colored(part, record_color(line)),
                    ]
                },
                None => shown[place] == seq![style::colored(part, record_color(line))],
            }
        }),
{
    let shown = record_lines(line, Some((kind, indented)));
    let part = text::lines_of(indented)[place];
    if let Some((prefix, _)) = text::split_first(line, " │ "@) {
        if place == 0 {
            assert(shown[0] =~= seq![
                style::colored(prefix, Color::DarkGray),
                style::colored(" │ "@, Color::Rgb(72, 72, 72)),
                style::colored(part, record_color(line)),
            ]);
        }
    }
}

/// What may be a document is the message of a record, what stands behind the
/// first bar or all of it, without white space around it.
pub proof fn law_the_message_is_read_as_a_document(
    line: Seq<char>,
    prefix: Seq<char>,
    message: Seq<char>,
)
    ensures
        text::split_first(line, " │ "@) == Some((prefix, message)) ==> record_source(line)
            == text::trimmed(message) && styled_lines(line) == record_lines(
            line,
            json::json_document(text::trimmed(message)),
        ),
        text::split_first(line, " │ "@) is None ==> record_source(line) == text::trimmed(line)
            && styled_lines(line) == record_lines(line, json::json_document(text::trimmed(line))),
{
}

/// The lines of records are shown record by record, in their order.
pub proof fn law_records_are_shown_in_order(records: Seq<Seq<char>>, record: Seq<char>)
    ensures
        all_styled_lines(Seq::empty()).len() == 0,
        all_styled_lines(records.push(record)) == all_styled_lines(records) + styled_lines(record),
{
    assert(records.push(record).drop_last() =~= records);
}

/// Where there is no record, the view says that it waits, or how the streams
/// ended. Otherwise it shows the lines of the records in view; it wraps them or
/// is moved sideways, and only a view that wraps and follows is moved down.
pub proof fn law_bodies_show_the_records_in_view(
    buffer: LogBufferView,
    running: bool,
    last_error: Option<Seq<char>>,
    height: u16,
    width: u16,
)
    ensures
        ({
            let body = body_of(buffer, running, last_error, height, width);
            let records = buffer.visible(height as nat);
            &&& body is Message <==> records.len() == 0
            &&& records.len() == 0 && running ==> body == BodyView::Message("Waiting for logs…"@)
            &&& records.len() == 0 && !running ==> match last_error {
                Some(error) => body == BodyView::Message(error),
                None => body == BodyView::Message("Log stream ended"@),
            }
            &&& records.len() > 0 ==> {
                &&& body->wrap == buffer.wrapping
                &&& buffer.wrapping ==> body->sideways == 0
                &&& !buffer.wrapping ==> body->sideways == buffer.horizontal_offset && body->down
                    == 0
                &&& !buffer.following ==> body->lines == all_styled_lines(records) && body->down
                    == 0
                &&& buffer.following && all_styled_lines(records).len() <= height ==> body->lines
                    == all_styled_lines(records)
                &&& buffer.following && all_styled_lines(records).len() > height
                    ==> body->lines.len() == height && forall|i: int|
                    0 <= i < height ==> #[trigger] body->lines[i] == all_styled_lines(
                        records,
                    )[all_styled_lines(records).len() - height + i]
            }
        }),
{
}

/// The log view is titled with the service and says whether the streams run,
/// whether it follows, whether it wraps, and how many records it has.
pub proof fn law_the_head_tells_how_the_logs_are_doing(
    service_name: Seq<char>,
    buffer: LogBufferView,
    running: bool,
)
    ensures
        log_title(service_name) == seq![
            style::colored("● "@, Color::Cyan),
            style::bold_colored(service_name, Color::Cyan),
            style::colored(" logs"@, Color::DarkGray),
        ],
        ({
            let status = log_status(buffer, running);
            &&& status.len() == 7
            &&& running ==> status[0] == style::colored("live"@, Color::Green)
            &&& !running ==> status[0] == style::colored("ended"@, Color::Red)
            &&& buffer.following ==> status[2] == style::colored("follow"@, Color::Gray)
            &&& !buffer.following ==> status[2] == style::colored("paused"@, Color::Gray)
            &&& buffer.wrapping ==> status[4] == style::colored("wrap"@, Color::Gray)
            &&& !buffer.wrapping ==> status[4] == style::colored("nowrap"@, Color::Gray)
            &&& status[6] == style::colored(
                text::decimal(buffer.lines.len()) + " lines"@,
                Color::DarkGray,
            )
            &&& status[1] == style::colored(" │ "@, Color::Rgb(72, 72, 72)) && status[3]
                == status[1] && status[5] == status[1]
        }),
{
}

/// A log view opens empty, on the output of Tilt and on that of the service,
/// both of which run, with both their pipes open.
pub proof fn law_log_views_open_on_both_streams(service_name: Seq<char>)
    ensures
        ({
            let view = opened_logs(service_name);
            &&& view.service_name == service_name
            &&& view.running
            &&& view.buffer == logs::empty_scrollback(2000, 8192)
            &&& view.build.source == Some(LogSource::Build) && view.runtime.source == Some(
                LogSource::Runtime,
            )
            &&& view.build.open_readers == 2 && view.runtime.open_readers == 2
            &&& view.build.last_error is None && view.runtime.last_error is None
        }),
{
}

/// Logs run as long as one of the streams does: it has a pipe open and its
/// process has not ended. Tilt's own output comes before that of the service.
pub proof fn law_logs_run_as_long_as_a_stream_does(
    view: LogViewView,
    build_events: Seq<StreamEvent>,
    runtime_events: Seq<StreamEvent>,
    build_exited: bool,
    runtime_exited: bool,
)
    requires
        build_events.len() <= 256,
        runtime_events.len() <= 256,
    ensures
        ({
            let after = view.after_events(
                build_events,
                runtime_events,
                build_exited,
                runtime_exited,
            );
            let first = logs::polled(view.build, view.buffer, order::views(build_events));
            let second = logs::polled(view.runtime, first.logs, order::views(runtime_events));
            &&& after.buffer == second.logs
            &&& after.build == first.stream && after.runtime == second.stream
            &&& after.service_name == view.service_name
            &&& after.running <==> (after.build.open_readers > 0 && !build_exited) || (
            after.runtime.open_readers > 0 && !runtime_exited)
        }),
{
    assert(order::views(build_events).take(build_events.len() as int) =~= order::views(
        build_events,
    ));
    assert(order::views(runtime_events).take(runtime_events.len() as int) =~= order::views(
        runtime_events,
    ));
}

/// What went wrong last is told of the service before it is told of Tilt.
pub proof fn law_errors_of_the_service_come_first(view: LogViewView)
    ensures
        view.runtime.last_error is Some ==> view.last_error() == view.runtime.last_error,
        view.runtime.last_error is None ==> view.last_error() == view.build.last_error,
{
}

/// The body has the rows that the title and the footer leave, and one at least.
pub proof fn law_bodies_have_what_the_frame_leaves(height: u16, footer_lines: nat)
    requires
        0 < footer_lines <= u16::MAX,
    ensures
        height > 1 + footer_lines ==> body_rows(height, footer_lines) + 1 + footer_lines == height,
        height <= 1 + footer_lines ==> body_rows(height, footer_lines) == 1,
        body_rows(height, 0) == body_rows(height, 1),
{
}

/// The rows of lines add up, and lines wrap at the width of the pane, as far as
/// rows are counted.
pub proof fn law_rows_add_up(rows: Seq<nat>, more: nat, width: u16)
    ensures
        total_rows(Seq::empty()) == 0,
        total_rows(rows.push(more)) == total_rows(rows) + more,
        0 < width <= 16_384 ==> columns_of(width) == width,
        width > 16_384 ==> columns_of(width) == 16_384,
        columns_of(0) == 1,
{
    assert(rows.push(more).drop_last() =~= rows);
}

} // verus!
