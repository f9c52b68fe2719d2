//! Live logs: a bounded scrollback, the reading of bounded records, and the
//! streams that feed the scrollback.

use std::collections::VecDeque;

use vstd::prelude::*;

use crate::text;
use crate::text::CharClass;

verus! {

/// How many records a scrollback holds unless told otherwise.
pub const DEFAULT_MAX_LOG_LINES: usize = 2_000;

/// How many bytes of a record are kept unless told otherwise.
pub const DEFAULT_MAX_LOG_LINE_BYTES: usize = 8192;

/// How many records may wait between a reader and the scrollback.
pub const LOG_CHANNEL_CAPACITY: usize = 128;

/// How many messages one poll takes at most.
pub const LOG_POLL_BATCH_SIZE: usize = 256;

/// A move through a scrollback.
#[derive(Clone, Copy, Debug, PartialEq, Eq, Structural)]
pub enum LogNavigation {
    Up,
    Down,
    PageUp,
    PageDown,
    Home,
    End,
    Left,
    Right,
}

// ---------------------------------------------------------------------------
// Terminal sequences
// ---------------------------------------------------------------------------

/// Where a reader of terminal output stands.
#[derive(Clone, Copy, Debug, PartialEq, Eq, Structural)]
pub enum EscapeState {
    /// In plain text.
    Text,
    /// Behind an escape character.
    Escape,
    /// In an escape sequence of several characters, up to its final character.
    EscapeSequence,
    /// In a control sequence, up to its final character.
    ControlSequence,
    /// In an operating system command.
    OperatingSystemCommand,
    /// Behind an escape character in an operating system command.
    OperatingSystemEscape,
    /// In a control string.
    ControlString,
    /// Behind an escape character in a control string.
    ControlStringEscape,
}

/// Whether a character behind an escape character says that the sequence goes
/// on.
pub open spec fn is_intermediate(character: char) -> bool {
    ' ' <= character <= '/'
}

/// Whether a character ends an escape sequence.
pub open spec fn ends_escape(character: char) -> bool {
    '0' <= character <= '~'
}

/// Whether a character ends a control sequence.
pub open spec fn ends_control(character: char) -> bool {
    '@' <= character <= '~'
}

/// Whether a character behind an escape character opens a control string.
pub open spec fn opens_string(character: char) -> bool {
    character == 'P' || character == 'X' || character == '^' || character == '_'
}

impl EscapeState {
    /// The state behind one more character. An escape character in a sequence
    /// begins another.
    pub open spec fn after(self, character: char) -> EscapeState {
        match self {
            EscapeState::Text => if character == '\u{1b}' {
                EscapeState::Escape
            } else {
                EscapeState::Text
            },
            EscapeState::Escape => if character == '\u{1b}' {
                EscapeState::Escape
            } else if character == '[' {
                EscapeState::ControlSequence
            } else if character == ']' {
                EscapeState::OperatingSystemCommand
            } else if opens_string(character) {
                EscapeState::ControlString
            } else if is_intermediate(character) {
                EscapeState::EscapeSequence
            } else {
                EscapeState::Text
            },
            EscapeState::EscapeSequence => if character == '\u{1b}' {
                EscapeState::Escape
            } else if ends_escape(character) {
                EscapeState::Text
            } else {
                EscapeState::EscapeSequence
            },
            EscapeState::ControlSequence => if character == '\u{1b}' {
                EscapeState::Escape
            } else if ends_control(character) {
                EscapeState::Text
            } else {
                EscapeState::ControlSequence
            },
            EscapeState::OperatingSystemCommand => if character == '\u{7}' {
                EscapeState::Text
            } else if character == '\u{1b}' {
                EscapeState::OperatingSystemEscape
            } else {
                EscapeState::OperatingSystemCommand
            },
            EscapeState::OperatingSystemEscape => if character == '\\' {
                EscapeState::Text
            } else if character == '\u{1b}' {
                EscapeState::OperatingSystemEscape
            } else {
                EscapeState::OperatingSystemCommand
            },
            EscapeState::ControlString => if character == '\u{1b}' {
                EscapeState::ControlStringEscape
            } else {
                EscapeState::ControlString
            },
            EscapeState::ControlStringEscape => if character == '\\' {
                EscapeState::Text
            } else if character == '\u{1b}' {
                EscapeState::ControlStringEscape
            } else {
                EscapeState::ControlString
            },
        }
    }

    /// Whether a character met in this state is plain text.
    pub open spec fn shows(self, character: char) -> bool {
        self == EscapeState::Text && character != '\u{1b}'
    }

    /// The state behind one more character.
    fn next(self, character: char) -> (state: EscapeState)
        ensures
            state == self.after(character),
    {
        let escape = character == '\u{1b}';
        match self {
            EscapeState::Text => if escape {
                EscapeState::Escape
            } else {
                EscapeState::Text
            },
            EscapeState::Escape => if escape {
                EscapeState::Escape
            } else if character == '[' {
                EscapeState::ControlSequence
            } else if character == ']' {
                EscapeState::OperatingSystemCommand
            } else if character == 'P' || character == 'X' || character == '^' || character
                == '_' {
                EscapeState::ControlString
            } else if ' ' <= character && character <= '/' {
                EscapeState::EscapeSequence
            } else {
                EscapeState::Text
            },
            EscapeState::EscapeSequence => if escape {
                EscapeState::Escape
            } else if '0' <= character && character <= '~' {
                EscapeState::Text
            } else {
                EscapeState::EscapeSequence
            },
            EscapeState::ControlSequence => if escape {
                EscapeState::Escape
            } else if '@' <= character && character <= '~' {
                EscapeState::Text
            } else {
                EscapeState::ControlSequence
            },
            EscapeState::OperatingSystemCommand => if character == '\u{7}' {
                EscapeState::Text
            } else if escape {
                EscapeState::OperatingSystemEscape
            } else {
                EscapeState::OperatingSystemCommand
            },
            EscapeState::OperatingSystemEscape => if character == '\\' {
                EscapeState::Text
            } else if escape {
                EscapeState::OperatingSystemEscape
            } else {
                EscapeState::OperatingSystemCommand
            },
            EscapeState::ControlString => if escape {
                EscapeState::ControlStringEscape
            } else {
                EscapeState::ControlString
            },
            EscapeState::ControlStringEscape => if character == '\\' {
                EscapeState::Text
            } else if escape {
                EscapeState::ControlStringEscape
            } else {
                EscapeState::ControlString
            },
        }
    }
}

/// The state behind a text that starts as plain text.
pub open spec fn state_behind(input: Seq<char>) -> EscapeState
    decreases input.len(),
{
    if input.len() == 0 {
        EscapeState::Text
    } else {
        state_behind(input.drop_last()).after(input.last())
    }
}

/// The characters of a text that stand outside terminal sequences.
pub open spec fn plain_text(input: Seq<char>) -> Seq<char>
    decreases input.len(),
{
    if input.len() == 0 {
        Seq::empty()
    } else if state_behind(input.drop_last()).shows(input.last()) {
        plain_text(input.drop_last()).push(input.last())
    } else {
        plain_text(input.drop_last())
    }
}

/// Plain text holds no escape character, so none reaches a terminal.
pub proof fn law_plain_text_has_no_escape(input: Seq<char>)
    ensures
        !plain_text(input).contains('\u{1b}'),
    decreases input.len(),
{
    if input.len() > 0 {
        law_plain_text_has_no_escape(input.drop_last());
        let front = plain_text(input.drop_last());
        assert forall|i: int| 0 <= i < plain_text(input).len() implies plain_text(input)[i]
            != '\u{1b}' by {
            if i < front.len() {
                assert(front.contains(front[i]));
            }
        }
    }
}

/// A text without escape characters is plain text already.
pub proof fn law_plain_text_is_kept(input: Seq<char>)
    requires
        !input.contains('\u{1b}'),
    ensures
        plain_text(input) == input,
        state_behind(input) == EscapeState::Text,
    decreases input.len(),
{
    if input.len() > 0 {
        assert(input.contains(input[input.len() - 1]));
        assert forall|i: int| 0 <= i < input.drop_last().len() implies input.drop_last()[i]
            != '\u{1b}' by {
            assert(input.contains(input[i]));
        }
        law_plain_text_is_kept(input.drop_last());
        assert(input.drop_last().push(input.last()) =~= input);
    } else {
        assert(input =~= Seq::<char>::empty());
    }
}

/// A sequence that a terminal takes for itself.
pub enum TerminalSequence {
    /// An escape character, characters that say that the sequence goes on, and
    /// a final character.
    Escape { intermediates: Seq<char>, last: char },
    /// An escape character, a bracket, parameters, and a final character.
    Control { parameters: Seq<char>, last: char },
    /// An escape character, a closing bracket, a command, and a bell, or an
    /// escape character and a backslash.
    Command { content: Seq<char>, bell: bool },
    /// An escape character, what opens a control string, its content, and an
    /// escape character and a backslash.
    ControlString { opener: char, content: Seq<char> },
}

impl TerminalSequence {
    /// Whether the parts are such that the sequence ends where it should.
    pub open spec fn well_formed(self) -> bool {
        match self {
            TerminalSequence::Escape { intermediates, last } => {
                &&& forall|i: int|
                    0 <= i < intermediates.len() ==> is_intermediate(#[trigger] intermediates[i])
                &&& ends_escape(last)
                &&& intermediates.len() == 0 ==> last != '[' && last != ']' && !opens_string(last)
            },
            TerminalSequence::Control { parameters, last } => {
                &&& forall|i: int|
                    0 <= i < parameters.len() ==> !ends_control(#[trigger] parameters[i])
                        && parameters[i] != '\u{1b}'
                &&& ends_control(last)
            },
            TerminalSequence::Command { content, .. } => forall|i: int|
                0 <= i < content.len() ==> (#[trigger] content[i]) != '\u{1b}' && content[i]
                    != '\u{7}',
            TerminalSequence::ControlString { opener, content } => {
                &&& opens_string(opener)
                &&& forall|i: int| 0 <= i < content.len() ==> (#[trigger] content[i]) != '\u{1b}'
            },
        }
    }

    /// The characters of the sequence.
    pub open spec fn characters(self) -> Seq<char> {
        match self {
            TerminalSequence::Escape { intermediates, last } => (seq!['\u{1b}']
                + intermediates).push(last),
            TerminalSequence::Control { parameters, last } => (seq!['\u{1b}', '[']
                + parameters).push(last),
            TerminalSequence::Command { content, bell } => seq!['\u{1b}', ']'] + content + if bell {
                seq!['\u{7}']
            } else {
                seq!['\u{1b}', '\\']
            },
            TerminalSequence::ControlString { opener, content } => seq!['\u{1b}', opener] + content
                + seq!['\u{1b}', '\\'],
        }
    }
}

proof fn lemma_one_more_character(front: Seq<char>, character: char)
    ensures
        state_behind(front.push(character)) == state_behind(front).after(character),
        plain_text(front.push(character)) == if state_behind(front).shows(character) {
            plain_text(front).push(character)
        } else {
            plain_text(front)
        },
{
    assert(front.push(character).drop_last() =~= front);
}

proof fn lemma_inside_a_sequence(front: Seq<char>, content: Seq<char>)
    requires
        state_behind(front) != EscapeState::Text,
        forall|i: int|
            0 <= i < content.len() ==> state_behind(front).after(#[trigger] content[i])
                == state_behind(front),
    ensures
        state_behind(front + content) == state_behind(front),
        plain_text(front + content) == plain_text(front),
    decreases content.len(),
{
    if content.len() == 0 {
        assert(front + content =~= front);
    } else {
        let shorter = content.drop_last();
        assert forall|i: int| 0 <= i < shorter.len() implies state_behind(front).after(
            #[trigger] shorter[i],
        ) == state_behind(front) by {
            assert(shorter[i] == content[i]);
        }
        lemma_inside_a_sequence(front, shorter);
        lemma_one_more_character(front + shorter, content.last());
        assert((front + shorter).push(content.last()) =~= front + content);
        assert(content[content.len() - 1] == content.last());
    }
}

proof fn lemma_behind_plain_text(front: Seq<char>, behind: Seq<char>)
    requires
        state_behind(front) == EscapeState::Text,
    ensures
        state_behind(front + behind) == state_behind(behind),
        plain_text(front + behind) == plain_text(front) + plain_text(behind),
    decreases behind.len(),
{
    if behind.len() == 0 {
        assert(front + behind =~= front);
        assert(plain_text(front) + plain_text(behind) =~= plain_text(front));
    } else {
        lemma_behind_plain_text(front, behind.drop_last());
        assert((front + behind).drop_last() =~= front + behind.drop_last());
        assert(plain_text(front + behind) =~= plain_text(front) + plain_text(behind));
    }
}

proof fn lemma_sequence_ends(before: Seq<char>, sequence: TerminalSequence)
    requires
        state_behind(before) == EscapeState::Text,
        sequence.well_formed(),
    ensures
        state_behind(before + sequence.characters()) == EscapeState::Text,
        plain_text(before + sequence.characters()) == plain_text(before),
{
    let whole = before + sequence.characters();
    let opened = before.push('\u{1b}');
    lemma_one_more_character(before, '\u{1b}');
    match sequence {
        TerminalSequence::Escape { intermediates, last } => {
            if intermediates.len() == 0 {
                lemma_one_more_character(opened, last);
                assert(opened.push(last) =~= whole);
            } else {
                let first = intermediates[0];
                let rest = intermediates.drop_first();
                let front = opened.push(first);
                lemma_one_more_character(opened, first);
                assert forall|i: int| 0 <= i < rest.len() implies state_behind(front).after(
                    #[trigger] rest[i],
                ) == state_behind(front) by {
                    assert(rest[i] == intermediates[i + 1]);
                }
                lemma_inside_a_sequence(front, rest);
                lemma_one_more_character(front + rest, last);
                assert((front + rest).push(last) =~= whole);
            }
        },
        TerminalSequence::Control { parameters, last } => {
            let front = opened.push('[');
            lemma_one_more_character(opened, '[');
            lemma_inside_a_sequence(front, parameters);
            lemma_one_more_character(front + parameters, last);
            assert((front + parameters).push(last) =~= whole);
        },
        TerminalSequence::Command { content, bell } => {
            let front = opened.push(']');
            lemma_one_more_character(opened, ']');
            lemma_inside_a_sequence(front, content);
            let filled = front + content;
            if bell {
                lemma_one_more_character(filled, '\u{7}');
                assert(filled.push('\u{7}') =~= whole);
            } else {
                lemma_one_more_character(filled, '\u{1b}');
                lemma_one_more_character(filled.push('\u{1b}'), '\\');
                assert(filled.push('\u{1b}').push('\\') =~= whole);
            }
        },
        TerminalSequence::ControlString { opener, content } => {
            let front = opened.push(opener);
            lemma_one_more_character(opened, opener);
            lemma_inside_a_sequence(front, content);
            let filled = front + content;
            lemma_one_more_character(filled, '\u{1b}');
            lemma_one_more_character(filled.push('\u{1b}'), '\\');
            assert(filled.push('\u{1b}').push('\\') =~= whole);
        },
    }
}

/// A terminal sequence in a text leaves nothing behind, and what stands before
/// and behind it is read as if it were not there.
pub proof fn law_terminal_sequences_are_removed(
    before: Seq<char>,
    sequence: TerminalSequence,
    behind: Seq<char>,
)
    requires
        state_behind(before) == EscapeState::Text,
        sequence.well_formed(),
    ensures
        plain_text(before + sequence.characters() + behind) == plain_text(before) + plain_text(
            behind,
        ),
        plain_text(before + sequence.characters() + behind) == plain_text(before + behind),
{
    lemma_sequence_ends(before, sequence);
    lemma_behind_plain_text(before + sequence.characters(), behind);
    lemma_behind_plain_text(before, behind);
}

/// Removes terminal sequences from a text.
pub fn strip_terminal_sequences(input: &str) -> (output: String)
    ensures
        output@ == plain_text(input@),
{
    let chars = text::chars_of(input);
    let mut output = String::new();
    let mut state = EscapeState::Text;
    let mut index: usize = 0;
    assert(chars@.take(0) =~= Seq::<char>::empty());
    while index < chars.len()
        invariant
            index <= chars@.len(),
            state == state_behind(chars@.take(index as int)),
            output@ == plain_text(chars@.take(index as int)),
        decreases chars@.len() - index,
    {
        let character = chars[index];
        proof {
            assert(chars@.take(index + 1).drop_last() =~= chars@.take(index as int));
            assert(chars@.take(index + 1).last() == character);
        }
        if state == EscapeState::Text && character != '\u{1b}' {
            output.push(character);
        }
        state = state.next(character);
        index += 1;
    }
    assert(chars@.take(chars@.len() as int) =~= chars@);
    output
}

// ---------------------------------------------------------------------------
// Scrollback
// ---------------------------------------------------------------------------

/// A scrollback as mathematics has it.
pub struct LogBufferView {
    /// The records kept, oldest first.
    pub lines: Seq<Seq<char>>,
    /// How many records are kept at most.
    pub max_lines: nat,
    /// How many bytes of a record are kept at most.
    pub max_line_bytes: nat,
    /// How many records were dropped.
    pub dropped_lines: nat,
    /// How many cuts shortened a record.
    pub truncated_lines: nat,
    /// How many records lie below the viewport.
    pub offset_from_bottom: nat,
    /// Whether the viewport follows the newest record.
    pub following: bool,
    /// Whether long records wrap.
    pub wrapping: bool,
    /// How far the viewport is scrolled to the right.
    pub horizontal_offset: nat,
}

/// One more on a counter that stops at the largest value it can hold.
pub open spec fn counted(count: nat) -> nat {
    if count < u64::MAX {
        count + 1
    } else {
        count
    }
}

/// The smaller of two numbers.
pub open spec fn least(left: nat, right: nat) -> nat {
    if left <= right {
        left
    } else {
        right
    }
}

/// How far up a viewport of a height can be scrolled over a number of records.
pub open spec fn max_offset(len: nat, page_size: nat) -> nat {
    (len - least(if page_size == 0 {
        1
    } else {
        page_size
    }, len)) as nat
}

impl LogBufferView {
    /// What holds of every scrollback.
    pub open spec fn well_formed(self) -> bool {
        &&& self.lines.len() <= self.max_lines
        &&& self.offset_from_bottom <= self.lines.len()
        &&& self.following ==> self.offset_from_bottom == 0
        &&& self.wrapping ==> self.horizontal_offset == 0
        &&& forall|i: int|
            0 <= i < self.lines.len() ==> text::encoded_len(#[trigger] self.lines[i])
                <= self.max_line_bytes
        &&& forall|i: int|
            0 <= i < self.lines.len() ==> !(#[trigger] self.lines[i]).contains('\u{1b}')
    }

    /// What is kept of a record: its plain text, without line ends, cut to size.
    pub open spec fn kept(self, line: Seq<char>) -> Seq<char> {
        text::prefix_fitting(
            plain_text(text::trimmed_end(line, CharClass::LineEnd)),
            self.max_line_bytes,
        )
    }

    /// Whether a record is longer than what is kept.
    pub open spec fn cuts(self, line: Seq<char>) -> bool {
        text::encoded_len(plain_text(text::trimmed_end(line, CharClass::LineEnd)))
            > self.max_line_bytes
    }

    /// The scrollback behind one more record.
    pub open spec fn received(self, line: Seq<char>, already_truncated: bool) -> LogBufferView {
        if self.max_lines == 0 {
            LogBufferView { dropped_lines: counted(self.dropped_lines), ..self }
        } else {
            let full = self.lines.len() == self.max_lines;
            let lines = (if full {
                self.lines.drop_first()
            } else {
                self.lines
            }).push(self.kept(line));
            let marked = if already_truncated {
                counted(self.truncated_lines)
            } else {
                self.truncated_lines
            };
            LogBufferView {
                lines,
                dropped_lines: if full {
                    counted(self.dropped_lines)
                } else {
                    self.dropped_lines
                },
                truncated_lines: if self.cuts(line) {
                    counted(marked)
                } else {
                    marked
                },
                offset_from_bottom: if self.following {
                    self.offset_from_bottom
                } else {
                    least(self.offset_from_bottom + 1, lines.len())
                },
                ..self
            }
        }
    }

    /// The records in a viewport of a height.
    pub open spec fn visible(self, height: nat) -> Seq<Seq<char>> {
        let end = self.lines.len() - self.offset_from_bottom;
        let start = if end <= height {
            0
        } else {
            end - height
        };
        self.lines.subrange(start, end)
    }

    /// The scrollback with the viewport as far up as asked, and no further than
    /// a page of records allows.
    pub open spec fn scrolled_to(self, offset: nat, page_size: nat) -> LogBufferView {
        let reached = least(offset, max_offset(self.lines.len(), page_size));
        LogBufferView { offset_from_bottom: reached, following: reached == 0, ..self }
    }

    /// The scrollback behind a move.
    pub open spec fn navigated(self, navigation: LogNavigation, page_size: nat) -> LogBufferView {
        let offset = self.offset_from_bottom;
        match navigation {
            LogNavigation::Up => self.scrolled_to(offset + 1, page_size),
            LogNavigation::Down => self.scrolled_to(
                if offset == 0 {
                    0
                } else {
                    (offset - 1) as nat
                },
                page_size,
            ),
            LogNavigation::PageUp => self.scrolled_to(offset + page_size, page_size),
            LogNavigation::PageDown => self.scrolled_to(
                if offset <= page_size {
                    0
                } else {
                    (offset - page_size) as nat
                },
                page_size,
            ),
            LogNavigation::Home => self.scrolled_to(
                max_offset(self.lines.len(), page_size),
                page_size,
            ),
            LogNavigation::End => self.scrolled_to(0, page_size),
            LogNavigation::Left => if self.wrapping || self.horizontal_offset == 0 {
                self
            } else {
                LogBufferView { horizontal_offset: (self.horizontal_offset - 1) as nat, ..self }
            },
            LogNavigation::Right => if self.wrapping || self.horizontal_offset >= u16::MAX {
                self
            } else {
                LogBufferView { horizontal_offset: self.horizontal_offset + 1, ..self }
            },
        }
    }

    /// The scrollback with following switched.
    pub open spec fn follow_toggled(self) -> LogBufferView {
        LogBufferView {
            following: !self.following,
            offset_from_bottom: if self.following {
                self.offset_from_bottom
            } else {
                0
            },
            ..self
        }
    }

    /// The scrollback with wrapping switched.
    pub open spec fn wrap_toggled(self) -> LogBufferView {
        LogBufferView {
            wrapping: !self.wrapping,
            horizontal_offset: if self.wrapping {
                self.horizontal_offset
            } else {
                0
            },
            ..self
        }
    }

    /// The scrollback without records, counts and scrolling.
    pub open spec fn cleared(self) -> LogBufferView {
        LogBufferView {
            lines: Seq::empty(),
            dropped_lines: 0,
            truncated_lines: 0,
            offset_from_bottom: 0,
            following: true,
            horizontal_offset: 0,
            ..self
        }
    }
}

/// The scrollback that nothing has reached yet.
pub open spec fn empty_scrollback(max_lines: nat, max_line_bytes: nat) -> LogBufferView {
    LogBufferView {
        lines: Seq::empty(),
        max_lines,
        max_line_bytes,
        dropped_lines: 0,
        truncated_lines: 0,
        offset_from_bottom: 0,
        following: true,
        wrapping: true,
        horizontal_offset: 0,
    }
}

proof fn lemma_prefix_keeps_absence(input: Seq<char>, max_bytes: nat, character: char)
    requires
        !input.contains(character),
    ensures
        !text::prefix_fitting(input, max_bytes).contains(character),
{
    text::lemma_prefix_fitting(input, max_bytes);
    let prefix = text::prefix_fitting(input, max_bytes);
    assert forall|i: int| 0 <= i < prefix.len() implies prefix[i] != character by {
        assert(prefix[i] == input[i]);
        assert(input.contains(input[i]));
    }
}

/// A record that arrives leaves the scrollback bounded: no more records than
/// allowed, none longer than allowed, none with an escape character.
pub proof fn law_receiving_keeps_bounds(
    view: LogBufferView,
    line: Seq<char>,
    already_truncated: bool,
)
    requires
        view.well_formed(),
    ensures
        view.received(line, already_truncated).well_formed(),
{
    if view.max_lines > 0 {
        let clean = plain_text(text::trimmed_end(line, CharClass::LineEnd));
        law_plain_text_has_no_escape(text::trimmed_end(line, CharClass::LineEnd));
        text::lemma_prefix_fitting(clean, view.max_line_bytes);
        lemma_prefix_keeps_absence(clean, view.max_line_bytes, '\u{1b}');
    }
}

/// While the viewport does not follow, a record that arrives leaves what it
/// shows as it was. Only where the record that is dropped for it was in view
/// does the viewport lose that one.
pub proof fn law_scrolled_view_is_preserved(
    view: LogBufferView,
    line: Seq<char>,
    already_truncated: bool,
    height: nat,
)
    requires
        view.well_formed(),
        !view.following,
    ensures
        view.received(line, already_truncated).visible(height) == if view.lines.len()
            == view.max_lines && view.visible(height).len() > 0 && view.offset_from_bottom + height
            >= view.lines.len() {
            view.visible(height).drop_first()
        } else {
            view.visible(height)
        },
{
    let after = view.received(line, already_truncated);
    if view.lines.len() == view.max_lines && view.visible(height).len() > 0
        && view.offset_from_bottom + height >= view.lines.len() {
        assert(after.visible(height) =~= view.visible(height).drop_first());
    } else {
        assert(after.visible(height) =~= view.visible(height));
    }
}

/// A viewport that follows shows the newest records, in their order.
pub proof fn law_following_shows_the_tail(view: LogBufferView, height: nat)
    requires
        view.well_formed(),
        view.following,
    ensures
        view.visible(height) == view.lines.skip(view.lines.len() - least(height, view.lines.len())),
{
    assert(view.visible(height) =~= view.lines.skip(
        view.lines.len() - least(height, view.lines.len()),
    ));
}

/// However far one goes up, a page of records stays in view, and the first
/// page is reached.
pub proof fn law_scrolling_up_ends_at_the_oldest(view: LogBufferView, page_size: nat)
    requires
        view.well_formed(),
        page_size > 0,
    ensures
        view.navigated(LogNavigation::Home, page_size).visible(page_size) == view.lines.take(
            least(page_size, view.lines.len()) as int,
        ),
        view.navigated(LogNavigation::Home, page_size).navigated(LogNavigation::Up, page_size)
            == view.navigated(LogNavigation::Home, page_size),
{
    let home = view.navigated(LogNavigation::Home, page_size);
    assert(home.visible(page_size) =~= view.lines.take(
        least(page_size, view.lines.len()) as int,
    ));
}

/// A bounded scrollback of log records with a viewport on it.
#[derive(Debug)]
pub struct LogBuffer {
    lines: VecDeque<String>,
    max_lines: usize,
    max_line_bytes: usize,
    dropped_lines: u64,
    truncated_lines: u64,
    offset_from_bottom: usize,
    following: bool,
    wrapping: bool,
    horizontal_offset: u16,
}

impl View for LogBuffer {
    type V = LogBufferView;

    closed spec fn view(&self) -> LogBufferView {
        LogBufferView {
            lines: text::texts(self.lines@),
            max_lines: self.max_lines as nat,
            max_line_bytes: self.max_line_bytes as nat,
            dropped_lines: self.dropped_lines as nat,
            truncated_lines: self.truncated_lines as nat,
            offset_from_bottom: self.offset_from_bottom as nat,
            following: self.following,
            wrapping: self.wrapping,
            horizontal_offset: self.horizontal_offset as nat,
        }
    }
}

impl Default for LogBuffer {
    fn default() -> (buffer: Self)
        ensures
            buffer@ == empty_scrollback(
                DEFAULT_MAX_LOG_LINES as nat,
                DEFAULT_MAX_LOG_LINE_BYTES as nat,
            ),
            buffer@.well_formed(),
    {
        LogBuffer::with_limits(DEFAULT_MAX_LOG_LINES, DEFAULT_MAX_LOG_LINE_BYTES)
    }
}

impl LogBuffer {
    /// An empty scrollback with the given limits.
    pub fn with_limits(max_lines: usize, max_line_bytes: usize) -> (buffer: Self)
        ensures
            buffer@ == empty_scrollback(max_lines as nat, max_line_bytes as nat),
            buffer@.well_formed(),
    {
        let buffer = LogBuffer {
            lines: VecDeque::new(),
            max_lines,
            max_line_bytes,
            dropped_lines: 0,
            truncated_lines: 0,
            offset_from_bottom: 0,
            following: true,
            wrapping: true,
            horizontal_offset: 0,
        };
        assert(buffer@.lines =~= Seq::<Seq<char>>::empty());
        buffer
    }

    /// Adds a record that was read whole.
    pub fn push(&mut self, line: &str)
        requires
            old(self)@.well_formed(),
        ensures
            final(self)@ == old(self)@.received(line@, false),
            final(self)@.well_formed(),
    {
        self.push_received(line, false);
    }

    /// Adds a record, of which a reader may have cut off the end.
    pub fn push_received(&mut self, line: &str, already_truncated: bool)
        requires
            old(self)@.well_formed(),
        ensures
            final(self)@ == old(self)@.received(line@, already_truncated),
            final(self)@.well_formed(),
    {
        let ghost before = self@;
        proof {
            law_receiving_keeps_bounds(before, line@, already_truncated);
        }
        if self.max_lines == 0 {
            self.dropped_lines = self.dropped_lines.saturating_add(1);
            return;
        }
        let content = text::trim_end(line, CharClass::LineEnd);
        let mut clean = strip_terminal_sequences(content.as_str());
        if already_truncated {
            self.truncated_lines = self.truncated_lines.saturating_add(1);
        }
        if clean.as_str().as_bytes().len() > self.max_line_bytes {
            clean = text::fit_bytes(clean.as_str(), self.max_line_bytes);
            self.truncated_lines = self.truncated_lines.saturating_add(1);
        }
        let ghost held = self.lines@;
        if self.lines.len() == self.max_lines {
            let _ = self.lines.pop_front();
            self.dropped_lines = self.dropped_lines.saturating_add(1);
            assert(text::texts(self.lines@) =~= text::texts(held).drop_first());
        }
        let ghost remaining = self.lines@;
        self.lines.push_back(clean);
        assert(text::texts(self.lines@) =~= text::texts(remaining).push(clean@));
        if !self.following {
            self.offset_from_bottom = self.offset_from_bottom.saturating_add(1).min(
                self.lines.len(),
            );
        }
    }

    /// The records, oldest first.
    pub fn lines(&self) -> (lines: Vec<&str>)
        ensures
            text::borrowed_texts(lines@) == self@.lines,
    {
        let lines = self.lines_between(0, self.lines.len());
        assert(self@.lines.subrange(0, self@.lines.len() as int) =~= self@.lines);
        lines
    }

    fn lines_between(&self, start: usize, end: usize) -> (lines: Vec<&str>)
        requires
            start <= end <= self@.lines.len(),
        ensures
            text::borrowed_texts(lines@) == self@.lines.subrange(start as int, end as int),
    {
        let mut lines: Vec<&str> = Vec::new();
        let mut index: usize = start;
        while index < end
            invariant
                start <= index <= end <= self.lines@.len(),
                text::borrowed_texts(lines@) == self@.lines.subrange(start as int, index as int),
            decreases end - index,
        {
            let ghost before = lines@;
            let line = self.lines[index].as_str();
            lines.push(line);
            proof {
                assert(text::borrowed_texts(lines@) =~= text::borrowed_texts(before).push(line@));
                assert(self@.lines.subrange(start as int, index + 1) =~= self@.lines.subrange(
                    start as int,
                    index as int,
                ).push(self@.lines[index as int]));
            }
            index += 1;
        }
        lines
    }

    /// The records in a viewport of a height.
    pub fn visible_lines(&self, height: usize) -> (lines: Vec<&str>)
        requires
            self@.well_formed(),
        ensures
            text::borrowed_texts(lines@) == self@.visible(height as nat),
    {
        let end = self.lines.len().saturating_sub(self.offset_from_bottom);
        let start = end.saturating_sub(height);
        self.lines_between(start, end)
    }

    /// Moves the viewport.
    pub fn navigate(&mut self, navigation: LogNavigation, page_size: usize)
        requires
            old(self)@.well_formed(),
        ensures
            final(self)@ == old(self)@.navigated(navigation, page_size as nat),
            final(self)@.well_formed(),
    {
        let page: usize = page_size.max(1).min(self.lines.len());
        let max_offset = self.lines.len().saturating_sub(page);
        let offset: usize = match navigation {
            LogNavigation::Up => self.offset_from_bottom.saturating_add(1),
            LogNavigation::Down => self.offset_from_bottom.saturating_sub(1),
            LogNavigation::PageUp => self.offset_from_bottom.saturating_add(page_size),
            LogNavigation::PageDown => self.offset_from_bottom.saturating_sub(page_size),
            LogNavigation::Home => max_offset,
            LogNavigation::End => 0,
            LogNavigation::Left => {
                if !self.wrapping {
                    self.horizontal_offset = self.horizontal_offset.saturating_sub(1);
                }
                return;
            },
            LogNavigation::Right => {
                if !self.wrapping {
                    self.horizontal_offset = self.horizontal_offset.saturating_add(1);
                }
                return;
            },
        };
        self.offset_from_bottom = offset.min(max_offset);
        self.following = self.offset_from_bottom == 0;
    }

    /// Whether the viewport follows the newest record.
    pub fn is_following(&self) -> (following: bool)
        ensures
            following == self@.following,
    {
        self.following
    }

    /// Switches following on or off.
    pub fn toggle_follow(&mut self)
        requires
            old(self)@.well_formed(),
        ensures
            final(self)@ == old(self)@.follow_toggled(),
            final(self)@.well_formed(),
    {
        self.following = !self.following;
        if self.following {
            self.offset_from_bottom = 0;
        }
    }

    /// Switches wrapping on or off.
    pub fn toggle_wrap(&mut self)
        requires
            old(self)@.well_formed(),
        ensures
            final(self)@ == old(self)@.wrap_toggled(),
            final(self)@.well_formed(),
    {
        self.wrapping = !self.wrapping;
        if self.wrapping {
            self.horizontal_offset = 0;
        }
    }

    /// Whether long records wrap.
    pub fn is_wrapping(&self) -> (wrapping: bool)
        ensures
            wrapping == self@.wrapping,
    {
        self.wrapping
    }

    /// How far the viewport is scrolled to the right.
    pub fn horizontal_offset(&self) -> (offset: u16)
        ensures
            offset == self@.horizontal_offset,
    {
        self.horizontal_offset
    }

    /// Drops every record and starts over.
    pub fn clear(&mut self)
        requires
            old(self)@.well_formed(),
        ensures
            final(self)@ == old(self)@.cleared(),
            final(self)@.well_formed(),
    {
        self.lines.clear();
        self.dropped_lines = 0;
        self.truncated_lines = 0;
        self.offset_from_bottom = 0;
        self.following = true;
        self.horizontal_offset = 0;
        assert(self@.lines =~= Seq::<Seq<char>>::empty());
    }

    /// How many records there are.
    pub fn len(&self) -> (len: usize)
        ensures
            len == self@.lines.len(),
    {
        self.lines.len()
    }

    /// Whether there are no records.
    pub fn is_empty(&self) -> (empty: bool)
        ensures
            empty == (self@.lines.len() == 0),
    {
        self.lines.len() == 0
    }

    /// How many records were dropped.
    pub fn dropped_lines(&self) -> (count: u64)
        ensures
            count == self@.dropped_lines,
    {
        self.dropped_lines
    }

    /// How many cuts shortened a record.
    pub fn truncated_lines(&self) -> (count: u64)
        ensures
            count == self@.truncated_lines,
    {
        self.truncated_lines
    }
}

// ---------------------------------------------------------------------------
// Bounded records
// ---------------------------------------------------------------------------

/// The first position, not before `from`, that holds a line feed.
pub open spec fn line_feed(bytes: Seq<u8>, from: int) -> Option<int>
    decreases bytes.len() - from,
{
    if from < 0 || from >= bytes.len() {
        None
    } else if bytes[from] == 10u8 {
        Some(from)
    } else {
        line_feed(bytes, from + 1)
    }
}

/// What stands before the first line feed.
pub open spec fn line_content(bytes: Seq<u8>) -> Seq<u8> {
    match line_feed(bytes, 0) {
        Some(position) => bytes.take(position),
        None => bytes,
    }
}

proof fn lemma_line_feed(bytes: Seq<u8>, from: int)
    requires
        0 <= from,
    ensures
        match line_feed(bytes, from) {
            Some(position) => {
                &&& from <= position < bytes.len()
                &&& bytes[position] == 10u8
                &&& forall|other: int| from <= other < position ==> bytes[other] != 10u8
            },
            None => forall|other: int| from <= other < bytes.len() ==> bytes[other] != 10u8,
        },
    decreases bytes.len() - from,
{
    if from < bytes.len() && bytes[from] != 10u8 {
        lemma_line_feed(bytes, from + 1);
    }
}

proof fn lemma_line_feed_is_first(bytes: Seq<u8>, from: int, position: int)
    requires
        0 <= from <= position < bytes.len(),
        bytes[position] == 10u8,
        forall|other: int| from <= other < position ==> bytes[other] != 10u8,
    ensures
        line_feed(bytes, from) == Some(position),
    decreases position - from,
{
    if from < position {
        lemma_line_feed_is_first(bytes, from + 1, position);
    }
}

/// What a reader keeps of one record, and what it must remember of the rest.
pub struct BoundedLineView {
    /// The bytes kept.
    pub bytes: Seq<u8>,
    /// How many bytes are kept at most.
    pub max_bytes: nat,
    /// Whether any byte of the record was met.
    pub saw_bytes: bool,
    /// Whether bytes of the record were left out.
    pub truncated: bool,
}

impl BoundedLineView {
    /// What holds of every record being read.
    pub open spec fn well_formed(self) -> bool {
        &&& self.bytes.len() <= self.max_bytes
        &&& self.truncated ==> self.bytes.len() == self.max_bytes
    }

    /// The record behind the next bytes of the input.
    pub open spec fn fed(self, available: Seq<u8>) -> BoundedLineView {
        let content = self.bytes + line_content(available);
        BoundedLineView {
            bytes: content.take(least(content.len(), self.max_bytes) as int),
            saw_bytes: self.saw_bytes || available.len() > 0,
            truncated: self.truncated || content.len() > self.max_bytes,
            ..self
        }
    }

    /// The record's text and whether it was cut, or nothing at the end of the
    /// input.
    pub open spec fn finished(self) -> Option<(Seq<char>, bool)> {
        if self.saw_bytes {
            let kept = if self.bytes.len() > 0 && self.bytes.last() == 13u8 {
                self.bytes.drop_last()
            } else {
                self.bytes
            };
            Some((text::utf8_lossy(kept), self.truncated))
        } else {
            None
        }
    }
}

/// The record of which nothing has been read.
pub open spec fn fresh_line(max_bytes: nat) -> BoundedLineView {
    BoundedLineView { bytes: Seq::empty(), max_bytes, saw_bytes: false, truncated: false }
}

/// It does not matter where the input is cut into pieces: two pieces, the
/// first of which ends no record, read like one.
pub proof fn law_pieces_read_like_the_whole(
    line: BoundedLineView,
    first: Seq<u8>,
    second: Seq<u8>,
)
    requires
        line.well_formed(),
        line_feed(first, 0) is None,
    ensures
        line.fed(first).fed(second) == line.fed(first + second),
{
    let whole = first + second;
    lemma_line_feed(first, 0);
    lemma_line_feed(second, 0);
    lemma_line_feed(whole, 0);
    match line_feed(second, 0) {
        Some(position) => {
            lemma_line_feed_is_first(whole, 0, first.len() + position);
            assert(whole.take(first.len() + position) =~= first + second.take(position));
        },
        None => {
            if line_feed(whole, 0) is Some {
                let position = line_feed(whole, 0)->0;
                if position < first.len() {
                    assert(first[position] == 10u8);
                } else {
                    assert(second[position - first.len()] == 10u8);
                }
            }
        },
    }
    assert(line_content(whole) =~= first + line_content(second));
    let once = line.fed(whole);
    let twice = line.fed(first).fed(second);
    assert(twice.bytes =~= once.bytes);
}

/// A record is never kept longer than its bound, whatever arrives.
pub proof fn law_reading_keeps_the_bound(line: BoundedLineView, available: Seq<u8>)
    requires
        line.well_formed(),
    ensures
        line.fed(available).well_formed(),
{
}

/// What one piece of input did to a record.
#[derive(Clone, Copy, Debug, PartialEq, Eq, Structural)]
pub struct LineProgress {
    /// How many bytes of the piece belong to the record, its line feed
    /// included.
    pub consumed: usize,
    /// Whether the record ended in the piece.
    pub complete: bool,
}

/// One record while it is read, piece by piece, from buffered input.
#[derive(Debug)]
pub struct BoundedLine {
    bytes: Vec<u8>,
    max_bytes: usize,
    saw_bytes: bool,
    truncated: bool,
}

impl View for BoundedLine {
    type V = BoundedLineView;

    closed spec fn view(&self) -> BoundedLineView {
        BoundedLineView {
            bytes: self.bytes@,
            max_bytes: self.max_bytes as nat,
            saw_bytes: self.saw_bytes,
            truncated: self.truncated,
        }
    }
}

impl BoundedLine {
    /// A record of which nothing has been read.
    pub fn new(max_bytes: usize) -> (line: Self)
        ensures
            line@ == fresh_line(max_bytes as nat),
            line@.well_formed(),
    {
        BoundedLine { bytes: Vec::new(), max_bytes, saw_bytes: false, truncated: false }
    }

    /// Takes the next piece of the input.
    pub fn feed(&mut self, available: &[u8]) -> (progress: LineProgress)
        requires
            old(self)@.well_formed(),
        ensures
            final(self)@ == old(self)@.fed(available@),
            final(self)@.well_formed(),
            progress.complete == (line_feed(available@, 0) is Some),
            progress.consumed == match line_feed(available@, 0) {
                Some(position) => position + 1,
                None => available@.len() as int,
            },
    {
        let ghost before = self.bytes@;
        let mut content_len: usize = 0;
        while content_len < available.len() && available[content_len] != 10u8
            invariant
                content_len <= available@.len(),
                line_feed(available@, content_len as int) == line_feed(available@, 0),
            decreases available@.len() - content_len,
        {
            content_len += 1;
        }
        let complete = content_len < available.len();
        proof {
            assert(available@.take(available@.len() as int) =~= available@);
            assert(line_content(available@) =~= available@.take(content_len as int));
        }
        if available.len() > 0 {
            self.saw_bytes = true;
        }
        let remaining: usize = self.max_bytes - self.bytes.len();
        let retained: usize = if content_len <= remaining {
            content_len
        } else {
            remaining
        };
        let mut index: usize = 0;
        while index < retained
            invariant
                index <= retained <= content_len <= available@.len(),
                self.bytes@ == before + available@.take(index as int),
                self.max_bytes == old(self).max_bytes,
                self.truncated == old(self).truncated,
                self.saw_bytes == (old(self).saw_bytes || available@.len() > 0),
            decreases retained - index,
        {
            self.bytes.push(available[index]);
            proof {
                assert(available@.take(index + 1) =~= available@.take(index as int).push(
                    available@[index as int],
                ));
                assert(before + available@.take(index + 1) =~= (before + available@.take(
                    index as int,
                )).push(available@[index as int]));
            }
            index += 1;
        }
        if retained < content_len {
            self.truncated = true;
        }
        proof {
            let content = before + available@.take(content_len as int);
            assert(before + available@.take(retained as int) =~= content.take(
                least(content.len(), self.max_bytes as nat) as int,
            ));
        }
        LineProgress {
            consumed: if complete {
                content_len + 1
            } else {
                content_len
            },
            complete,
        }
    }

    /// The record's text and whether it was cut, or nothing at the end of the
    /// input.
    pub fn finish(self) -> (record: Option<(String, bool)>)
        ensures
            match record {
                Some((content, truncated)) => self@.finished() == Some((content@, truncated)),
                None => self@.finished() is None,
            },
    {
        if !self.saw_bytes {
            return None;
        }
        let mut bytes = self.bytes;
        if bytes.len() > 0 && bytes[bytes.len() - 1] == 13u8 {
            let _ = bytes.pop();
            assert(bytes@ =~= self.bytes@.drop_last());
        }
        Some((text::decode_lossy(bytes.as_slice()), self.truncated))
    }
}

// ---------------------------------------------------------------------------
// Streams
// ---------------------------------------------------------------------------

/// Which of Tilt's two kinds of output a stream carries.
#[derive(Clone, Copy, Debug, PartialEq, Eq, Structural)]
pub enum LogSource {
    /// What Tilt says while it builds.
    Build,
    /// What the service itself writes.
    Runtime,
}

impl LogSource {
    /// The name Tilt knows the source by.
    pub open spec fn name(self) -> Seq<char> {
        match self {
            LogSource::Build => "build"@,
            LogSource::Runtime => "runtime"@,
        }
    }

    /// What stands before each record of the source.
    pub open spec fn prefix(self) -> Seq<char> {
        match self {
            LogSource::Build => "tilt │ "@,
            LogSource::Runtime => "app │ "@,
        }
    }
}

/// A record as it is shown: behind the prefix of its source, if it has one.
pub open spec fn labelled(source: Option<LogSource>, line: Seq<char>) -> Seq<char> {
    match source {
        Some(source) => source.prefix() + line,
        None => line,
    }
}

/// The arguments that make Tilt follow the logs of a service.
pub open spec fn log_stream_words(
    service_name: Seq<char>,
    source: Option<LogSource>,
    port: u16,
) -> Seq<Seq<char>> {
    match source {
        Some(source) => seq![
            "logs"@,
            service_name,
            "--follow"@,
            "--source"@,
            source.name(),
            "--port"@,
            text::decimal(port as nat),
        ],
        None => seq![
            "logs"@,
            service_name,
            "--follow"@,
            "--port"@,
            text::decimal(port as nat),
        ],
    }
}

/// The arguments that make Tilt follow the logs of a service.
pub fn log_stream_args(service_name: &str, source: Option<LogSource>, port: u16) -> (args: Vec<
    String,
>)
    ensures
        text::texts(args@) == log_stream_words(service_name@, source, port),
{
    let port_text = text::decimal_text(port as u64);
    match source {
        Some(source) => {
            let name = match source {
                LogSource::Build => "build",
                LogSource::Runtime => "runtime",
            };
            let args = text::owned(
                vec!["logs", service_name, "--follow", "--source", name, "--port", port_text.as_str()],
            );
            assert(text::texts(args@) =~= log_stream_words(service_name@, Some(source), port));
            args
        },
        None => {
            let args = text::owned(
                vec!["logs", service_name, "--follow", "--port", port_text.as_str()],
            );
            assert(text::texts(args@) =~= log_stream_words(service_name@, None, port));
            args
        },
    }
}

/// What a reader hands to the scrollback.
#[derive(Debug)]
pub enum LogMessage {
    /// A record.
    Line { text: String, truncated: bool, stderr: bool },
    /// The reader reached the end of its pipe.
    ReaderClosed,
}

/// A message as mathematics has it.
pub enum LogMessageView {
    Line { text: Seq<char>, truncated: bool, stderr: bool },
    ReaderClosed,
}

impl View for LogMessage {
    type V = LogMessageView;

    open spec fn view(&self) -> LogMessageView {
        match self {
            LogMessage::Line { text, truncated, stderr } => LogMessageView::Line {
                text: text@,
                truncated: *truncated,
                stderr: *stderr,
            },
            LogMessage::ReaderClosed => LogMessageView::ReaderClosed,
        }
    }
}

/// How one attempt to read a record ended.
#[derive(Debug)]
pub enum ReadOutcome {
    /// With a record.
    Record { text: String, truncated: bool },
    /// At the end of the pipe.
    End,
    /// With an error.
    Failed { error: String },
}

/// The messages a reader sends for the outcome of one attempt, in order.
pub open spec fn messages_for(outcome: ReadOutcome, stderr: bool) -> Seq<LogMessageView> {
    match outcome {
        ReadOutcome::Record { text, truncated } => seq![
            LogMessageView::Line { text: text@, truncated, stderr },
        ],
        ReadOutcome::End => seq![LogMessageView::ReaderClosed],
        ReadOutcome::Failed { error } => seq![
            LogMessageView::Line {
                text: "log stream read error: "@ + error@,
                truncated: false,
                stderr: true,
            },
            LogMessageView::ReaderClosed,
        ],
    }
}

/// The messages a reader sends for the outcome of one attempt, and whether it
/// goes on reading.
pub fn reader_messages(outcome: ReadOutcome, stderr: bool) -> (result: (Vec<LogMessage>, bool))
    ensures
        crate::order::views(result.0@) == messages_for(outcome, stderr),
        result.1 == (outcome is Record),
{
    let ghost expected = messages_for(outcome, stderr);
    let mut messages: Vec<LogMessage> = Vec::new();
    match outcome {
        ReadOutcome::Record { text, truncated } => {
            messages.push(LogMessage::Line { text, truncated, stderr });
            assert(crate::order::views(messages@) =~= expected);
            (messages, true)
        },
        ReadOutcome::End => {
            messages.push(LogMessage::ReaderClosed);
            assert(crate::order::views(messages@) =~= expected);
            (messages, false)
        },
        ReadOutcome::Failed { error } => {
            let report = text::joined("log stream read error: ", error.as_str());
            messages.push(LogMessage::Line { text: report, truncated: false, stderr: true });
            messages.push(LogMessage::ReaderClosed);
            assert(crate::order::views(messages@) =~= expected);
            (messages, false)
        },
    }
}

/// What one look into the channel of a stream found.
#[derive(Debug)]
pub enum StreamEvent {
    /// A message.
    Message(LogMessage),
    /// That every reader is gone.
    Disconnected,
}

/// What one look into the channel of a stream found, as mathematics has it.
pub enum StreamEventView {
    Message(LogMessageView),
    Disconnected,
}

impl View for StreamEvent {
    type V = StreamEventView;

    open spec fn view(&self) -> StreamEventView {
        match self {
            StreamEvent::Message(message) => StreamEventView::Message(message@),
            StreamEvent::Disconnected => StreamEventView::Disconnected,
        }
    }
}

/// A stream as mathematics has it.
pub struct LogStreamView {
    /// Which output the stream carries, where it carries only one.
    pub source: Option<LogSource>,
    /// How many readers have not reached the end of their pipe.
    pub open_readers: nat,
    /// The last record read from the error pipe.
    pub last_error: Option<Seq<char>>,
}

/// A stream, a scrollback and the number of records handed over in one poll.
pub struct PollView {
    pub stream: LogStreamView,
    pub logs: LogBufferView,
    pub received: nat,
    /// Whether a disconnection ended the poll.
    pub ended: bool,
}

impl PollView {
    /// The poll behind one more event.
    pub open spec fn after(self, event: StreamEventView) -> PollView {
        if self.ended {
            self
        } else {
            match event {
                StreamEventView::Message(LogMessageView::Line { text, truncated, stderr }) => {
                    PollView {
                        stream: if stderr {
                            LogStreamView { last_error: Some(text), ..self.stream }
                        } else {
                            self.stream
                        },
                        logs: self.logs.received(labelled(self.stream.source, text), truncated),
                        received: self.received + 1,
                        ended: false,
                    }
                },
                StreamEventView::Message(LogMessageView::ReaderClosed) => PollView {
                    stream: LogStreamView {
                        open_readers: if self.stream.open_readers == 0 {
                            0
                        } else {
                            (self.stream.open_readers - 1) as nat
                        },
                        ..self.stream
                    },
                    ..self
                },
                StreamEventView::Disconnected => PollView {
                    stream: LogStreamView { open_readers: 0, ..self.stream },
                    ended: true,
                    ..self
                },
            }
        }
    }
}

/// A stream and a scrollback behind a number of events.
pub open spec fn polled(
    stream: LogStreamView,
    logs: LogBufferView,
    events: Seq<StreamEventView>,
) -> PollView
    decreases events.len(),
{
    if events.len() == 0 {
        PollView { stream, logs, received: 0, ended: false }
    } else {
        polled(stream, logs, events.drop_last()).after(events.last())
    }
}

/// How many events one poll takes of those it is asked to.
pub open spec fn batch(limit: nat) -> nat {
    least(limit, LOG_POLL_BATCH_SIZE as nat)
}

/// How many events one poll takes of those it is asked to.
pub fn poll_batch(limit: usize) -> (count: usize)
    ensures
        count == batch(limit as nat),
{
    limit.min(LOG_POLL_BATCH_SIZE)
}

/// A followed log, apart from its process and its pipes.
#[derive(Debug)]
pub struct TiltLogStream {
    source: Option<LogSource>,
    open_readers: usize,
    last_error: Option<String>,
}

impl View for TiltLogStream {
    type V = LogStreamView;

    closed spec fn view(&self) -> LogStreamView {
        LogStreamView {
            source: self.source,
            open_readers: self.open_readers as nat,
            last_error: match self.last_error {
                Some(error) => Some(error@),
                None => None,
            },
        }
    }
}

impl TiltLogStream {
    /// A stream whose two pipes have just been opened.
    pub fn new(source: Option<LogSource>) -> (stream: Self)
        ensures
            stream@ == (LogStreamView { source, open_readers: 2, last_error: None }),
    {
        TiltLogStream { source, open_readers: 2, last_error: None }
    }

    /// Hands the records among the first events to a scrollback, and says how
    /// many there were.
    pub fn poll_into(
        &mut self,
        logs: &mut LogBuffer,
        events: &Vec<StreamEvent>,
        limit: usize,
    ) -> (received: usize)
        requires
            old(logs)@.well_formed(),
        ensures
            ({
                let count = least(events@.len(), batch(limit as nat)) as int;
                let poll = polled(
                    old(self)@,
                    old(logs)@,
                    crate::order::views(events@).take(count),
                );
                &&& final(self)@ == poll.stream
                &&& final(logs)@ == poll.logs
                &&& received == poll.received
            }),
            final(logs)@.well_formed(),
    {
        let ghost all = crate::order::views(events@);
        let ghost first_stream = self@;
        let ghost first_logs = logs@;
        let count: usize = poll_batch(limit).min(events.len());
        let mut received: usize = 0;
        let mut index: usize = 0;
        let mut ended = false;
        assert(all.take(0) =~= Seq::<StreamEventView>::empty());
        while index < count
            invariant
                index <= count <= events@.len(),
                received <= index,
                all == crate::order::views(events@),
                logs@.well_formed(),
                polled(first_stream, first_logs, all.take(index as int)) == (PollView {
                    stream: self@,
                    logs: logs@,
                    received: received as nat,
                    ended,
                }),
            decreases count - index,
        {
            proof {
                assert(all.take(index + 1).drop_last() =~= all.take(index as int));
                assert(all.take(index + 1).last() == events@[index as int]@);
            }
            if !ended {
                match &events[index] {
                    StreamEvent::Message(LogMessage::Line { text, truncated, stderr }) => {
                        if *stderr {
                            self.last_error = Some(text.clone());
                        }
                        let shown = match self.source {
                            Some(LogSource::Build) => text::joined("tilt │ ", text.as_str()),
                            Some(LogSource::Runtime) => text::joined("app │ ", text.as_str()),
                            None => text.clone(),
                        };
                        logs.push_received(shown.as_str(), *truncated);
                        received += 1;
                    },
                    StreamEvent::Message(LogMessage::ReaderClosed) => {
                        self.open_readers = self.open_readers.saturating_sub(1);
                    },
                    StreamEvent::Disconnected => {
                        self.open_readers = 0;
                        ended = true;
                    },
                }
            }
            index += 1;
        }
        received
    }

    /// Whether the stream still runs, given whether its process has exited.
    pub fn is_running(&self, exited: bool) -> (running: bool)
        ensures
            running == (self@.open_readers > 0 && !exited),
    {
        self.open_readers != 0 && !exited
    }

    /// The last record read from the error pipe.
    pub fn last_error(&self) -> (error: Option<&str>)
        ensures
            match error {
                Some(found) => self@.last_error == Some(found@),
                None => self@.last_error is None,
            },
    {
        match &self.last_error {
            Some(error) => Some(error.as_str()),
            None => None,
        }
    }
}

// ---------------------------------------------------------------------------
// Laws of the scrollback
// ---------------------------------------------------------------------------

/// A scrollback keeps two thousand records of eight kibibytes each, unless told
/// otherwise. A hundred and twenty-eight records may wait for it, and one look
/// takes two hundred and fifty-six at most.
pub proof fn law_scrollbacks_are_bounded_as_promised(limit: nat)
    ensures
        DEFAULT_MAX_LOG_LINES == 2000,
        DEFAULT_MAX_LOG_LINE_BYTES == 8 * 1024,
        LOG_CHANNEL_CAPACITY == 128,
        batch(limit) <= limit && batch(limit) <= 256,
        batch(limit) == limit || batch(limit) == 256,
{
}

/// A new scrollback is empty, follows and wraps.
pub proof fn law_scrollbacks_begin_following(max_lines: nat, max_line_bytes: nat)
    ensures
        ({
            let view = empty_scrollback(max_lines, max_line_bytes);
            &&& view.lines.len() == 0
            &&& view.max_lines == max_lines && view.max_line_bytes == max_line_bytes
            &&& view.dropped_lines == 0 && view.truncated_lines == 0
            &&& view.following && view.wrapping
            &&& view.offset_from_bottom == 0 && view.horizontal_offset == 0
        }),
{
}

/// A record that arrives is the newest. The others stay in their order; where
/// the scrollback is full, the oldest makes room, and that is counted.
pub proof fn law_records_arrive_behind_the_others(
    view: LogBufferView,
    line: Seq<char>,
    cut: bool,
)
    requires
        view.well_formed(),
    ensures
        ({
            let after = view.received(line, cut);
            let full = view.lines.len() == view.max_lines;
            &&& after.max_lines == view.max_lines && after.max_line_bytes == view.max_line_bytes
            &&& after.following == view.following && after.wrapping == view.wrapping
            &&& after.horizontal_offset == view.horizontal_offset
            &&& view.max_lines > 0 ==> after.lines.len() > 0 && after.lines.last() == view.kept(
                line,
            )
            &&& view.max_lines > 0 && !full ==> after.lines.drop_last() == view.lines
            &&& view.max_lines > 0 && full ==> after.lines.drop_last() == view.lines.skip(1)
            &&& view.max_lines == 0 ==> after.lines == view.lines
            &&& view.following ==> after.offset_from_bottom == 0
            &&& full && view.dropped_lines < u64::MAX ==> after.dropped_lines == view.dropped_lines
                + 1
            &&& !full ==> after.dropped_lines == view.dropped_lines
        }),
{
    let after = view.received(line, cut);
    if view.max_lines > 0 {
        if view.lines.len() == view.max_lines {
            assert(after.lines.drop_last() =~= view.lines.skip(1));
        } else {
            assert(after.lines.drop_last() =~= view.lines);
        }
    }
}

/// Of a record is kept what is left of it without line ends and terminal
/// sequences, as far as its bytes fit: what fits is kept whole, and of what does
/// not fit, no character more would. Each cut is counted, that of the reader
/// and that of the scrollback.
pub proof fn law_records_are_kept_as_far_as_they_fit(
    view: LogBufferView,
    line: Seq<char>,
    cut: bool,
)
    requires
        view.max_lines > 0,
        view.truncated_lines + 2 <= u64::MAX,
    ensures
        ({
            let plain = plain_text(text::trimmed_end(line, CharClass::LineEnd));
            let bytes = vstd::utf8::encode_utf8(plain).len();
            let kept = view.kept(line);
            let after = view.received(line, cut);
            &&& bytes <= view.max_line_bytes ==> kept == plain
            &&& bytes > view.max_line_bytes ==> {
                &&& kept.len() < plain.len()
                &&& kept == plain.take(kept.len() as int)
                &&& vstd::utf8::encode_utf8(kept).len() <= view.max_line_bytes
                &&& vstd::utf8::encode_utf8(plain.take(kept.len() as int + 1)).len()
                    > view.max_line_bytes
            }
            &&& after.truncated_lines == view.truncated_lines + (if cut {
                1int
            } else {
                0
            }) + (if bytes > view.max_line_bytes {
                1int
            } else {
                0
            })
        }),
{
    let plain = plain_text(text::trimmed_end(line, CharClass::LineEnd));
    let kept = view.kept(line);
    text::lemma_prefix_fitting(plain, view.max_line_bytes);
    if text::encoded_len(plain) > view.max_line_bytes {
        if kept.len() == plain.len() {
            assert(kept =~= plain);
        }
        assert(kept =~= plain.take(kept.len() as int));
        assert(text::encoded_len(plain.take(kept.len() as int + 1)) > view.max_line_bytes);
    }
}

/// What is in view are the records that end where the viewport does, as many as
/// it has rows, or all of them where there are fewer.
pub proof fn law_viewports_show_what_ends_where_they_do(view: LogBufferView, height: nat)
    requires
        view.well_formed(),
    ensures
        ({
            let end = view.lines.len() - view.offset_from_bottom;
            let shown = view.visible(height);
            &&& shown.len() == least(height, end as nat)
            &&& forall|i: int|
                0 <= i < shown.len() ==> #[trigger] shown[i] == view.lines[end - shown.len() + i]
        }),
{
}

/// Up and down move by one record, pages by as many as asked, Home to the
/// oldest and End to the newest, no further than a page of records allows. The
/// viewport follows exactly where it reaches the newest.
pub proof fn law_moves_go_by_records(view: LogBufferView, page_size: nat)
    requires
        view.well_formed(),
        0 < page_size <= view.lines.len(),
        view.offset_from_bottom <= view.lines.len() - page_size,
    ensures
        ({
            let top = view.lines.len() - page_size;
            let from = view.offset_from_bottom;
            let to = |navigation: LogNavigation|
                view.navigated(navigation, page_size).offset_from_bottom;
            &&& from < top ==> to(LogNavigation::Up) == from + 1
            &&& from == top ==> to(LogNavigation::Up) == top
            &&& from > 0 ==> to(LogNavigation::Down) == from - 1
            &&& from == 0 ==> to(LogNavigation::Down) == 0
            &&& from + page_size <= top ==> to(LogNavigation::PageUp) == from + page_size
            &&& from + page_size > top ==> to(LogNavigation::PageUp) == top
            &&& from >= page_size ==> to(LogNavigation::PageDown) == from - page_size
            &&& from < page_size ==> to(LogNavigation::PageDown) == 0
            &&& to(LogNavigation::Home) == top
            &&& to(LogNavigation::End) == 0
        }),
{
}

/// A move through the records leaves the records as they are, and the viewport
/// follows exactly where it ends at the newest.
pub proof fn law_moves_follow_where_they_reach_the_newest(
    view: LogBufferView,
    navigation: LogNavigation,
    page_size: nat,
)
    requires
        navigation != LogNavigation::Left,
        navigation != LogNavigation::Right,
    ensures
        ({
            let after = view.navigated(navigation, page_size);
            &&& after.following <==> after.offset_from_bottom == 0
            &&& after == (LogBufferView {
                offset_from_bottom: after.offset_from_bottom,
                following: after.following,
                ..view
            })
        }),
{
}

/// Left and right move by one column, but not while records wrap, and move
/// nothing else.
pub proof fn law_sideways_moves_go_by_columns(view: LogBufferView, page_size: nat)
    ensures
        ({
            let left = view.navigated(LogNavigation::Left, page_size);
            let right = view.navigated(LogNavigation::Right, page_size);
            let column = view.horizontal_offset;
            &&& view.wrapping ==> left == view && right == view
            &&& !view.wrapping && column > 0 ==> left == (LogBufferView {
                horizontal_offset: (column - 1) as nat,
                ..view
            })
            &&& !view.wrapping && column == 0 ==> left == view
            &&& !view.wrapping && column < u16::MAX ==> right == (LogBufferView {
                horizontal_offset: column + 1,
                ..view
            })
            &&& !view.wrapping && column >= u16::MAX ==> right == view
        }),
{
}

/// Switching following on goes to the newest record; switching it off leaves
/// the viewport where it is. Nothing else changes.
pub proof fn law_following_switches(view: LogBufferView)
    requires
        view.well_formed(),
    ensures
        view.following ==> view.follow_toggled() == (LogBufferView { following: false, ..view }),
        !view.following ==> view.follow_toggled() == (LogBufferView {
            following: true,
            offset_from_bottom: 0,
            ..view
        }),
{
}

/// Switching wrapping on goes back to the first column; switching it off leaves
/// the viewport where it is. Nothing else changes.
pub proof fn law_wrapping_switches(view: LogBufferView)
    requires
        view.well_formed(),
    ensures
        view.wrapping ==> view.wrap_toggled() == (LogBufferView { wrapping: false, ..view }),
        !view.wrapping ==> view.wrap_toggled() == (LogBufferView {
            wrapping: true,
            horizontal_offset: 0,
            ..view
        }),
{
}

/// Clearing drops the records and the counts, and begins to follow again.
/// Limits and wrapping stay.
pub proof fn law_clearing_starts_over(view: LogBufferView)
    ensures
        view.cleared() == (LogBufferView {
            wrapping: view.wrapping,
            ..empty_scrollback(view.max_lines, view.max_line_bytes)
        }),
{
}

/// A scrollback holds no more records than it may, none of them longer than it
/// may be and none with an escape. While it follows, the newest record is at the
/// bottom; while it wraps, nothing is scrolled to the side.
pub proof fn law_scrollbacks_hold_what_they_may(view: LogBufferView, place: int)
    requires
        view.well_formed(),
    ensures
        view.lines.len() <= view.max_lines,
        view.offset_from_bottom <= view.lines.len(),
        view.following ==> view.offset_from_bottom == 0,
        view.wrapping ==> view.horizontal_offset == 0,
        0 <= place < view.lines.len() ==> text::encoded_len(view.lines[place])
            <= view.max_line_bytes,
        0 <= place < view.lines.len() ==> !view.lines[place].contains('\u{1b}'),
{
}

// ---------------------------------------------------------------------------
// Laws of the streams
// ---------------------------------------------------------------------------

/// A record ends at the first line feed, and what stands before it is kept as
/// far as there is room. A carriage return before the line feed is no part of
/// it.
pub proof fn law_records_end_at_line_feeds(
    max_bytes: nat,
    content: Seq<u8>,
    rest: Seq<u8>,
)
    requires
        forall|i: int| 0 <= i < content.len() ==> #[trigger] content[i] != 10u8,
        content.len() <= max_bytes,
    ensures
        ({
            let whole = content + seq![10u8] + rest;
            let line = fresh_line(max_bytes).fed(whole);
            &&& line_feed(whole, 0) == Some(content.len() as int)
            &&& line.bytes == content
            &&& line.saw_bytes && !line.truncated
            &&& content.len() == 0 || content[content.len() - 1] != 13u8 ==> line.finished()
                == Some((text::utf8_lossy(content), false))
            &&& content.len() > 0 && content[content.len() - 1] == 13u8 ==> line.finished()
                == Some((text::utf8_lossy(content.take(content.len() - 1)), false))
        }),
        fresh_line(max_bytes).finished() is None,
{
    let whole = content + seq![10u8] + rest;
    assert forall|i: int| 0 <= i < content.len() implies whole[i] != 10u8 by {
        assert(whole[i] == content[i]);
    }
    lemma_line_feed_is_first(whole, 0, content.len() as int);
    assert(whole.take(content.len() as int) =~= content);
    let line = fresh_line(max_bytes).fed(whole);
    assert(line.bytes =~= content);
    if content.len() > 0 {
        assert(content.drop_last() =~= content.take(content.len() - 1));
    }
}

/// Of a record that is too long, the beginning is kept, as many bytes as there
/// is room for, and that it was cut is remembered.
pub proof fn law_long_records_are_cut(max_bytes: nat, content: Seq<u8>)
    requires
        forall|i: int| 0 <= i < content.len() ==> #[trigger] content[i] != 10u8,
        content.len() > max_bytes,
    ensures
        ({
            let line = fresh_line(max_bytes).fed(content);
            &&& line.bytes == content.take(max_bytes as int)
            &&& line.truncated
            &&& line.finished() matches Some((_, cut)) && cut
        }),
{
    lemma_line_feed(content, 0);
    let line = fresh_line(max_bytes).fed(content);
    assert(line.bytes =~= content.take(max_bytes as int));
}

/// Where no bytes come, a record stays as it is, so that an input that ends
/// before anything was read of a record gives none. Any byte makes a record, a
/// line feed alone an empty one.
pub proof fn law_records_need_bytes(line: BoundedLineView, available: Seq<u8>)
    requires
        line.well_formed(),
    ensures
        available.len() == 0 ==> line.fed(available) == line,
        available.len() > 0 ==> line.fed(available).finished() is Some,
        line.fed(available).max_bytes == line.max_bytes,
        line.fed(seq![10u8]).bytes == line.bytes,
{
    lemma_line_feed(available, 0);
    lemma_line_feed(seq![10u8], 0);
    if available.len() == 0 {
        assert(line.bytes + line_content(available) =~= line.bytes);
        assert(line.bytes.take(line.bytes.len() as int) =~= line.bytes);
    }
    lemma_line_feed_is_first(seq![10u8], 0, 0);
    assert(line_content(seq![10u8]) =~= Seq::<u8>::empty());
    assert(line.bytes + line_content(seq![10u8]) =~= line.bytes);
    assert(line.bytes.take(line.bytes.len() as int) =~= line.bytes);
}

/// Tilt's own output is shown behind "tilt", that of the service behind "app",
/// and where the two are not told apart, a record is shown as it is.
pub proof fn law_records_tell_where_they_come_from(line: Seq<char>)
    ensures
        labelled(Some(LogSource::Build), line) == "tilt │ "@ + line,
        labelled(Some(LogSource::Runtime), line) == "app │ "@ + line,
        labelled(None, line) == line,
{
}

/// Tilt is told to follow the logs of the service, of the source where there is
/// one, on the port.
pub proof fn law_logs_are_followed_by_service_source_and_port(
    service_name: Seq<char>,
    port: u16,
)
    ensures
        ({
            let what = seq!["logs"@, service_name, "--follow"@];
            let place = seq!["--port"@, text::decimal(port as nat)];
            &&& log_stream_words(service_name, None, port) == what + place
            &&& log_stream_words(service_name, Some(LogSource::Build), port) == what + seq![
                "--source"@,
                "build"@,
            ] + place
            &&& log_stream_words(service_name, Some(LogSource::Runtime), port) == what + seq![
                "--source"@,
                "runtime"@,
            ] + place
        }),
{
    let what = seq!["logs"@, service_name, "--follow"@];
    let place = seq!["--port"@, text::decimal(port as nat)];
    assert(log_stream_words(service_name, None, port) =~= what + place);
    assert(log_stream_words(service_name, Some(LogSource::Build), port) =~= what + seq![
        "--source"@,
        "build"@,
    ] + place);
    assert(log_stream_words(service_name, Some(LogSource::Runtime), port) =~= what + seq![
        "--source"@,
        "runtime"@,
    ] + place);
}

/// A reader hands over each record as it is, says when it is at the end, and
/// before that tells of an error, as something that came from the error pipe.
pub proof fn law_readers_tell_how_they_end(
    content: String,
    error: String,
    cut: bool,
    stderr: bool,
)
    ensures
        messages_for(ReadOutcome::Record { text: content, truncated: cut }, stderr) == seq![
            LogMessageView::Line { text: content@, truncated: cut, stderr },
        ],
        messages_for(ReadOutcome::End, stderr) == seq![LogMessageView::ReaderClosed],
        messages_for(ReadOutcome::Failed { error }, stderr) == seq![
            LogMessageView::Line {
                text: "log stream read error: "@ + error@,
                truncated: false,
                stderr: true,
            },
            LogMessageView::ReaderClosed,
        ],
{
}

/// A record that a stream hands over goes to the scrollback behind its source,
/// cut as it was, and is counted; the last one from the error pipe is
/// remembered. A reader at its end is one less, and a stream without readers
/// takes nothing more.
pub proof fn law_events_reach_the_scrollback(
    poll: PollView,
    content: Seq<char>,
    cut: bool,
    stderr: bool,
    event: StreamEventView,
)
    ensures
        poll.ended ==> poll.after(event) == poll,
        !poll.ended ==> {
            let after = poll.after(
                StreamEventView::Message(
                    LogMessageView::Line { text: content, truncated: cut, stderr },
                ),
            );
            &&& after.logs == poll.logs.received(labelled(poll.stream.source, content), cut)
            &&& after.received == poll.received + 1
            &&& !after.ended
            &&& after.stream.open_readers == poll.stream.open_readers
            &&& after.stream.source == poll.stream.source
            &&& stderr ==> after.stream.last_error == Some(content)
            &&& !stderr ==> after.stream.last_error == poll.stream.last_error
        },
        !poll.ended ==> {
            let after = poll.after(StreamEventView::Message(LogMessageView::ReaderClosed));
            &&& after.logs == poll.logs && after.received == poll.received && !after.ended
            &&& poll.stream.open_readers > 0 ==> after.stream.open_readers
                == poll.stream.open_readers - 1
            &&& poll.stream.open_readers == 0 ==> after.stream.open_readers == 0
            &&& after.stream.last_error == poll.stream.last_error
        },
        !poll.ended ==> {
            let after = poll.after(StreamEventView::Disconnected);
            &&& after.logs == poll.logs && after.received == poll.received && after.ended
            &&& after.stream.open_readers == 0
            &&& after.stream.last_error == poll.stream.last_error
        },
{
}

/// Events are taken one after another, in the order they came.
pub proof fn law_events_are_taken_in_order(
    stream: LogStreamView,
    logs: LogBufferView,
    events: Seq<StreamEventView>,
    event: StreamEventView,
)
    ensures
        polled(stream, logs, Seq::empty()) == (PollView {
            stream,
            logs,
            received: 0,
            ended: false,
        }),
        polled(stream, logs, events.push(event)) == polled(stream, logs, events).after(event),
{
    assert(events.push(event).drop_last() =~= events);
}

/// The state behind an escape character tells what is removed: up to a final
/// character behind a bracket, up to a bell or a terminator behind a closing
/// bracket, up to a terminator in a control string, and one character otherwise,
/// unless that says that the sequence goes on.
pub proof fn law_escapes_open_sequences(character: char)
    ensures
        ({
            let code = character as u32;
            let next = EscapeState::Escape.after(character);
            &&& EscapeState::Text.after('\u{1b}') == EscapeState::Escape
            &&& code != 27 ==> EscapeState::Text.after(character) == EscapeState::Text
            &&& code != 27 <==> EscapeState::Text.shows(character)
            &&& code == 27 ==> next == EscapeState::Escape
            &&& code == 91 ==> next == EscapeState::ControlSequence
            &&& code == 93 ==> next == EscapeState::OperatingSystemCommand
            &&& code == 80 || code == 88 || code == 94 || code == 95 ==> next
                == EscapeState::ControlString
            &&& 32 <= code <= 47 ==> next == EscapeState::EscapeSequence
            &&& code != 27 && code != 91 && code != 93 && code != 80 && code != 88 && code != 94
                && code != 95 && !(32 <= code <= 47) ==> next == EscapeState::Text
            &&& 64 <= code <= 126 <==> EscapeState::ControlSequence.after(character)
                == EscapeState::Text
            &&& 48 <= code <= 126 <==> EscapeState::EscapeSequence.after(character)
                == EscapeState::Text
            &&& code == 7 <==> EscapeState::OperatingSystemCommand.after(character)
                == EscapeState::Text
            &&& code == 92 <==> EscapeState::OperatingSystemEscape.after(character)
                == EscapeState::Text
            &&& code == 92 <==> EscapeState::ControlStringEscape.after(character)
                == EscapeState::Text
            &&& EscapeState::ControlString.after(character) != EscapeState::Text
        }),
{
}

} // verus!
