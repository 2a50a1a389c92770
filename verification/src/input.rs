//! Turning key presses into commands: numeric prefixes, two-key chords
//! and the line editors of the search and command modes.

use vstd::prelude::*;
use crate::commands::Command;
use crate::unicode::{chars_of, clipped, str_trim, string_from_chars, trimmed, utf8_len, utf8_offset};

verus! {

/// How far one press of a pan key moves the viewport: a tenth of the way.
pub const PAN_STEP: i32 = 100_000;

/// The most commands the history of the command mode keeps.
pub const COMMAND_HISTORY_LIMIT: usize = 100;

/// The zoom factor of one press of the zoom-in key, in thousandths.
pub const ZOOM_IN: u32 = 1100;

/// The zoom factor of one press of the zoom-out key, in thousandths.
pub const ZOOM_OUT: u32 = 900;

/// The keys that the engine tells apart.
#[derive(Debug, Clone, Copy, PartialEq, Eq, Structural)]
pub enum KeyCode {
    Char(char),
    Left,
    Right,
    Up,
    Down,
    Home,
    End,
    Tab,
    Enter,
    Esc,
    Backspace,
    Other,
}

/// The modifier keys held with a key, one bit each.
#[derive(Debug, Clone, Copy, PartialEq, Eq, Structural)]
pub struct KeyModifiers {
    pub bits: u8,
}

/// No modifier key.
pub const MOD_NONE: u8 = 0;

/// The shift key.
pub const MOD_SHIFT: u8 = 1;

/// The control key.
pub const MOD_CONTROL: u8 = 2;

/// The alt key.
pub const MOD_ALT: u8 = 4;

impl KeyModifiers {
    /// No modifier key.
    pub open spec fn none(self) -> bool {
        self.bits == 0
    }

    /// The shift key and no other.
    pub open spec fn shift_only(self) -> bool {
        self.bits == 1
    }

    /// No modifier key, or the shift key alone.
    pub open spec fn plain(self) -> bool {
        self.bits == 0 || self.bits == 1
    }

    /// The control key, with or without others.
    pub open spec fn control(self) -> bool {
        self.bits & 2 == 2
    }

    /// Whether no modifier key is held.
    pub fn is_empty(&self) -> (r: bool)
        ensures
            r == self.none(),
    {
        self.bits == 0
    }

    /// Whether the shift key and no other is held.
    pub fn is_shift(&self) -> (r: bool)
        ensures
            r == self.shift_only(),
    {
        self.bits == 1
    }

    /// Whether no key or the shift key alone is held.
    pub fn is_plain(&self) -> (r: bool)
        ensures
            r == self.plain(),
    {
        self.bits == 0 || self.bits == 1
    }

    /// Whether the control key is held.
    pub fn has_control(&self) -> (r: bool)
        ensures
            r == self.control(),
    {
        self.bits & 2 == 2
    }
}

/// A key press.
#[derive(Debug, Clone, Copy, PartialEq, Eq, Structural)]
pub struct KeyInput {
    pub code: KeyCode,
    pub modifiers: KeyModifiers,
}

/// What the terminal reports.
#[derive(Debug, Clone, Copy, PartialEq, Eq, Structural)]
pub enum InputEvent {
    Key(KeyInput),
    Other,
}

/// What a key press asks for.
#[derive(Debug)]
pub enum UiEvent {
    Command(Command),
    OpenTableOfContents,
    CloseOverlay,
    TocMoveSelection { delta: isize },
    TocBeginSearch,
    TocSearchQueryChanged { query: String },
    TocSearchSubmit { query: String },
    TocSearchCancel,
    TocSearchNext { count: usize },
    TocSearchPrev { count: usize },
    TocGotoStart,
    TocGotoEnd,
    TocActivateSelection,
    BeginSearch,
    SearchQueryChanged { query: String },
    SearchSubmit { query: String },
    SearchCancel,
    CommandModeBegin { buffer: String, cursor: usize },
    CommandModeChanged { buffer: String, cursor: usize },
    CommandModeSubmit { command: String },
    CommandModeCancel,
    Quit,
    /// The key asks for nothing.
    Nothing,
}

/// A `UiEvent` with its texts as sequences of characters.
pub enum UiEventView {
    Command(Command),
    OpenTableOfContents,
    CloseOverlay,
    TocMoveSelection { delta: isize },
    TocBeginSearch,
    TocSearchQueryChanged { query: Seq<char> },
    TocSearchSubmit { query: Seq<char> },
    TocSearchCancel,
    TocSearchNext { count: usize },
    TocSearchPrev { count: usize },
    TocGotoStart,
    TocGotoEnd,
    TocActivateSelection,
    BeginSearch,
    SearchQueryChanged { query: Seq<char> },
    SearchSubmit { query: Seq<char> },
    SearchCancel,
    CommandModeBegin { buffer: Seq<char>, cursor: usize },
    CommandModeChanged { buffer: Seq<char>, cursor: usize },
    CommandModeSubmit { command: Seq<char> },
    CommandModeCancel,
    Quit,
    /// The key asks for nothing.
    Nothing,
}

impl View for UiEvent {
    type V = UiEventView;

    open spec fn view(&self) -> UiEventView {
        match *self {
            UiEvent::Command(command) => UiEventView::Command(command),
            UiEvent::OpenTableOfContents => UiEventView::OpenTableOfContents,
            UiEvent::CloseOverlay => UiEventView::CloseOverlay,
            UiEvent::TocMoveSelection { delta } => UiEventView::TocMoveSelection { delta },
            UiEvent::TocBeginSearch => UiEventView::TocBeginSearch,
            UiEvent::TocSearchQueryChanged { query } => UiEventView::TocSearchQueryChanged {
                query: query@,
            },
            UiEvent::TocSearchSubmit { query } => UiEventView::TocSearchSubmit { query: query@ },
            UiEvent::TocSearchCancel => UiEventView::TocSearchCancel,
            UiEvent::TocSearchNext { count } => UiEventView::TocSearchNext { count },
            UiEvent::TocSearchPrev { count } => UiEventView::TocSearchPrev { count },
            UiEvent::TocGotoStart => UiEventView::TocGotoStart,
            UiEvent::TocGotoEnd => UiEventView::TocGotoEnd,
            UiEvent::TocActivateSelection => UiEventView::TocActivateSelection,
            UiEvent::BeginSearch => UiEventView::BeginSearch,
            UiEvent::SearchQueryChanged { query } => UiEventView::SearchQueryChanged {
                query: query@,
            },
            UiEvent::SearchSubmit { query } => UiEventView::SearchSubmit { query: query@ },
            UiEvent::SearchCancel => UiEventView::SearchCancel,
            UiEvent::CommandModeBegin { buffer, cursor } => UiEventView::CommandModeBegin {
                buffer: buffer@,
                cursor,
            },
            UiEvent::CommandModeChanged { buffer, cursor } => UiEventView::CommandModeChanged {
                buffer: buffer@,
                cursor,
            },
            UiEvent::CommandModeSubmit { command } => UiEventView::CommandModeSubmit {
                command: command@,
            },
            UiEvent::CommandModeCancel => UiEventView::CommandModeCancel,
            UiEvent::Quit => UiEventView::Quit,
            UiEvent::Nothing => UiEventView::Nothing,
        }
    }
}

/// What the keys mean at the moment.
#[derive(Debug, Clone, Copy, PartialEq, Eq, Structural)]
pub enum InputMode {
    Normal,
    Toc,
    TocSearch,
    Search,
    Link,
    Command,
}

impl Default for InputMode {
    fn default() -> (r: Self)
        ensures
            r == InputMode::Normal,
    {
        InputMode::Normal
    }
}

/// The digit that the character `c` stands for.
pub open spec fn digit_of(c: char) -> Option<usize> {
    if '0' <= c && c <= '9' {
        Some((c as u32 - 48) as usize)
    } else {
        None
    }
}

/// The character of the digit `digit`.
pub open spec fn digit_char(digit: usize) -> Option<char> {
    if digit < 10 {
        Some((48 + digit) as u8 as char)
    } else {
        None
    }
}

/// `count * 10 + digit`, or the largest count where that is beyond it.
pub open spec fn with_digit(count: usize, digit: usize) -> usize {
    if count * 10 + digit > usize::MAX {
        usize::MAX
    } else {
        (count * 10 + digit) as usize
    }
}

/// A pan step taken `count` times, kept in the range of a delta.
pub open spec fn pan_delta(step: int, count: usize) -> i32 {
    if step * count > i32::MAX {
        i32::MAX
    } else if step * count < i32::MIN {
        i32::MIN
    } else {
        (step * count) as i32
    }
}

/// A count as a signed number: the largest one where it is beyond that.
pub open spec fn as_signed(count: usize) -> isize {
    if count > isize::MAX {
        isize::MAX
    } else {
        count as isize
    }
}

/// What an `EventMapper` holds.
pub struct MapperView {
    /// The numeric prefix typed so far.
    pub pending_count: Option<usize>,
    /// The digits of the prefix as typed.
    pub pending_digits: Seq<char>,
    /// The first key of a two-key chord.
    pub char_stack: Seq<char>,
    pub mode: InputMode,
    pub search_buffer: Seq<char>,
    pub toc_search_buffer: Seq<char>,
    pub command_buffer: Seq<char>,
    /// How many characters of the command line stand before the cursor.
    pub command_cursor: usize,
    /// The commands entered before, oldest first.
    pub command_history: Seq<Seq<char>>,
    /// Which entry of the history is shown, if any.
    pub command_history_index: Option<usize>,
    /// The line that was being typed when the history was opened.
    pub command_draft: Seq<char>,
}

impl MapperView {
    /// What holds of every mapper: the cursor stands in the command
    /// line, and the history entry shown exists.
    pub open spec fn wf(self) -> bool {
        &&& self.command_cursor <= self.command_buffer.len()
        &&& self.command_history_index matches Some(i) ==> i < self.command_history.len()
    }

    /// The state of a new mapper.
    pub open spec fn initial() -> Self {
        MapperView {
            pending_count: None,
            pending_digits: Seq::empty(),
            char_stack: Seq::empty(),
            mode: InputMode::Normal,
            search_buffer: Seq::empty(),
            toc_search_buffer: Seq::empty(),
            command_buffer: Seq::empty(),
            command_cursor: 0,
            command_history: Seq::empty(),
            command_history_index: None,
            command_draft: Seq::empty(),
        }
    }

    /// The state without a numeric prefix.
    pub open spec fn reset_count(self) -> Self {
        MapperView { pending_count: None, pending_digits: Seq::empty(), ..self }
    }

    /// The state without the first key of a chord.
    pub open spec fn reset_char_stack(self) -> Self {
        MapperView { char_stack: Seq::empty(), ..self }
    }

    /// The state with an empty command line and the history closed.
    pub open spec fn reset_command_input(self) -> Self {
        MapperView {
            command_buffer: Seq::empty(),
            command_cursor: 0,
            command_history_index: None,
            command_draft: Seq::empty(),
            ..self
        }
    }

    /// The buffers of `mode` emptied.
    pub open spec fn cleared_for(self, mode: InputMode) -> Self {
        match mode {
            InputMode::Search => MapperView { search_buffer: Seq::empty(), ..self },
            InputMode::TocSearch => MapperView { toc_search_buffer: Seq::empty(), ..self },
            InputMode::Command => self.reset_command_input(),
            _ => self,
        }
    }

    /// A change of mode drops the prefix, the chord and the line of the
    /// mode left and of the mode entered; setting the mode in use
    /// changes nothing.
    pub open spec fn set_mode(self, mode: InputMode) -> Self {
        if self.mode == mode {
            self
        } else {
            let left = self.cleared_for(self.mode).reset_count().reset_char_stack();
            (MapperView { mode, ..left }).cleared_for(mode)
        }
    }

    /// The state with one more digit of the numeric prefix; the count
    /// stops at the largest number.
    pub open spec fn push_digit(self, digit: usize) -> Self {
        MapperView {
            pending_count: Some(
                with_digit(
                    match self.pending_count {
                        Some(count) => count,
                        None => 0,
                    },
                    digit,
                ),
            ),
            pending_digits: match digit_char(digit) {
                Some(c) => self.pending_digits.push(c),
                None => self.pending_digits,
            },
            ..self
        }
    }

    /// The count that the prefix stands for: one without a prefix or
    /// with the prefix zero.
    pub open spec fn count(self) -> usize {
        match self.pending_count {
            Some(count) => if count > 0 {
                count
            } else {
                1
            },
            None => 1,
        }
    }

    /// The state with `c` as the first key of a chord.
    pub open spec fn push_char(self, c: char) -> Self {
        MapperView { char_stack: self.char_stack.push(c), ..self }
    }

    /// How many characters stand before the cursor: never more than
    /// the command line has.
    pub open spec fn cursor_at(self) -> usize {
        if self.command_cursor <= self.command_buffer.len() {
            self.command_cursor
        } else {
            self.command_buffer.len() as usize
        }
    }

    /// The payload that tells the command line and the byte at which its
    /// cursor stands.
    pub open spec fn command_payload(self) -> (Seq<char>, usize) {
        (self.command_buffer, clipped(utf8_len(self.command_buffer, self.cursor_at() as int)))
    }

    /// The command line with `c` put in at the cursor, and the cursor
    /// behind it.
    pub open spec fn insert_command_char(self, c: char) -> Self {
        MapperView {
            command_buffer: self.command_buffer.insert(self.cursor_at() as int, c),
            command_cursor: if self.cursor_at() < usize::MAX {
                (self.cursor_at() + 1) as usize
            } else {
                usize::MAX
            },
            ..self
        }
    }

    /// The command line without the character before the cursor.
    pub open spec fn delete_prev_command_char(self) -> Self {
        if self.cursor_at() == 0 {
            self
        } else {
            MapperView {
                command_buffer: self.command_buffer.remove(self.cursor_at() - 1),
                command_cursor: (self.cursor_at() - 1) as usize,
                ..self
            }
        }
    }

    /// The cursor one character to the left, where there is one.
    pub open spec fn move_command_cursor_left(self) -> Self {
        if self.cursor_at() == 0 {
            self
        } else {
            MapperView { command_cursor: (self.cursor_at() - 1) as usize, ..self }
        }
    }

    /// The cursor one character to the right, where there is one.
    pub open spec fn move_command_cursor_right(self) -> Self {
        if self.command_cursor >= self.command_buffer.len() {
            self
        } else {
            MapperView { command_cursor: (self.command_cursor + 1) as usize, ..self }
        }
    }

    /// The command line showing entry `index` of the history.
    pub open spec fn showing(self, index: usize) -> Self {
        MapperView {
            command_history_index: Some(index),
            command_buffer: self.command_history[index as int],
            command_cursor: self.command_history[index as int].len() as usize,
            ..self
        }
    }

    /// Whether a step through the history changes anything: not without
    /// a history, not beyond its oldest entry, and not forward where no
    /// entry is shown.
    pub open spec fn can_recall(self, older: bool) -> bool {
        self.command_history.len() > 0 && if older {
            self.command_history_index != Some(0usize)
        } else {
            self.command_history_index is Some
        }
    }

    /// A step through the history. The first step back keeps the line
    /// being typed as a draft; the step forward from the newest entry
    /// brings the draft back.
    pub open spec fn recall_command_history(self, older: bool) -> Self {
        if !self.can_recall(older) {
            self
        } else if older {
            match self.command_history_index {
                None => (MapperView { command_draft: self.command_buffer, ..self }).showing(
                    (self.command_history.len() - 1) as usize,
                ),
                Some(index) => self.showing(
                    if index <= self.command_history.len() {
                        (index - 1) as usize
                    } else {
                        (self.command_history.len() - 1) as usize
                    },
                ),
            }
        } else {
            let index = self.command_history_index->0;
            if index + 1 < self.command_history.len() {
                self.showing((index + 1) as usize)
            } else {
                MapperView {
                    command_history_index: None,
                    command_buffer: self.command_draft,
                    command_cursor: self.command_draft.len() as usize,
                    command_draft: Seq::empty(),
                    ..self
                }
            }
        }
    }

    /// The history with `command` entered: nothing is entered that is
    /// white space alone or the same as the newest entry, and beyond the
    /// limit the oldest entry goes.
    pub open spec fn push_command_history(self, command: Seq<char>) -> Self {
        if trimmed(command).len() == 0 || (self.command_history.len() > 0
            && self.command_history.last() == command) {
            self
        } else {
            let grown = self.command_history.push(command);
            MapperView {
                command_history: if grown.len() > COMMAND_HISTORY_LIMIT {
                    grown.remove(0)
                } else {
                    grown
                },
                ..self
            }
        }
    }

    /// What is shown of the input under way: the line of the search and
    /// command modes behind its prompt, in link mode the word `link`
    /// with the prefix, else the prefix and the chord; nothing where
    /// there is neither.
    pub open spec fn pending_input(self) -> Option<Seq<char>> {
        match self.mode {
            InputMode::Search => Some(seq!['/'] + self.search_buffer),
            InputMode::TocSearch => Some(seq!['/'] + self.toc_search_buffer),
            InputMode::Command => Some(seq![':'] + self.command_buffer),
            InputMode::Link => Some(
                if self.pending_digits.len() > 0 {
                    seq!['l', 'i', 'n', 'k', ' '] + self.pending_digits
                } else {
                    seq!['l', 'i', 'n', 'k']
                },
            ),
            _ => if self.pending_digits.len() + self.char_stack.len() > 0 {
                Some(self.pending_digits + self.char_stack)
            } else {
                None
            },
        }
    }

    /// A pan by `(step_x, step_y)`, taken as often as the prefix says.
    pub open spec fn pan(self, step_x: int, step_y: int) -> (Self, UiEventView) {
        (
            self.reset_count().reset_char_stack(),
            UiEventView::Command(
                Command::AdjustViewport {
                    delta_x: pan_delta(step_x, self.count()),
                    delta_y: pan_delta(step_y, self.count()),
                },
            ),
        )
    }

    /// The state with prefix and chord dropped, and the command.
    pub open spec fn fresh(self, command: Command) -> (Self, UiEventView) {
        (self.reset_count().reset_char_stack(), UiEventView::Command(command))
    }

    /// What a key does in normal mode.
    pub open spec fn map_normal(self, key: KeyInput) -> (Self, UiEventView) {
        let mods = key.modifiers;
        match key.code {
            KeyCode::Char(c) => {
                if mods.none() && digit_of(c) is Some {
                    (self.push_digit(digit_of(c)->0), UiEventView::Nothing)
                } else if self.char_stack == seq!['m'] {
                    (self.reset_char_stack(), UiEventView::Command(Command::PutMark { key: c }))
                } else if self.char_stack == seq!['\''] {
                    (self.reset_char_stack(), UiEventView::Command(Command::GotoMark { key: c }))
                } else if c == 'm' || c == '\'' {
                    (
                        if self.char_stack.len() == 0 {
                            self.push_char(c)
                        } else {
                            self
                        },
                        UiEventView::Nothing,
                    )
                } else if c == '=' {
                    self.fresh(Command::ResetScale)
                } else if (c == 'H' && mods.shift_only()) || (c == 'h' && mods.none()) {
                    self.pan(-PAN_STEP, 0)
                } else if c == 'L' && mods.shift_only() {
                    self.pan(PAN_STEP as int, 0)
                } else if c == 'K' && mods.shift_only() {
                    self.pan(0, -PAN_STEP)
                } else if c == 'J' && mods.shift_only() {
                    self.pan(0, PAN_STEP as int)
                } else if c == 'j' && mods.none() {
                    (
                        self.reset_count(),
                        UiEventView::Command(Command::NextPage { count: self.count() }),
                    )
                } else if c == 'k' && mods.none() {
                    (
                        self.reset_count(),
                        UiEventView::Command(Command::PrevPage { count: self.count() }),
                    )
                } else if c == '/' && mods.none() {
                    (self.set_mode(InputMode::Search), UiEventView::BeginSearch)
                } else if c == 'l' && mods.none() {
                    (
                        self.set_mode(InputMode::Link),
                        UiEventView::Command(Command::EnterLinkMode),
                    )
                } else if c == ':' && mods.plain() {
                    (
                        self.set_mode(InputMode::Command),
                        UiEventView::CommandModeBegin {
                            buffer: self.set_mode(InputMode::Command).command_payload().0,
                            cursor: self.set_mode(InputMode::Command).command_payload().1,
                        },
                    )
                } else if c == 'n' && mods.none() {
                    (
                        self.reset_count(),
                        UiEventView::Command(Command::SearchNext { count: self.count() }),
                    )
                } else if c == 'N' && mods.plain() {
                    (
                        self.reset_count(),
                        UiEventView::Command(Command::SearchPrev { count: self.count() }),
                    )
                } else if c == 'q' {
                    (self.reset_count(), UiEventView::Quit)
                } else if c == 'o' && mods.control() {
                    self.fresh(Command::JumpBackward)
                } else if c == 'i' && mods.control() {
                    self.fresh(Command::JumpForward)
                } else if c == '+' {
                    (
                        self.reset_count(),
                        UiEventView::Command(Command::ScaleBy { factor: ZOOM_IN }),
                    )
                } else if c == '-' {
                    (
                        self.reset_count(),
                        UiEventView::Command(Command::ScaleBy { factor: ZOOM_OUT }),
                    )
                } else if c == 'd' {
                    (self.reset_count(), UiEventView::Command(Command::ToggleDarkMode))
                } else if c == 'g' && mods.none() {
                    (self.reset_count(), UiEventView::Command(Command::GotoPage { page: 0 }))
                } else if c == 'G' && mods.shift_only() {
                    (
                        self.reset_count(),
                        UiEventView::Command(Command::GotoPage { page: usize::MAX }),
                    )
                } else if c == 't' || c == 'T' {
                    (self.reset_count().reset_char_stack(), UiEventView::OpenTableOfContents)
                } else {
                    (self.reset_count(), UiEventView::Nothing)
                }
            },
            KeyCode::Left => if mods.control() {
                self.pan(-PAN_STEP, 0)
            } else {
                (self.reset_count(), UiEventView::Nothing)
            },
            KeyCode::Right => if mods.control() {
                self.pan(PAN_STEP as int, 0)
            } else {
                (self.reset_count(), UiEventView::Nothing)
            },
            KeyCode::Up => if mods.control() {
                self.pan(0, -PAN_STEP)
            } else if mods.none() {
                (
                    self.reset_count(),
                    UiEventView::Command(Command::PrevPage { count: self.count() }),
                )
            } else {
                (self.reset_count(), UiEventView::Nothing)
            },
            KeyCode::Down => if mods.control() {
                self.pan(0, PAN_STEP as int)
            } else if mods.none() {
                (
                    self.reset_count(),
                    UiEventView::Command(Command::NextPage { count: self.count() }),
                )
            } else {
                (self.reset_count(), UiEventView::Nothing)
            },
            KeyCode::Tab => if mods.none() || mods.control() {
                self.fresh(Command::JumpForward)
            } else {
                (self.reset_count(), UiEventView::Nothing)
            },
            KeyCode::End => (
                self.reset_count(),
                UiEventView::Command(Command::GotoPage { page: usize::MAX }),
            ),
            _ => (self.reset_count(), UiEventView::Nothing),
        }
    }

    /// What a key does while the table of contents is shown.
    pub open spec fn map_toc(self, key: KeyInput) -> (Self, UiEventView) {
        let mods = key.modifiers;
        match key.code {
            KeyCode::Esc => (self.reset_count(), UiEventView::CloseOverlay),
            KeyCode::Enter => (self.reset_count(), UiEventView::TocActivateSelection),
            KeyCode::Char(c) => {
                if c == 't' || c == 'T' {
                    (self.reset_count(), UiEventView::CloseOverlay)
                } else if mods.none() && digit_of(c) is Some {
                    (self.push_digit(digit_of(c)->0), UiEventView::Nothing)
                } else if c == 'j' && mods.none() {
                    (
                        self.reset_count(),
                        UiEventView::TocMoveSelection { delta: as_signed(self.count()) },
                    )
                } else if c == 'k' && mods.none() {
                    (
                        self.reset_count(),
                        UiEventView::TocMoveSelection { delta: (-as_signed(self.count())) as isize },
                    )
                } else if c == 'n' && mods.none() {
                    (self.reset_count(), UiEventView::TocSearchNext { count: self.count() })
                } else if c == 'N' && mods.plain() {
                    (self.reset_count(), UiEventView::TocSearchPrev { count: self.count() })
                } else if c == 'g' && mods.none() {
                    (self.reset_count(), UiEventView::TocGotoStart)
                } else if c == 'G' && mods.shift_only() {
                    (self.reset_count(), UiEventView::TocGotoEnd)
                } else if c == '/' && mods.none() {
                    (self.set_mode(InputMode::TocSearch), UiEventView::TocBeginSearch)
                } else if c == 'q' {
                    (self.reset_count(), UiEventView::Quit)
                } else {
                    (self, UiEventView::Nothing)
                }
            },
            KeyCode::Down => if mods.none() {
                (
                    self.reset_count(),
                    UiEventView::TocMoveSelection { delta: as_signed(self.count()) },
                )
            } else {
                (self, UiEventView::Nothing)
            },
            KeyCode::Up => if mods.none() {
                (
                    self.reset_count(),
                    UiEventView::TocMoveSelection { delta: (-as_signed(self.count())) as isize },
                )
            } else {
                (self, UiEventView::Nothing)
            },
            KeyCode::Home => (self.reset_count(), UiEventView::TocGotoStart),
            KeyCode::End => (self.reset_count(), UiEventView::TocGotoEnd),
            _ => (self, UiEventView::Nothing),
        }
    }

    /// What a key does while a search of the table of contents is typed.
    pub open spec fn map_toc_search(self, key: KeyInput) -> (Self, UiEventView) {
        match key.code {
            KeyCode::Esc => (self.set_mode(InputMode::Toc), UiEventView::TocSearchCancel),
            KeyCode::Enter => (
                self.set_mode(InputMode::Toc),
                UiEventView::TocSearchSubmit { query: self.toc_search_buffer },
            ),
            KeyCode::Backspace => {
                let shorter = if self.toc_search_buffer.len() > 0 {
                    self.toc_search_buffer.drop_last()
                } else {
                    self.toc_search_buffer
                };
                (
                    MapperView { toc_search_buffer: shorter, ..self },
                    UiEventView::TocSearchQueryChanged { query: shorter },
                )
            },
            KeyCode::Char(c) => if key.modifiers.plain() {
                (
                    MapperView { toc_search_buffer: self.toc_search_buffer.push(c), ..self },
                    UiEventView::TocSearchQueryChanged { query: self.toc_search_buffer.push(c) },
                )
            } else {
                (self, UiEventView::Nothing)
            },
            _ => (self, UiEventView::Nothing),
        }
    }

    /// What a key does while a search is typed.
    pub open spec fn map_search(self, key: KeyInput) -> (Self, UiEventView) {
        match key.code {
            KeyCode::Esc => (self.set_mode(InputMode::Normal), UiEventView::SearchCancel),
            KeyCode::Enter => (
                self.set_mode(InputMode::Normal),
                UiEventView::SearchSubmit { query: self.search_buffer },
            ),
            KeyCode::Backspace => {
                let shorter = if self.search_buffer.len() > 0 {
                    self.search_buffer.drop_last()
                } else {
                    self.search_buffer
                };
                (
                    MapperView { search_buffer: shorter, ..self },
                    UiEventView::SearchQueryChanged { query: shorter },
                )
            },
            KeyCode::Char(c) => if key.modifiers.plain() {
                (
                    MapperView { search_buffer: self.search_buffer.push(c), ..self },
                    UiEventView::SearchQueryChanged { query: self.search_buffer.push(c) },
                )
            } else {
                (self, UiEventView::Nothing)
            },
            _ => (self, UiEventView::Nothing),
        }
    }

    /// What a key does in link mode.
    pub open spec fn map_link(self, key: KeyInput) -> (Self, UiEventView) {
        let mods = key.modifiers;
        match key.code {
            KeyCode::Esc => (
                self.set_mode(InputMode::Normal).reset_count().reset_char_stack(),
                UiEventView::Command(Command::LeaveLinkMode),
            ),
            KeyCode::Char(c) => {
                if mods.none() && digit_of(c) is Some {
                    (self.push_digit(digit_of(c)->0), UiEventView::Nothing)
                } else if c == 'n' && mods.none() {
                    self.fresh(Command::LinkNext { count: self.count() })
                } else if c == 'N' && mods.plain() {
                    self.fresh(Command::LinkPrev { count: self.count() })
                } else if c == 'g' && mods.none() {
                    self.fresh(Command::ActivateLink)
                } else {
                    (self.reset_count(), UiEventView::Nothing)
                }
            },
            _ => (self.reset_count(), UiEventView::Nothing),
        }
    }

    /// The event that tells the command line where it changed.
    pub open spec fn changed_to(before: Self, after: Self, changed: bool) -> (Self, UiEventView) {
        (
            after,
            if changed {
                UiEventView::CommandModeChanged {
                    buffer: after.command_payload().0,
                    cursor: after.command_payload().1,
                }
            } else {
                UiEventView::Nothing
            },
        )
    }

    /// What a key does while a command is typed.
    pub open spec fn map_command(self, key: KeyInput) -> (Self, UiEventView) {
        match key.code {
            KeyCode::Esc => (self.set_mode(InputMode::Normal), UiEventView::CommandModeCancel),
            KeyCode::Enter => (
                self.set_mode(InputMode::Normal),
                UiEventView::CommandModeSubmit { command: self.command_buffer },
            ),
            KeyCode::Backspace => Self::changed_to(
                self,
                self.delete_prev_command_char(),
                self.cursor_at() > 0,
            ),
            KeyCode::Left => Self::changed_to(
                self,
                self.move_command_cursor_left(),
                self.cursor_at() > 0,
            ),
            KeyCode::Right => Self::changed_to(
                self,
                self.move_command_cursor_right(),
                self.command_cursor < self.command_buffer.len(),
            ),
            KeyCode::Up => Self::changed_to(
                self,
                self.recall_command_history(true),
                self.can_recall(true),
            ),
            KeyCode::Down => Self::changed_to(
                self,
                self.recall_command_history(false),
                self.can_recall(false),
            ),
            KeyCode::Char(c) => if key.modifiers.plain() {
                Self::changed_to(self, self.insert_command_char(c), true)
            } else {
                (self, UiEventView::Nothing)
            },
            _ => (self, UiEventView::Nothing),
        }
    }

    /// What an event does: a key goes by the mode, everything else is
    /// passed over.
    pub open spec fn map_event(self, event: InputEvent) -> (Self, UiEventView) {
        match event {
            InputEvent::Key(key) => match self.mode {
                InputMode::Normal => self.map_normal(key),
                InputMode::Toc => self.map_toc(key),
                InputMode::TocSearch => self.map_toc_search(key),
                InputMode::Search => self.map_search(key),
                InputMode::Link => self.map_link(key),
                InputMode::Command => self.map_command(key),
            },
            InputEvent::Other => (self, UiEventView::Nothing),
        }
    }
}

/// Whatever the event, the cursor stays in the command line and the
/// history entry shown stays one that exists.
pub proof fn lemma_map_event_keeps_wf(state: MapperView, event: InputEvent)
    requires
        state.wf(),
    ensures
        state.map_event(event).0.wf(),
{
}

/// Entering a command into the history keeps the mapper well formed.
pub proof fn lemma_history_keeps_wf(state: MapperView, command: Seq<char>)
    requires
        state.wf(),
    ensures
        state.push_command_history(command).wf(),
{
}

/// The commands of a history as sequences of characters.
pub open spec fn lines_of(history: Seq<Vec<char>>) -> Seq<Seq<char>> {
    history.map_values(|line: Vec<char>| line@)
}

/// Whether two lines hold the same characters.
fn same_chars(a: &Vec<char>, b: &Vec<char>) -> (r: bool)
    ensures
        r == (a@ == b@),
{
    if a.len() != b.len() {
        return false;
    }
    let mut i: usize = 0;
    while i < a.len()
        invariant
            i <= a.len(),
            a.len() == b.len(),
            forall|k: int| 0 <= k < i ==> a@[k] == b@[k],
        decreases a.len() - i,
    {
        if a[i] != b[i] {
            return false;
        }
        i += 1;
    }
    assert(a@ =~= b@);
    true
}

/// Appends the characters of `more` to `line`.
fn push_chars(line: &mut Vec<char>, more: &Vec<char>)
    ensures
        final(line)@ == old(line)@ + more@,
{
    let mut i: usize = 0;
    while i < more.len()
        invariant
            i <= more.len(),
            line@ == old(line)@ + more@.take(i as int),
        decreases more.len() - i,
    {
        line.push(more[i]);
        i += 1;
        assert(line@ =~= old(line)@ + more@.take(i as int));
    }
    assert(more@.take(more.len() as int) =~= more@);
}

/// A pan step taken `count` times.
fn scaled_step(step: i32, count: usize) -> (r: i32)
    ensures
        r == pan_delta(step as int, count),
{
    let wide: i128 = step as i128;
    let times: i128 = count as i128;
    assert(-0x8000_0000 * 0x1_0000_0000_0000_0000 <= wide * times <= 0x8000_0000
        * 0x1_0000_0000_0000_0000) by (nonlinear_arith)
        requires
            -0x8000_0000 <= wide <= 0x8000_0000,
            0 <= times <= 0x1_0000_0000_0000_0000,
    ;
    let product: i128 = wide * times;
    if product > 0x7fff_ffff {
        i32::MAX
    } else if product < -0x8000_0000 {
        i32::MIN
    } else {
        product as i32
    }
}

/// Turns key presses into events, keeping what was typed so far.
#[derive(Debug)]
pub struct EventMapper {
    pending_count: Option<usize>,
    pending_digits: Vec<char>,
    char_stack: Vec<char>,
    mode: InputMode,
    search_buffer: Vec<char>,
    toc_search_buffer: Vec<char>,
    command_buffer: Vec<char>,
    command_cursor: usize,
    command_history: Vec<Vec<char>>,
    command_history_index: Option<usize>,
    command_draft: Vec<char>,
}

impl View for EventMapper {
    type V = MapperView;

    closed spec fn view(&self) -> MapperView {
        MapperView {
            pending_count: self.pending_count,
            pending_digits: self.pending_digits@,
            char_stack: self.char_stack@,
            mode: self.mode,
            search_buffer: self.search_buffer@,
            toc_search_buffer: self.toc_search_buffer@,
            command_buffer: self.command_buffer@,
            command_cursor: self.command_cursor,
            command_history: lines_of(self.command_history@),
            command_history_index: self.command_history_index,
            command_draft: self.command_draft@,
        }
    }
}

impl Default for EventMapper {
    fn default() -> (r: Self)
        ensures
            r@ == MapperView::initial(),
    {
        EventMapper::new()
    }
}

impl EventMapper {
    /// A mapper in normal mode with nothing typed.
    pub fn new() -> (r: Self)
        ensures
            r@ == MapperView::initial(),
    {
        let mapper = EventMapper {
            pending_count: None,
            pending_digits: Vec::new(),
            char_stack: Vec::new(),
            mode: InputMode::Normal,
            search_buffer: Vec::new(),
            toc_search_buffer: Vec::new(),
            command_buffer: Vec::new(),
            command_cursor: 0,
            command_history: Vec::new(),
            command_history_index: None,
            command_draft: Vec::new(),
        };
        assert(lines_of(mapper.command_history@) =~= Seq::<Seq<char>>::empty());
        mapper
    }

    /// Changes the mode. A change drops the prefix, the chord and the
    /// line of the mode left and of the mode entered.
    pub fn set_mode(&mut self, mode: InputMode)
        ensures
            final(self)@ == old(self)@.set_mode(mode),
    {
        if self.mode != mode {
            self.clear_for(self.mode);
            self.reset_count();
            self.reset_char_stack();
            self.mode = mode;
            self.clear_for(mode);
        }
    }

    /// Empties the line of `mode`.
    fn clear_for(&mut self, mode: InputMode)
        ensures
            final(self)@ == old(self)@.cleared_for(mode),
    {
        match mode {
            InputMode::Search => {
                self.search_buffer.clear();
            },
            InputMode::TocSearch => {
                self.toc_search_buffer.clear();
            },
            InputMode::Command => {
                self.reset_command_input();
            },
            _ => {},
        }
    }

    /// What the keys mean at the moment.
    pub fn mode(&self) -> (r: InputMode)
        ensures
            r == self@.mode,
    {
        self.mode
    }

    /// Maps an event of the terminal to what it asks for.
    pub fn map_event(&mut self, event: InputEvent) -> (r: UiEvent)
        ensures
            final(self)@ == old(self)@.map_event(event).0,
            r@ == old(self)@.map_event(event).1,
    {
        match event {
            InputEvent::Key(key) => match self.mode {
                InputMode::Normal => self.map_event_normal(key),
                InputMode::Toc => self.map_event_toc(key),
                InputMode::TocSearch => self.map_event_toc_search(key),
                InputMode::Search => self.map_event_search(key),
                InputMode::Link => self.map_event_link(key),
                InputMode::Command => self.map_event_command(key),
            },
            InputEvent::Other => UiEvent::Nothing,
        }
    }

    /// Drops prefix and chord and gives the command.
    fn fresh(&mut self, command: Command) -> (r: UiEvent)
        ensures
            final(self)@ == old(self)@.fresh(command).0,
            r@ == old(self)@.fresh(command).1,
    {
        self.reset_count();
        self.reset_char_stack();
        UiEvent::Command(command)
    }

    fn map_event_normal(&mut self, key: KeyInput) -> (r: UiEvent)
        ensures
            final(self)@ == old(self)@.map_normal(key).0,
            r@ == old(self)@.map_normal(key).1,
    {
        let mods = key.modifiers;
        match key.code {
            KeyCode::Char(c) => {
                if mods.is_empty() && '0' <= c && c <= '9' {
                    self.push_digit((c as u32 - 48) as usize);
                    UiEvent::Nothing
                } else if self.char_stack.len() == 1 && self.char_stack[0] == 'm' {
                    assert(self.char_stack@ =~= seq!['m']);
                    self.reset_char_stack();
                    UiEvent::Command(Command::PutMark { key: c })
                } else if self.char_stack.len() == 1 && self.char_stack[0] == '\'' {
                    assert(self.char_stack@ =~= seq!['\'']);
                    self.reset_char_stack();
                    UiEvent::Command(Command::GotoMark { key: c })
                } else if c == 'm' || c == '\'' {
                    assert(self.char_stack@ != seq!['m'] && self.char_stack@ != seq!['\'']) by {
                        if self.char_stack@.len() == 1 {
                            assert(seq!['m'][0] == 'm');
                            assert(seq!['\''][0] == '\'');
                        }
                    }
                    if self.char_stack.len() == 0 {
                        self.push_char(c);
                    }
                    UiEvent::Nothing
                } else {
                    assert(self.char_stack@ != seq!['m'] && self.char_stack@ != seq!['\'']) by {
                        if self.char_stack@.len() == 1 {
                            assert(seq!['m'][0] == 'm');
                            assert(seq!['\''][0] == '\'');
                        }
                    }
                    if c == '=' {
                        self.fresh(Command::ResetScale)
                    } else if (c == 'H' && mods.is_shift()) || (c == 'h' && mods.is_empty()) {
                        self.pan(-PAN_STEP, 0)
                    } else if c == 'L' && mods.is_shift() {
                        self.pan(PAN_STEP, 0)
                    } else if c == 'K' && mods.is_shift() {
                        self.pan(0, -PAN_STEP)
                    } else if c == 'J' && mods.is_shift() {
                        self.pan(0, PAN_STEP)
                    } else if c == 'j' && mods.is_empty() {
                        let count: usize = self.take_count();
                        UiEvent::Command(Command::NextPage { count })
                    } else if c == 'k' && mods.is_empty() {
                        let count: usize = self.take_count();
                        UiEvent::Command(Command::PrevPage { count })
                    } else if c == '/' && mods.is_empty() {
                        self.start_search();
                        UiEvent::BeginSearch
                    } else if c == 'l' && mods.is_empty() {
                        self.start_link_mode();
                        UiEvent::Command(Command::EnterLinkMode)
                    } else if c == ':' && mods.is_plain() {
                        self.set_mode(InputMode::Command);
                        let (buffer, cursor) = self.command_state_payload();
                        UiEvent::CommandModeBegin { buffer, cursor }
                    } else if c == 'n' && mods.is_empty() {
                        let count: usize = self.take_count();
                        UiEvent::Command(Command::SearchNext { count })
                    } else if c == 'N' && mods.is_plain() {
                        let count: usize = self.take_count();
                        UiEvent::Command(Command::SearchPrev { count })
                    } else if c == 'q' {
                        self.reset_count();
                        UiEvent::Quit
                    } else if c == 'o' && mods.has_control() {
                        self.fresh(Command::JumpBackward)
                    } else if c == 'i' && mods.has_control() {
                        self.fresh(Command::JumpForward)
                    } else if c == '+' {
                        self.reset_count();
                        UiEvent::Command(Command::ScaleBy { factor: ZOOM_IN })
                    } else if c == '-' {
                        self.reset_count();
                        UiEvent::Command(Command::ScaleBy { factor: ZOOM_OUT })
                    } else if c == 'd' {
                        self.reset_count();
                        UiEvent::Command(Command::ToggleDarkMode)
                    } else if c == 'g' && mods.is_empty() {
                        self.reset_count();
                        UiEvent::Command(Command::GotoPage { page: 0 })
                    } else if c == 'G' && mods.is_shift() {
                        self.reset_count();
                        UiEvent::Command(Command::GotoPage { page: usize::MAX })
                    } else if c == 't' || c == 'T' {
                        self.reset_count();
                        self.reset_char_stack();
                        UiEvent::OpenTableOfContents
                    } else {
                        self.reset_count();
                        UiEvent::Nothing
                    }
                }
            },
            KeyCode::Left => {
                if mods.has_control() {
                    self.pan(-PAN_STEP, 0)
                } else {
                    self.reset_count();
                    UiEvent::Nothing
                }
            },
            KeyCode::Right => {
                if mods.has_control() {
                    self.pan(PAN_STEP, 0)
                } else {
                    self.reset_count();
                    UiEvent::Nothing
                }
            },
            KeyCode::Up => {
                if mods.has_control() {
                    self.pan(0, -PAN_STEP)
                } else if mods.is_empty() {
                    let count: usize = self.take_count();
                    UiEvent::Command(Command::PrevPage { count })
                } else {
                    self.reset_count();
                    UiEvent::Nothing
                }
            },
            KeyCode::Down => {
                if mods.has_control() {
                    self.pan(0, PAN_STEP)
                } else if mods.is_empty() {
                    let count: usize = self.take_count();
                    UiEvent::Command(Command::NextPage { count })
                } else {
                    self.reset_count();
                    UiEvent::Nothing
                }
            },
            KeyCode::Tab => {
                if mods.is_empty() || mods.has_control() {
                    self.fresh(Command::JumpForward)
                } else {
                    self.reset_count();
                    UiEvent::Nothing
                }
            },
            KeyCode::End => {
                self.reset_count();
                UiEvent::Command(Command::GotoPage { page: usize::MAX })
            },
            _ => {
                self.reset_count();
                UiEvent::Nothing
            },
        }
    }

    fn map_event_toc(&mut self, key: KeyInput) -> (r: UiEvent)
        ensures
            final(self)@ == old(self)@.map_toc(key).0,
            r@ == old(self)@.map_toc(key).1,
    {
        let mods = key.modifiers;
        match key.code {
            KeyCode::Esc => {
                self.reset_count();
                UiEvent::CloseOverlay
            },
            KeyCode::Enter => {
                self.reset_count();
                UiEvent::TocActivateSelection
            },
            KeyCode::Char(c) => {
                if c == 't' || c == 'T' {
                    self.reset_count();
                    UiEvent::CloseOverlay
                } else if mods.is_empty() && '0' <= c && c <= '9' {
                    self.push_digit((c as u32 - 48) as usize);
                    UiEvent::Nothing
                } else if c == 'j' && mods.is_empty() {
                    let steps: isize = Self::clamp_count_to_isize(self.take_count());
                    UiEvent::TocMoveSelection { delta: steps }
                } else if c == 'k' && mods.is_empty() {
                    let steps: isize = Self::clamp_count_to_isize(self.take_count());
                    UiEvent::TocMoveSelection { delta: -steps }
                } else if c == 'n' && mods.is_empty() {
                    let count: usize = self.take_count();
                    UiEvent::TocSearchNext { count }
                } else if c == 'N' && mods.is_plain() {
                    let count: usize = self.take_count();
                    UiEvent::TocSearchPrev { count }
                } else if c == 'g' && mods.is_empty() {
                    self.reset_count();
                    UiEvent::TocGotoStart
                } else if c == 'G' && mods.is_shift() {
                    self.reset_count();
                    UiEvent::TocGotoEnd
                } else if c == '/' && mods.is_empty() {
                    self.start_toc_search();
                    UiEvent::TocBeginSearch
                } else if c == 'q' {
                    self.reset_count();
                    UiEvent::Quit
                } else {
                    UiEvent::Nothing
                }
            },
            KeyCode::Down => {
                if mods.is_empty() {
                    let steps: isize = Self::clamp_count_to_isize(self.take_count());
                    UiEvent::TocMoveSelection { delta: steps }
                } else {
                    UiEvent::Nothing
                }
            },
            KeyCode::Up => {
                if mods.is_empty() {
                    let steps: isize = Self::clamp_count_to_isize(self.take_count());
                    UiEvent::TocMoveSelection { delta: -steps }
                } else {
                    UiEvent::Nothing
                }
            },
            KeyCode::Home => {
                self.reset_count();
                UiEvent::TocGotoStart
            },
            KeyCode::End => {
                self.reset_count();
                UiEvent::TocGotoEnd
            },
            _ => UiEvent::Nothing,
        }
    }

    fn map_event_toc_search(&mut self, key: KeyInput) -> (r: UiEvent)
        ensures
            final(self)@ == old(self)@.map_toc_search(key).0,
            r@ == old(self)@.map_toc_search(key).1,
    {
        match key.code {
            KeyCode::Esc => {
                self.set_mode(InputMode::Toc);
                UiEvent::TocSearchCancel
            },
            KeyCode::Enter => {
                let query = string_from_chars(&self.toc_search_buffer);
                self.set_mode(InputMode::Toc);
                UiEvent::TocSearchSubmit { query }
            },
            KeyCode::Backspace => {
                self.toc_search_buffer.pop();
                UiEvent::TocSearchQueryChanged { query: string_from_chars(&self.toc_search_buffer) }
            },
            KeyCode::Char(c) => {
                if key.modifiers.is_plain() {
                    self.toc_search_buffer.push(c);
                    UiEvent::TocSearchQueryChanged {
                        query: string_from_chars(&self.toc_search_buffer),
                    }
                } else {
                    UiEvent::Nothing
                }
            },
            _ => UiEvent::Nothing,
        }
    }

    fn map_event_search(&mut self, key: KeyInput) -> (r: UiEvent)
        ensures
            final(self)@ == old(self)@.map_search(key).0,
            r@ == old(self)@.map_search(key).1,
    {
        match key.code {
            KeyCode::Esc => {
                self.set_mode(InputMode::Normal);
                UiEvent::SearchCancel
            },
            KeyCode::Enter => {
                let query = string_from_chars(&self.search_buffer);
                self.set_mode(InputMode::Normal);
                UiEvent::SearchSubmit { query }
            },
            KeyCode::Backspace => {
                self.search_buffer.pop();
                UiEvent::SearchQueryChanged { query: string_from_chars(&self.search_buffer) }
            },
            KeyCode::Char(c) => {
                if key.modifiers.is_plain() {
                    self.search_buffer.push(c);
                    UiEvent::SearchQueryChanged { query: string_from_chars(&self.search_buffer) }
                } else {
                    UiEvent::Nothing
                }
            },
            _ => UiEvent::Nothing,
        }
    }

    fn map_event_link(&mut self, key: KeyInput) -> (r: UiEvent)
        ensures
            final(self)@ == old(self)@.map_link(key).0,
            r@ == old(self)@.map_link(key).1,
    {
        let mods = key.modifiers;
        match key.code {
            KeyCode::Esc => {
                self.set_mode(InputMode::Normal);
                self.reset_count();
                self.reset_char_stack();
                UiEvent::Command(Command::LeaveLinkMode)
            },
            KeyCode::Char(c) => {
                if mods.is_empty() && '0' <= c && c <= '9' {
                    self.push_digit((c as u32 - 48) as usize);
                    UiEvent::Nothing
                } else if c == 'n' && mods.is_empty() {
                    let count: usize = self.take_count();
                    self.reset_char_stack();
                    UiEvent::Command(Command::LinkNext { count })
                } else if c == 'N' && mods.is_plain() {
                    let count: usize = self.take_count();
                    self.reset_char_stack();
                    UiEvent::Command(Command::LinkPrev { count })
                } else if c == 'g' && mods.is_empty() {
                    self.fresh(Command::ActivateLink)
                } else {
                    self.reset_count();
                    UiEvent::Nothing
                }
            },
            _ => {
                self.reset_count();
                UiEvent::Nothing
            },
        }
    }

    /// The event that tells the command line, where it changed.
    fn changed_event(&self, changed: bool) -> (r: UiEvent)
        ensures
            r@ == if changed {
                UiEventView::CommandModeChanged {
                    buffer: self@.command_payload().0,
                    cursor: self@.command_payload().1,
                }
            } else {
                UiEventView::Nothing
            },
    {
        if changed {
            let (buffer, cursor) = self.command_state_payload();
            UiEvent::CommandModeChanged { buffer, cursor }
        } else {
            UiEvent::Nothing
        }
    }

    fn map_event_command(&mut self, key: KeyInput) -> (r: UiEvent)
        ensures
            final(self)@ == old(self)@.map_command(key).0,
            r@ == old(self)@.map_command(key).1,
    {
        match key.code {
            KeyCode::Esc => {
                self.set_mode(InputMode::Normal);
                UiEvent::CommandModeCancel
            },
            KeyCode::Enter => {
                let command = string_from_chars(&self.command_buffer);
                self.set_mode(InputMode::Normal);
                UiEvent::CommandModeSubmit { command }
            },
            KeyCode::Backspace => {
                let changed = self.delete_prev_command_char();
                self.changed_event(changed)
            },
            KeyCode::Left => {
                let changed = self.move_command_cursor_left();
                self.changed_event(changed)
            },
            KeyCode::Right => {
                let changed = self.move_command_cursor_right();
                self.changed_event(changed)
            },
            KeyCode::Up => {
                let changed = self.recall_command_history(true);
                self.changed_event(changed)
            },
            KeyCode::Down => {
                let changed = self.recall_command_history(false);
                self.changed_event(changed)
            },
            KeyCode::Char(c) => {
                if key.modifiers.is_plain() {
                    let changed = self.insert_command_char(c);
                    self.changed_event(changed)
                } else {
                    UiEvent::Nothing
                }
            },
            _ => UiEvent::Nothing,
        }
    }

    fn push_digit(&mut self, digit: usize)
        ensures
            final(self)@ == old(self)@.push_digit(digit),
    {
        let current: usize = match self.pending_count {
            Some(count) => count,
            None => 0,
        };
        let next: usize = if current > (usize::MAX - 9) / 10 {
            let wide: u128 = current as u128 * 10 + digit as u128;
            if wide > usize::MAX as u128 {
                usize::MAX
            } else {
                wide as usize
            }
        } else if digit > 9 {
            let wide: u128 = current as u128 * 10 + digit as u128;
            if wide > usize::MAX as u128 {
                usize::MAX
            } else {
                wide as usize
            }
        } else {
            current * 10 + digit
        };
        self.pending_count = Some(next);
        if digit < 10 {
            self.pending_digits.push((48 + digit as u8) as char);
        }
    }

    fn take_count(&mut self) -> (r: usize)
        ensures
            final(self)@ == old(self)@.reset_count(),
            r == old(self)@.count(),
    {
        let count: usize = match self.pending_count {
            Some(count) => if count > 0 {
                count
            } else {
                1
            },
            None => 1,
        };
        self.pending_count = None;
        self.pending_digits.clear();
        count
    }

    fn reset_count(&mut self)
        ensures
            final(self)@ == old(self)@.reset_count(),
    {
        self.pending_count = None;
        self.pending_digits.clear();
    }

    fn push_char(&mut self, c: char)
        ensures
            final(self)@ == old(self)@.push_char(c),
    {
        self.char_stack.push(c);
    }

    fn reset_char_stack(&mut self)
        ensures
            final(self)@ == old(self)@.reset_char_stack(),
    {
        self.char_stack = Vec::new();
    }

    fn reset_command_input(&mut self)
        ensures
            final(self)@ == old(self)@.reset_command_input(),
    {
        self.command_cursor = 0;
        self.command_buffer.clear();
        self.command_history_index = None;
        self.command_draft.clear();
    }

    fn start_search(&mut self)
        ensures
            final(self)@ == old(self)@.set_mode(InputMode::Search),
    {
        self.set_mode(InputMode::Search);
    }

    fn start_link_mode(&mut self)
        ensures
            final(self)@ == old(self)@.set_mode(InputMode::Link),
    {
        self.set_mode(InputMode::Link);
    }

    fn start_toc_search(&mut self)
        ensures
            final(self)@ == old(self)@.set_mode(InputMode::TocSearch),
    {
        self.set_mode(InputMode::TocSearch);
    }

    fn clamp_count_to_isize(count: usize) -> (r: isize)
        ensures
            r == as_signed(count),
            r >= 0,
    {
        if count > isize::MAX as usize {
            isize::MAX
        } else {
            count as isize
        }
    }

    fn pan(&mut self, step_x: i32, step_y: i32) -> (r: UiEvent)
        ensures
            final(self)@ == old(self)@.pan(step_x as int, step_y as int).0,
            r@ == old(self)@.pan(step_x as int, step_y as int).1,
    {
        let multiplier: usize = self.take_count();
        self.reset_char_stack();
        UiEvent::Command(
            Command::AdjustViewport {
                delta_x: scaled_step(step_x, multiplier),
                delta_y: scaled_step(step_y, multiplier),
            },
        )
    }

    /// What to show of the input under way.
    pub fn pending_input(&self) -> (r: Option<String>)
        ensures
            match r {
                Some(text) => self@.pending_input() == Some(text@),
                None => self@.pending_input() is None,
            },
    {
        let mut shown: Vec<char> = Vec::new();
        match self.mode {
            InputMode::Search => {
                shown.push('/');
                push_chars(&mut shown, &self.search_buffer);
                assert(shown@ =~= seq!['/'] + self.search_buffer@);
            },
            InputMode::TocSearch => {
                shown.push('/');
                push_chars(&mut shown, &self.toc_search_buffer);
                assert(shown@ =~= seq!['/'] + self.toc_search_buffer@);
            },
            InputMode::Command => {
                shown.push(':');
                push_chars(&mut shown, &self.command_buffer);
                assert(shown@ =~= seq![':'] + self.command_buffer@);
            },
            InputMode::Link => {
                shown.push('l');
                shown.push('i');
                shown.push('n');
                shown.push('k');
                if self.pending_digits.len() > 0 {
                    shown.push(' ');
                    push_chars(&mut shown, &self.pending_digits);
                    assert(shown@ =~= seq!['l', 'i', 'n', 'k', ' '] + self.pending_digits@);
                } else {
                    assert(shown@ =~= seq!['l', 'i', 'n', 'k']);
                }
            },
            _ => {
                push_chars(&mut shown, &self.pending_digits);
                push_chars(&mut shown, &self.char_stack);
                assert(shown@ =~= self.pending_digits@ + self.char_stack@);
                if shown.len() == 0 {
                    return None;
                }
            },
        }
        Some(string_from_chars(&shown))
    }

    /// Enters `command` into the history of the command mode.
    pub fn push_command_history(&mut self, command: &str)
        ensures
            final(self)@ == old(self)@.push_command_history(command@),
    {
        if str_trim(command).is_empty() {
            return ;
        }
        let line = chars_of(command);
        let len: usize = self.command_history.len();
        if len > 0 && same_chars(&self.command_history[len - 1], &line) {
            return ;
        }
        let ghost before = lines_of(self.command_history@);
        let mut history: Vec<Vec<char>> = Vec::new();
        core::mem::swap(&mut history, &mut self.command_history);
        history.push(line);
        assert(lines_of(history@) =~= before.push(command@));
        if history.len() > COMMAND_HISTORY_LIMIT {
            history.remove(0);
            assert(lines_of(history@) =~= before.push(command@).remove(0));
        }
        self.command_history = history;
    }

    fn command_state_payload(&self) -> (r: (String, usize))
        ensures
            r.0@ == self@.command_payload().0,
            r.1 == self@.command_payload().1,
    {
        (
            string_from_chars(&self.command_buffer),
            utf8_offset(&self.command_buffer, self.cursor_place()),
        )
    }

    /// How many characters stand before the cursor.
    fn cursor_place(&self) -> (r: usize)
        ensures
            r == self@.cursor_at(),
            r <= self@.command_buffer.len(),
    {
        if self.command_cursor <= self.command_buffer.len() {
            self.command_cursor
        } else {
            self.command_buffer.len()
        }
    }

    fn insert_command_char(&mut self, c: char) -> (r: bool)
        ensures
            final(self)@ == old(self)@.insert_command_char(c),
            r,
    {
        let at: usize = self.cursor_place();
        self.command_buffer.insert(at, c);
        self.command_cursor = if at < usize::MAX {
            at + 1
        } else {
            usize::MAX
        };
        true
    }

    fn delete_prev_command_char(&mut self) -> (r: bool)
        ensures
            final(self)@ == old(self)@.delete_prev_command_char(),
            r == (old(self)@.cursor_at() > 0),
    {
        let place: usize = self.cursor_place();
        if place == 0 {
            return false;
        }
        let at: usize = place - 1;
        self.command_cursor = at;
        self.command_buffer.remove(at);
        true
    }

    fn move_command_cursor_left(&mut self) -> (r: bool)
        ensures
            final(self)@ == old(self)@.move_command_cursor_left(),
            r == (old(self)@.cursor_at() > 0),
    {
        let place: usize = self.cursor_place();
        if place == 0 {
            return false;
        }
        self.command_cursor = place - 1;
        true
    }

    fn move_command_cursor_right(&mut self) -> (r: bool)
        ensures
            final(self)@ == old(self)@.move_command_cursor_right(),
            r == (old(self)@.command_cursor < old(self)@.command_buffer.len()),
    {
        if self.command_cursor >= self.command_buffer.len() {
            return false;
        }
        self.command_cursor = self.command_cursor + 1;
        true
    }

    /// Shows entry `index` of the history in the command line.
    fn show_entry(&mut self, index: usize)
        requires
            index < old(self)@.command_history.len(),
        ensures
            final(self)@ == old(self)@.showing(index),
    {
        let line = self.command_history[index].clone();
        assert(line@ == lines_of(self.command_history@)[index as int]);
        self.command_history_index = Some(index);
        self.command_cursor = 0;
        self.command_buffer = line;
        self.command_cursor = self.command_buffer.len();
    }

    fn recall_command_history(&mut self, older: bool) -> (r: bool)
        ensures
            final(self)@ == old(self)@.recall_command_history(older),
            r == old(self)@.can_recall(older),
    {
        let len: usize = self.command_history.len();
        if len == 0 {
            return false;
        }
        if older {
            match self.command_history_index {
                None => {
                    self.command_draft = self.command_buffer.clone();
                    self.show_entry(len - 1);
                },
                Some(index) => {
                    if index == 0 {
                        return false;
                    }
                    let shown: usize = if index <= len {
                        index - 1
                    } else {
                        len - 1
                    };
                    self.show_entry(shown);
                },
            }
            true
        } else {
            match self.command_history_index {
                None => false,
                Some(index) => {
                    if index < len - 1 {
                        self.show_entry(index + 1);
                    } else {
                        self.command_history_index = None;
                        self.command_cursor = 0;
                        self.command_buffer = self.command_draft.clone();
                        self.command_cursor = self.command_buffer.len();
                        self.command_draft.clear();
                    }
                    true
                },
            }
        }
    }
}

/// Maps one event with a mapper that has seen no key before.
pub fn map_event(event: InputEvent) -> (r: UiEvent)
    ensures
        r@ == MapperView::initial().map_event(event).1,
{
    let mut mapper = EventMapper::new();
    mapper.map_event(event)
}

} // verus!
