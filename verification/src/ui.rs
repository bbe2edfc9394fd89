//! What the screen shows and how the user drives it: the window on a body
//! that is scrolled, the status line cut to the width of its bar, and the
//! controller that turns input events into changes of state and requests
//! to the outside.

use crate::mailbox::{App, Mailbox, Unsubscribe, UnsubscribeView};
use crate::text::{
    chars_of, line_count, lines, lines_of, string_of, trim_end, trimmed_end, views,
};
use unicode_width::{UnicodeWidthChar, UnicodeWidthStr};
use vstd::prelude::*;
use vstd::string::*;

verus! {

/// The number of columns that the `unicode_width` crate gives a character,
/// or `None` for a control character.
pub uninterp spec fn char_width(c: char) -> Option<usize>;

/// The number of columns that the `unicode_width` crate gives a text.
pub uninterp spec fn text_width(s: Seq<char>) -> usize;

/// `UnicodeWidthChar::width` of the `unicode_width` crate. The width
/// depends on the character alone.
#[verifier::external_body]
fn width_of_char(c: char) -> (w: Option<usize>)
    ensures
        w == char_width(c),
{
    c.width()
}

/// `UnicodeWidthStr::width` of the `unicode_width` crate. The width depends
/// on the text alone.
#[verifier::external_body]
fn width_of_text(s: &str) -> (w: usize)
    ensures
        w == text_width(s@),
{
    s.width()
}

/// The columns that a character takes on the screen: none for a control
/// character.
pub open spec fn columns(c: char) -> usize {
    match char_width(c) {
        Some(w) => w,
        None => 0,
    }
}

/// The characters of a text, each with the columns it takes.
pub open spec fn measured(s: Seq<char>) -> Seq<(char, usize)> {
    s.map_values(|c: char| (c, columns(c)))
}

/// The characters of a measured text.
pub open spec fn unmeasured(m: Seq<(char, usize)>) -> Seq<char> {
    m.map_values(|p: (char, usize)| p.0)
}

/// What is left of a measured text from position `i` on, when `used`
/// columns are taken already: characters are kept as long as three columns
/// stay free after each, and three dots stand for the first character that
/// would not leave them free and for all that follows it.
pub open spec fn cut_from(m: Seq<(char, usize)>, max_width: usize, i: int, used: int) -> Seq<char>
    decreases m.len() - i,
{
    if i < 0 || i >= m.len() {
        Seq::empty()
    } else if used + m[i].1 + 3 > max_width {
        "..."@
    } else {
        seq![m[i].0] + cut_from(m, max_width, i + 1, used + m[i].1)
    }
}

/// A measured text that is `whole_width` columns wide, cut to `max_width`
/// columns: unchanged where it fits, else cut with three dots at the end.
pub open spec fn cut_to_width(m: Seq<(char, usize)>, whole_width: usize, max_width: usize) -> Seq<
    char,
> {
    if whole_width <= max_width {
        unmeasured(m)
    } else {
        cut_from(m, max_width, 0, 0)
    }
}

/// A text cut to `max_width` columns.
pub open spec fn truncated(s: Seq<char>, max_width: usize) -> Seq<char> {
    cut_to_width(measured(s), text_width(s), max_width)
}

/// The columns that a measured text takes in all.
pub open spec fn columns_of(m: Seq<(char, usize)>) -> int
    decreases m.len(),
{
    if m.len() == 0 {
        0
    } else {
        m.first().1 + columns_of(m.drop_first())
    }
}

/// What a cut keeps and that it fits. From position `i` on, with `used`
/// columns taken and room for the dots, the cut keeps the characters up to
/// some position `n`, and puts three dots where any are left out. What is
/// kept takes, with the columns used and three for the dots, no more than
/// `max_width` columns; the character at `n`, where there is one, would
/// take it over.
pub proof fn lemma_cut_fits(m: Seq<(char, usize)>, max_width: usize, i: int, used: int) -> (n: int)
    requires
        0 <= i <= m.len(),
        0 <= used,
        used + 3 <= max_width,
    ensures
        i <= n <= m.len(),
        cut_from(m, max_width, i, used) == unmeasured(m.subrange(i, n)) + if n < m.len() {
            "..."@
        } else {
            Seq::empty()
        },
        used + columns_of(m.subrange(i, n)) + 3 <= max_width,
        n < m.len() ==> used + columns_of(m.subrange(i, n)) + m[n].1 + 3 > max_width,
    decreases m.len() - i,
{
    if i >= m.len() || used + m[i].1 + 3 > max_width {
        i
    } else {
        let n = lemma_cut_fits(m, max_width, i + 1, used + m[i].1);
        assert(m.subrange(i, n).drop_first() =~= m.subrange(i + 1, n));
        n
    }
}

/// A text that is cut fits. Where the bar has room for the dots and the
/// text is wider than the bar, what is shown is a beginning of the text
/// followed by three dots, or the whole text, and its characters take, with
/// three columns for the dots, no more than `max_width` columns. A text that
/// is not wider than the bar is shown as it is.
pub proof fn lemma_truncated_fits(s: Seq<char>, max_width: usize) -> (n: int)
    requires
        max_width >= 3,
    ensures
        0 <= n <= s.len(),
        text_width(s) <= max_width ==> n == s.len() && truncated(s, max_width) == s,
        text_width(s) > max_width ==> truncated(s, max_width) == s.take(n) + if n < s.len() {
            "..."@
        } else {
            Seq::empty()
        },
        text_width(s) > max_width ==> columns_of(measured(s.take(n))) + 3 <= max_width,
{
    let m = measured(s);
    if text_width(s) <= max_width {
        s.len() as int
    } else {
        let n = lemma_cut_fits(m, max_width, 0, 0);
        assert(m.subrange(0, n) =~= measured(s.take(n)));
        n
    }
}

/// The characters of `s`, each with the columns it takes.
pub fn measure(s: &str) -> (m: Vec<(char, usize)>)
    ensures
        m@ == measured(s@),
{
    let mut m: Vec<(char, usize)> = Vec::new();
    for c in it: s.chars()
        invariant
            m@ == measured(it.seq().take(it.index())),
    {
        let w: usize = match width_of_char(c) {
            Some(w) => w,
            None => 0,
        };
        m.push((c, w));
    }
    m
}

/// Cuts a measured text that is `whole_width` columns wide to `max_width`
/// columns.
pub fn truncate_measured(m: &Vec<(char, usize)>, whole_width: usize, max_width: usize) -> (r:
    String)
    ensures
        r@ == cut_to_width(m@, whole_width, max_width),
{
    let mut r = String::new();
    let mut i: usize = 0;
    if whole_width <= max_width {
        while i < m.len()
            invariant
                i <= m.len(),
                r@ == unmeasured(m@).take(i as int),
            decreases m.len() - i,
        {
            r.push(m[i].0);
            i += 1;
        }
        return r;
    }
    let mut used: usize = 0;
    while i < m.len()
        invariant
            i <= m.len(),
            whole_width > max_width,
            max_width >= 3 ==> used <= max_width - 3,
            cut_from(m@, max_width, 0, 0) == r@ + cut_from(m@, max_width, i as int, used as int),
        decreases m.len() - i,
    {
        let w: usize = m[i].1;
        if max_width < 3 || w > max_width - 3 - used {
            r.append("...");
            return r;
        }
        r.push(m[i].0);
        used += w;
        i += 1;
    }
    r
}

/// Cuts `s` to `max_width` columns for display: `s` itself where it is not
/// wider, else its longest beginning that leaves three columns free,
/// followed by three dots.
pub fn truncate_with_ellipsis(s: &str, max_width: usize) -> (r: String)
    ensures
        r@ == truncated(s@, max_width),
{
    let whole_width = width_of_text(s);
    let m = measure(s);
    truncate_measured(&m, whole_width, max_width)
}

/// A text shown through a window that can be scrolled down by lines.
pub struct ScrollableText<'a> {
    content: &'a str,
    offset: usize,
}

/// A scrollable text as a mathematical value.
pub struct Scrolled {
    pub content: Seq<char>,
    pub offset: nat,
}

/// The lines of `content` that a window of `height` lines shows when
/// `offset` lines are scrolled away, each without its trailing whitespace.
pub open spec fn visible(content: Seq<char>, offset: nat, height: nat) -> Seq<Seq<char>> {
    let all = lines(content);
    let from = if offset <= all.len() {
        offset
    } else {
        all.len()
    };
    let to = if from + height <= all.len() {
        from + height
    } else {
        all.len()
    };
    all.subrange(from as int, to as int).map_values(|line: Seq<char>| trimmed_end(line))
}

impl<'a> View for ScrollableText<'a> {
    type V = Scrolled;

    closed spec fn view(&self) -> Scrolled {
        Scrolled { content: self.content@, offset: self.offset as nat }
    }
}

impl<'a> ScrollableText<'a> {
    /// A window on `content` that shows it from its first line.
    pub fn new(content: &'a str) -> (r: ScrollableText<'a>)
        ensures
            r@ == (Scrolled { content: content@, offset: 0 }),
    {
        ScrollableText { content, offset: 0 }
    }

    /// Scrolls so that `offset` lines are above the window.
    pub fn scroll(&mut self, offset: usize)
        ensures
            final(self)@ == (Scrolled { content: old(self)@.content, offset: offset as nat }),
    {
        self.offset = offset;
    }

    /// The text behind the window.
    pub fn content(&self) -> (r: &'a str)
        ensures
            r@ == self@.content,
    {
        self.content
    }

    /// The number of lines above the window.
    pub fn offset(&self) -> (r: usize)
        ensures
            r == self@.offset,
    {
        self.offset
    }

    /// The lines that a window of `height` lines shows.
    pub fn visible_lines(&self, height: usize) -> (r: Vec<String>)
        ensures
            r@.len() == visible(self@.content, self@.offset, height as nat).len(),
            r@.len() <= height,
            forall|i: int|
                0 <= i < r@.len() ==> r@[i]@ == visible(
                    self@.content,
                    self@.offset,
                    height as nat,
                )[i],
    {
        let all = lines_of(&chars_of(self.content));
        let from: usize = if self.offset <= all.len() {
            self.offset
        } else {
            all.len()
        };
        let to: usize = if height <= all.len() - from {
            from + height
        } else {
            all.len()
        };
        let ghost want = visible(self@.content, self@.offset, height as nat);
        let mut r: Vec<String> = Vec::new();
        let mut i: usize = from;
        while i < to
            invariant
                from <= i <= to <= all.len(),
                views(all@) == lines(self@.content),
                want.len() == to - from,
                forall|k: int| 0 <= k < want.len() ==> want[k] == trimmed_end(all@[from + k]@),
                r@.len() == i - from,
                forall|k: int| 0 <= k < r@.len() ==> r@[k]@ == want[k],
            decreases to - i,
        {
            let line = string_of(&trim_end(&all[i]));
            r.push(line);
            i += 1;
        }
        r
    }
}

/// The number of lines by which the body scrolls at a time.
pub const SCROLL_STEP: usize = 10;

/// The rows of the terminal that do not show the body: the borders and the
/// status bar.
pub const FRAME_ROWS: usize = 6;

/// The columns of the status bar that its borders take.
pub const BORDER_COLUMNS: usize = 2;

/// A key of the keyboard, as far as a session tells keys apart.
#[derive(Debug, Clone, Copy, PartialEq, Eq)]
pub enum Key {
    /// A key that types this character.
    Char(char),
    Up,
    Down,
    PageUp,
    PageDown,
    /// Any other key.
    Other,
}

/// The lines of the body that a terminal of `terminal_height` rows shows.
pub open spec fn body_rows(terminal_height: usize) -> usize {
    if terminal_height >= FRAME_ROWS {
        (terminal_height - FRAME_ROWS) as usize
    } else {
        0
    }
}

/// The columns of a status bar of `bar_width` columns that show text.
pub open spec fn status_columns(bar_width: usize) -> usize {
    if bar_width >= BORDER_COLUMNS {
        (bar_width - BORDER_COLUMNS) as usize
    } else {
        0
    }
}

/// What a key asks for in a terminal of `terminal_height` rows: `q` quits,
/// `r` marks the selected message as read, `u` unsubscribes, the arrows move
/// the cursor and the page keys scroll. Other keys ask for nothing.
pub open spec fn key_binding(key: Key, terminal_height: usize) -> Option<EventView> {
    match key {
        Key::Char(c) => if c == 'q' {
            Some(EventView::Quit)
        } else if c == 'r' {
            Some(EventView::MarkRead)
        } else if c == 'u' {
            Some(EventView::Unsubscribe)
        } else {
            None
        },
        Key::Up => Some(EventView::MoveUp),
        Key::Down => Some(EventView::MoveDown),
        Key::PageUp => Some(EventView::ScrollUp),
        Key::PageDown => Some(EventView::ScrollDown { visible_height: body_rows(terminal_height) }),
        Key::Other => None,
    }
}

/// What can happen to a session: the user presses a key, or the outside
/// hands back the outcome of a request.
#[derive(Debug, PartialEq, Eq)]
pub enum Event {
    /// The user wants to leave.
    Quit,
    /// The user moves the cursor one message up.
    MoveUp,
    /// The user moves the cursor one message down.
    MoveDown,
    /// The user wants the selected message marked as read.
    MarkRead,
    /// The user wants to unsubscribe from the sender of the selected message.
    Unsubscribe,
    /// The user scrolls the body up.
    ScrollUp,
    /// The user scrolls the body down, in a window of this many lines.
    ScrollDown { visible_height: usize },
    /// The mail service answered the request to mark the selected message as
    /// read: with success, or with the detail of its failure.
    MarkedAsRead(Result<(), String>),
    /// The link of the selected message was handed to the system: with
    /// success, or with the detail of the failure.
    LinkOpened(Result<(), String>),
}

/// An event as a mathematical value.
pub enum EventView {
    Quit,
    MoveUp,
    MoveDown,
    MarkRead,
    Unsubscribe,
    ScrollUp,
    ScrollDown { visible_height: usize },
    MarkedAsRead(Result<(), Seq<char>>),
    LinkOpened(Result<(), Seq<char>>),
}

/// The outcome of a request as a mathematical value.
pub open spec fn outcome_view(outcome: Result<(), String>) -> Result<(), Seq<char>> {
    match outcome {
        Ok(_) => Ok(()),
        Err(detail) => Err(detail@),
    }
}

impl View for Event {
    type V = EventView;

    open spec fn view(&self) -> EventView {
        match self {
            Event::Quit => EventView::Quit,
            Event::MoveUp => EventView::MoveUp,
            Event::MoveDown => EventView::MoveDown,
            Event::MarkRead => EventView::MarkRead,
            Event::Unsubscribe => EventView::Unsubscribe,
            Event::ScrollUp => EventView::ScrollUp,
            Event::ScrollDown { visible_height } => EventView::ScrollDown {
                visible_height: *visible_height,
            },
            Event::MarkedAsRead(outcome) => EventView::MarkedAsRead(outcome_view(*outcome)),
            Event::LinkOpened(outcome) => EventView::LinkOpened(outcome_view(*outcome)),
        }
    }
}

/// What the outside is to do after an event.
#[derive(Debug, PartialEq, Eq)]
pub enum Action {
    /// Draw the session and wait for the next event.
    Continue,
    /// End the session.
    Quit,
    /// Ask the mail service to mark the message with this identifier as
    /// read, and hand back the outcome as `Event::MarkedAsRead`.
    MarkAsRead(String),
    /// Hand this link to the system, and hand back the outcome as
    /// `Event::LinkOpened`.
    OpenLink(String),
}

/// An action as a mathematical value.
pub enum ActionView {
    Continue,
    Quit,
    MarkAsRead(Seq<char>),
    OpenLink(Seq<char>),
}

impl View for Action {
    type V = ActionView;

    open spec fn view(&self) -> ActionView {
        match self {
            Action::Continue => ActionView::Continue,
            Action::Quit => ActionView::Quit,
            Action::MarkAsRead(id) => ActionView::MarkAsRead(id@),
            Action::OpenLink(url) => ActionView::OpenLink(url@),
        }
    }
}

/// A session as a mathematical value: the mailbox, the outcome of the last
/// operation in words, and the number of lines of the selected body that
/// are scrolled away.
pub struct Session {
    pub mailbox: Mailbox,
    pub status_message: Seq<char>,
    pub scroll_offset: nat,
}

impl Session {
    /// The session as it starts on a mailbox: nothing scrolled, nothing to
    /// report.
    pub open spec fn starting(mailbox: Mailbox) -> Session {
        Session { mailbox, status_message: Seq::empty(), scroll_offset: 0 }
    }

    /// The same session with another status message.
    pub open spec fn reporting(self, message: Seq<char>) -> Session {
        Session { status_message: message, ..self }
    }

    /// The cursor moved one message up, and the body is shown from its top.
    pub open spec fn moved_up(self) -> Session {
        Session { mailbox: self.mailbox.previous(), scroll_offset: 0, ..self }
    }

    /// The cursor moved one message down, and the body is shown from its top.
    pub open spec fn moved_down(self) -> Session {
        Session { mailbox: self.mailbox.next(), scroll_offset: 0, ..self }
    }

    /// The body scrolled up by one step, but not past its top.
    pub open spec fn scrolled_up(self) -> Session {
        Session {
            scroll_offset: if self.scroll_offset >= SCROLL_STEP {
                (self.scroll_offset - SCROLL_STEP) as nat
            } else {
                0
            },
            ..self
        }
    }

    /// The most that a body may be scrolled in a window of `visible_height`
    /// lines: the lines that do not fit.
    pub open spec fn scroll_limit(body: Seq<char>, visible_height: usize) -> nat {
        if lines(body).len() >= visible_height {
            (lines(body).len() - visible_height) as nat
        } else {
            0
        }
    }

    /// The body scrolled down by one step, but not past the scroll limit.
    /// Without a selected message nothing changes.
    pub open spec fn scrolled_down(self, visible_height: usize) -> Session {
        match self.mailbox.current() {
            Some(email) => {
                let limit = Session::scroll_limit(email.body, visible_height);
                Session {
                    scroll_offset: if self.scroll_offset + SCROLL_STEP <= limit {
                        (self.scroll_offset + SCROLL_STEP) as nat
                    } else {
                        limit
                    },
                    ..self
                }
            },
            None => self,
        }
    }

    /// The session after the mail service answered. On success the selected
    /// message is gone and the body of the one selected now is shown from
    /// its top; on failure the mailbox is as before. The status message says
    /// which it was.
    pub open spec fn mark_answered(self, outcome: Result<(), Seq<char>>) -> Session {
        match outcome {
            Ok(_) => Session {
                mailbox: self.mailbox.without_selected(),
                status_message: "Email marked as read."@,
                scroll_offset: 0,
            },
            Err(detail) => self.reporting("Error marking email as read: "@ + detail),
        }
    }

    /// The session after the system took the link, or did not.
    pub open spec fn link_answered(self, outcome: Result<(), Seq<char>>) -> Session {
        match outcome {
            Ok(_) => self.reporting("Unsubscribe link opened."@),
            Err(detail) => self.reporting("Error unsubscribing: "@ + detail),
        }
    }

    /// The session after an event.
    pub open spec fn after(self, event: EventView) -> Session {
        match event {
            EventView::Quit => self,
            EventView::MoveUp => self.moved_up(),
            EventView::MoveDown => self.moved_down(),
            EventView::MarkRead => match self.mailbox.current() {
                Some(_) => self,
                None => self.reporting("Email marked as read."@),
            },
            EventView::Unsubscribe => match self.mailbox.unsubscribe() {
                UnsubscribeView::Open(_) => self,
                UnsubscribeView::Report(message) => self.reporting(message),
            },
            EventView::ScrollUp => self.scrolled_up(),
            EventView::ScrollDown { visible_height } => self.scrolled_down(visible_height),
            EventView::MarkedAsRead(outcome) => self.mark_answered(outcome),
            EventView::LinkOpened(outcome) => self.link_answered(outcome),
        }
    }

    /// What the outside is to do after an event.
    pub open spec fn request(self, event: EventView) -> ActionView {
        match event {
            EventView::Quit => ActionView::Quit,
            EventView::MarkRead => match self.mailbox.current() {
                Some(email) => ActionView::MarkAsRead(email.id),
                None => ActionView::Continue,
            },
            EventView::Unsubscribe => match self.mailbox.unsubscribe() {
                UnsubscribeView::Open(url) => ActionView::OpenLink(url),
                UnsubscribeView::Report(_) => ActionView::Continue,
            },
            _ => ActionView::Continue,
        }
    }

    /// The cursor of the mailbox is where it may be.
    pub open spec fn valid(self) -> bool {
        self.mailbox.valid()
    }

    /// What the body pane shows: the body of the selected message, or a
    /// note that none is selected.
    pub open spec fn content(self) -> Seq<char> {
        match self.mailbox.current() {
            Some(email) => email.body,
            None => "No email selected"@,
        }
    }
}

/// Whatever happens to a session, the cursor of its mailbox stays on one of
/// its messages, or on 0 where it has none.
pub proof fn lemma_events_keep_cursor_inside(session: Session, event: EventView)
    requires
        session.valid(),
    ensures
        session.after(event).valid(),
{
}

/// A request to mark a message as read that failed leaves the mailbox and
/// the scroll position as they were, and the status message carries the
/// detail of the failure.
pub proof fn lemma_failed_mark_keeps_mailbox(session: Session, detail: Seq<char>)
    ensures
        session.mark_answered(Err(detail)).mailbox == session.mailbox,
        session.mark_answered(Err(detail)).scroll_offset == session.scroll_offset,
        session.mark_answered(Err(detail)).status_message == "Error marking email as read: "@
            + detail,
{
}

/// A request to mark a message as read that succeeded removes the selected
/// message, leaves the cursor on a message that is still there, and says so
/// in the status message.
pub proof fn lemma_successful_mark_removes(session: Session)
    requires
        session.valid(),
        session.mailbox.messages.len() > 0,
    ensures
        session.mark_answered(Ok(())).mailbox.messages == session.mailbox.messages.remove(
            session.mailbox.selected,
        ),
        session.mark_answered(Ok(())).valid(),
        session.mailbox.selected == session.mailbox.messages.len() - 1
            && session.mailbox.messages.len() > 1 ==> session.mark_answered(
            Ok(()),
        ).mailbox.selected == session.mailbox.messages.len() - 2,
        session.mark_answered(Ok(())).status_message == "Email marked as read."@,
{
}

/// Only quitting ends a session: whatever else happens, and however a
/// request to the outside went, the session goes on.
pub proof fn lemma_only_quit_ends(session: Session, event: EventView)
    ensures
        session.request(event) is Quit <==> event is Quit,
        event is Quit ==> session.after(event) == session,
{
}

/// Unsubscribing never touches the mailbox or the scroll position, whatever
/// the target of the selected message is and however opening its link went.
pub proof fn lemma_unsubscribe_keeps_mailbox(session: Session, outcome: Result<(), Seq<char>>)
    ensures
        session.after(EventView::Unsubscribe).mailbox == session.mailbox,
        session.after(EventView::Unsubscribe).scroll_offset == session.scroll_offset,
        session.after(EventView::LinkOpened(outcome)).mailbox == session.mailbox,
        session.after(EventView::LinkOpened(outcome)).scroll_offset == session.scroll_offset,
{
}

/// Scrolling stays on the body: scrolling down ends at most on the scroll
/// limit of the selected body, and scrolling up never ends further down
/// than before. Neither touches the mailbox or the status message.
pub proof fn lemma_scroll_stays_on_body(session: Session, visible_height: usize)
    ensures
        session.mailbox.current() matches Some(email) ==> session.scrolled_down(
            visible_height,
        ).scroll_offset <= Session::scroll_limit(email.body, visible_height),
        session.scrolled_up().scroll_offset <= session.scroll_offset,
        session.scroll_offset >= SCROLL_STEP ==> session.scrolled_up().scroll_offset
            == session.scroll_offset - SCROLL_STEP,
        session.scrolled_down(visible_height).mailbox == session.mailbox,
        session.scrolled_up().mailbox == session.mailbox,
        session.scrolled_down(visible_height).status_message == session.status_message,
        session.scrolled_up().status_message == session.status_message,
{
}

/// Moving the cursor shows the body from its top, wherever it was scrolled
/// to; below the last message the cursor does not go.
pub proof fn lemma_moves_reset_scroll(session: Session)
    requires
        session.valid(),
    ensures
        session.moved_down().scroll_offset == 0,
        session.moved_up().scroll_offset == 0,
        session.mailbox.selected + 1 < session.mailbox.messages.len()
            ==> session.moved_down().mailbox.selected == session.mailbox.selected + 1,
        session.mailbox.selected > 0 ==> session.moved_up().mailbox.selected
            == session.mailbox.selected - 1,
{
}

/// The event that a key asks for in a terminal of `terminal_height` rows,
/// if it asks for any.
pub fn event_for_key(key: Key, terminal_height: usize) -> (r: Option<Event>)
    ensures
        match r {
            Some(event) => key_binding(key, terminal_height) == Some(event@),
            None => key_binding(key, terminal_height) is None,
        },
{
    match key {
        Key::Char(c) => if c == 'q' {
            Some(Event::Quit)
        } else if c == 'r' {
            Some(Event::MarkRead)
        } else if c == 'u' {
            Some(Event::Unsubscribe)
        } else {
            None
        },
        Key::Up => Some(Event::MoveUp),
        Key::Down => Some(Event::MoveDown),
        Key::PageUp => Some(Event::ScrollUp),
        Key::PageDown => Some(
            Event::ScrollDown {
                visible_height: if terminal_height >= FRAME_ROWS {
                    terminal_height - FRAME_ROWS
                } else {
                    0
                },
            },
        ),
        Key::Other => None,
    }
}

/// The controller of a session.
pub struct TerminalUI {
    app: App,
    status_message: String,
    scroll_offset: usize,
}

impl View for TerminalUI {
    type V = Session;

    closed spec fn view(&self) -> Session {
        Session {
            mailbox: self.app@,
            status_message: self.status_message@,
            scroll_offset: self.scroll_offset as nat,
        }
    }
}

impl TerminalUI {
    /// A session that starts on `app`.
    pub fn new(app: App) -> (ui: Self)
        ensures
            ui@ == Session::starting(app@),
            ui@.valid(),
    {
        proof {
            use_type_invariant(&app);
        }
        TerminalUI { app, status_message: String::new(), scroll_offset: 0 }
    }

    /// The mailbox of the session.
    pub fn app(&self) -> (r: &App)
        ensures
            r@ == self@.mailbox,
            self@.valid(),
    {
        proof {
            use_type_invariant(&self.app);
        }
        &self.app
    }

    /// The outcome of the last operation, in words.
    pub fn status_message(&self) -> (r: &str)
        ensures
            r@ == self@.status_message,
    {
        self.status_message.as_str()
    }

    /// The number of lines of the body that are scrolled away.
    pub fn scroll_offset(&self) -> (r: usize)
        ensures
            r == self@.scroll_offset,
    {
        self.scroll_offset
    }

    /// What the body pane shows.
    pub fn content(&self) -> (r: &str)
        ensures
            r@ == self@.content(),
    {
        match self.app.current() {
            Some(email) => email.body.as_str(),
            None => "No email selected",
        }
    }

    /// What a status bar of `bar_width` columns shows: the status message,
    /// cut to the columns between the borders.
    pub fn status_line(&self, bar_width: usize) -> (r: String)
        ensures
            r@ == truncated(self@.status_message, status_columns(bar_width)),
    {
        let columns: usize = if bar_width >= BORDER_COLUMNS {
            bar_width - BORDER_COLUMNS
        } else {
            0
        };
        truncate_with_ellipsis(self.status_message.as_str(), columns)
    }

    /// Moves the cursor one message up and shows the body from its top.
    pub fn handle_up(&mut self)
        ensures
            final(self)@ == old(self)@.moved_up(),
    {
        self.app.select_previous();
        self.scroll_offset = 0;
    }

    /// Moves the cursor one message down and shows the body from its top.
    pub fn handle_down(&mut self)
        ensures
            final(self)@ == old(self)@.moved_down(),
    {
        self.app.select_next();
        self.scroll_offset = 0;
    }

    /// Scrolls the body up by one step, but not past its top.
    pub fn handle_page_up(&mut self)
        ensures
            final(self)@ == old(self)@.scrolled_up(),
    {
        self.scroll_offset = if self.scroll_offset >= SCROLL_STEP {
            self.scroll_offset - SCROLL_STEP
        } else {
            0
        };
    }

    /// Scrolls the body down by one step in a window of `visible_height`
    /// lines, but not past the lines that do not fit.
    pub fn handle_page_down(&mut self, visible_height: usize)
        ensures
            final(self)@ == old(self)@.scrolled_down(visible_height),
    {
        if let Some(email) = self.app.current() {
            let content_height = line_count(&chars_of(email.body.as_str()));
            let limit: usize = if content_height >= visible_height {
                content_height - visible_height
            } else {
                0
            };
            self.scroll_offset = if limit >= SCROLL_STEP && self.scroll_offset <= limit
                - SCROLL_STEP {
                self.scroll_offset + SCROLL_STEP
            } else {
                limit
            };
        }
    }

    /// Starts marking the selected message as read: the request goes to the
    /// outside, and the session changes when the answer comes back. Without
    /// a selected message there is nothing to ask.
    pub fn handle_mark_as_read(&mut self) -> (action: Action)
        ensures
            final(self)@ == old(self)@.after(EventView::MarkRead),
            action@ == old(self)@.request(EventView::MarkRead),
    {
        match self.app.current() {
            Some(email) => Action::MarkAsRead(email.id.clone()),
            None => {
                self.status_message = String::from_str("Email marked as read.");
                Action::Continue
            },
        }
    }

    /// Takes the answer of the mail service: on success the selected message
    /// leaves the mailbox, on failure the mailbox stays as it is, and the
    /// status message says which it was.
    pub fn mark_as_read_answered(&mut self, outcome: Result<(), String>)
        ensures
            final(self)@ == old(self)@.mark_answered(outcome_view(outcome)),
    {
        match self.app.mark_as_read(outcome) {
            Ok(()) => {
                self.scroll_offset = 0;
                self.status_message = String::from_str("Email marked as read.");
            },
            Err(detail) => {
                self.status_message = String::from_str("Error marking email as read: ").concat(
                    detail.as_str(),
                );
            },
        }
    }

    /// Starts unsubscribing from the sender of the selected message: a web
    /// link goes to the outside to be opened, anything else only sets the
    /// status message.
    pub fn handle_unsubscribe(&mut self) -> (action: Action)
        ensures
            final(self)@ == old(self)@.after(EventView::Unsubscribe),
            action@ == old(self)@.request(EventView::Unsubscribe),
    {
        match self.app.unsubscribe() {
            Unsubscribe::Open(url) => Action::OpenLink(url),
            Unsubscribe::Report(message) => {
                self.status_message = message;
                Action::Continue
            },
        }
    }

    /// Takes the outcome of opening a link and reports it.
    pub fn link_opened(&mut self, outcome: Result<(), String>)
        ensures
            final(self)@ == old(self)@.link_answered(outcome_view(outcome)),
    {
        match outcome {
            Ok(()) => {
                self.status_message = String::from_str("Unsubscribe link opened.");
            },
            Err(detail) => {
                self.status_message = String::from_str("Error unsubscribing: ").concat(
                    detail.as_str(),
                );
            },
        }
    }

    /// Takes one event: changes the session as the event asks, and says
    /// what the outside is to do next.
    pub fn handle_event(&mut self, event: Event) -> (action: Action)
        ensures
            final(self)@ == old(self)@.after(event@),
            action@ == old(self)@.request(event@),
            final(self)@.valid(),
    {
        proof {
            use_type_invariant(&self.app);
            lemma_events_keep_cursor_inside(self@, event@);
        }
        match event {
            Event::Quit => Action::Quit,
            Event::MoveUp => {
                self.handle_up();
                Action::Continue
            },
            Event::MoveDown => {
                self.handle_down();
                Action::Continue
            },
            Event::MarkRead => self.handle_mark_as_read(),
            Event::Unsubscribe => self.handle_unsubscribe(),
            Event::ScrollUp => {
                self.handle_page_up();
                Action::Continue
            },
            Event::ScrollDown { visible_height } => {
                self.handle_page_down(visible_height);
                Action::Continue
            },
            Event::MarkedAsRead(outcome) => {
                self.mark_as_read_answered(outcome);
                Action::Continue
            },
            Event::LinkOpened(outcome) => {
                self.link_opened(outcome);
                Action::Continue
            },
        }
    }
}

} // verus!
