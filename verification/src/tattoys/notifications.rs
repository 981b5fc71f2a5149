//! Display notification messages in the UI.
//!
//! Messages are shown in the top right corner, most urgent first, each as a title row followed
//! by a row for each line of its body. Every message is as wide as its widest line (in bytes,
//! as the terminal counts them), but never wider than the terminal allows. How a message fades
//! in and out, and its colours, depend on time and on floating point colour values; they are
//! the application's part.
use crate::util::{split_lines, str_len, string_chars, text_len, lines};
use vstd::prelude::*;

verus! {

/// The urgency level of a notification, most urgent first.
#[derive(Clone, Copy, Debug, PartialEq, Eq, Structural)]
pub enum Level {
    /// Errors.
    Error,
    /// Warnings.
    Warn,
    /// Informative notifications.
    Info,
    /// Debugging notifications.
    Debug,
    /// Tracing notifications.
    Trace,
}

/// The position of a level in the order of urgency: 0 is the most urgent.
pub open spec fn rank(level: Level) -> int {
    match level {
        Level::Error => 0,
        Level::Warn => 1,
        Level::Info => 2,
        Level::Debug => 3,
        Level::Trace => 4,
    }
}

impl Level {
    /// The position of the level in the order of urgency: 0 is the most urgent.
    pub fn rank(&self) -> (res: u8)
        ensures
            res == rank(*self),
    {
        match self {
            Level::Error => 0,
            Level::Warn => 1,
            Level::Info => 2,
            Level::Debug => 3,
            Level::Trace => 4,
        }
    }
}

impl Default for Level {
    /// Warnings.
    fn default() -> (res: Self)
        ensures
            res == Level::Warn,
    {
        Level::Warn
    }
}

/// A single notification message.
#[derive(Debug)]
pub struct Message {
    /// The text of the notification.
    pub title: String,
    /// An optional body for the notification.
    pub body: Option<String>,
    /// The level of the notification.
    pub level: Level,
}

/// The notifications display.
pub struct Notifications;

/// The fragment that tells where more details of a notification are: the log file when there
/// is logging, otherwise a suggestion to enable it.
pub open spec fn logs_help(is_logging: bool, log_path: Seq<char>) -> Seq<char> {
    if is_logging {
        "Check logs for more details: "@ + log_path
    } else {
        "Enable logging for more details"@
    }
}

/// The body that a notification is sent with: a body that asks for the logs message gets it
/// after an empty line; without a body, or without the request, the body stays as it is.
pub open spec fn notification_body(
    body: Option<Seq<char>>,
    include_logs_message: bool,
    is_logging: bool,
    log_path: Seq<char>,
) -> Option<Seq<char>> {
    match body {
        Some(b) => if include_logs_message {
            Some(b + "\n\n"@ + logs_help(is_logging, log_path))
        } else {
            Some(b)
        },
        None => None,
    }
}

impl Notifications {
    /// Format a helpful message fragment suggesting to look at logs.
    pub fn logs_help_text(is_logging: bool, log_path: &str) -> (res: String)
        ensures
            res@ == logs_help(is_logging, log_path@),
    {
        if is_logging {
            let mut text = String::from_str("Check logs for more details: ");
            text.append(log_path);
            text
        } else {
            String::from_str("Enable logging for more details")
        }
    }

    /// The body to send a notification with, given whether to add the logs message to it.
    pub fn notification_body(
        body: Option<String>,
        include_logs_message: bool,
        is_logging: bool,
        log_path: &str,
    ) -> (res: Option<String>)
        ensures
            (match res {
                Some(r) => Some(r@),
                None => None,
            }) == notification_body(
                match body {
                    Some(b) => Some(b@),
                    None => None,
                },
                include_logs_message,
                is_logging,
                log_path@,
            ),
    {
        match body {
            Some(b) => {
                if include_logs_message {
                    let help = Self::logs_help_text(is_logging, log_path);
                    let mut text = b;
                    text.append("\n\n");
                    text.append(help.as_str());
                    Some(text)
                } else {
                    Some(b)
                }
            },
            None => None,
        }
    }
}

/// One row of the notifications display.
#[derive(Debug)]
pub struct NotificationLine {
    /// The column where the row starts.
    pub x: usize,
    /// The row.
    pub y: usize,
    /// The text of the row, padded with spaces to the width of its message.
    pub text: Vec<char>,
    /// The index of the message the row belongs to.
    pub message: usize,
    /// Whether the row is a line of the body (as opposed to the title).
    pub is_body: bool,
}

/// A row of the display, as values: column, row, text, message index, whether body.
pub type LineView = (int, int, Seq<char>, int, bool);

/// The largest number of bytes of the given lines; 0 without lines.
pub open spec fn max_line_len(ls: Seq<Seq<char>>) -> nat
    decreases ls.len(),
{
    if ls.len() == 0 {
        0
    } else {
        let rest = max_line_len(ls.drop_last());
        if str_len(ls.last()) > rest {
            str_len(ls.last())
        } else {
            rest
        }
    }
}

/// The lines of a message's body: none without a body.
pub open spec fn body_lines(body: Option<Seq<char>>) -> Seq<Seq<char>> {
    match body {
        Some(b) => lines(b),
        None => Seq::empty(),
    }
}

/// The widest part of a message, in bytes: its title or one of its body's lines.
pub open spec fn message_max_width(title: Seq<char>, body: Option<Seq<char>>) -> nat {
    let widest = max_line_len(body_lines(body));
    if widest > str_len(title) {
        widest
    } else {
        str_len(title)
    }
}

/// A message as values: its title, its body and its level.
pub open spec fn message_view(m: Message) -> (Seq<char>, Option<Seq<char>>, Level) {
    (
        m.title@,
        match m.body {
            Some(b) => Some(b@),
            None => None,
        },
        m.level,
    )
}

/// `n` spaces.
pub open spec fn spaces(n: nat) -> Seq<char> {
    Seq::new(n, |i: int| ' ')
}

/// A row's text: a space, the text, and spaces up to the message's width plus one.
pub open spec fn padded(text: Seq<char>, width: int) -> Seq<char> {
    let used = if str_len(text) > width {
        width
    } else {
        str_len(text) as int
    };
    seq![' '] + text + spaces((width - used + 1) as nat)
}

/// The width of a message on a terminal: its widest part, but at most two columns less than
/// the terminal.
pub open spec fn shown_width(m: (Seq<char>, Option<Seq<char>>, Level), tty_width: int) -> int {
    let widest = message_max_width(m.0, m.1) as int;
    if widest > tty_width - 2 {
        tty_width - 2
    } else {
        widest
    }
}

/// The rows of one message, from row `y`: its title, then its body's lines.
pub open spec fn message_rows(
    m: (Seq<char>, Option<Seq<char>>, Level),
    index: int,
    y: int,
    tty_width: int,
) -> Seq<LineView> {
    let width = shown_width(m, tty_width);
    let x = tty_width - width - 2;
    seq![(x, y, padded(m.0, width), index, false)] + Seq::new(
        body_lines(m.1).len(),
        |j: int| (x, y + 1 + j, padded(body_lines(m.1)[j], width), index, true),
    )
}

/// The number of rows of one message.
pub open spec fn message_height(m: (Seq<char>, Option<Seq<char>>, Level)) -> int {
    1 + body_lines(m.1).len() as int
}

/// The indices of the messages at the given level, in their order.
pub open spec fn with_rank(levels: Seq<Level>, r: int) -> Seq<int>
    decreases levels.len(),
{
    if levels.len() == 0 {
        Seq::empty()
    } else {
        with_rank(levels.drop_last(), r) + if rank(levels.last()) == r {
            seq![levels.len() - 1]
        } else {
            Seq::empty()
        }
    }
}

/// The indices of the messages shown up to the given level, most urgent first and otherwise
/// in their order: what keeping the messages at or above the level and sorting them stably by
/// level gives.
pub open spec fn shown_order(levels: Seq<Level>, max_rank: int) -> Seq<int>
    decreases max_rank + 1,
{
    if max_rank < 0 {
        Seq::empty()
    } else {
        shown_order(levels, max_rank - 1) + with_rank(levels, max_rank)
    }
}

/// The number of rows of the given messages.
pub open spec fn rows_height(msgs: Seq<(Seq<char>, Option<Seq<char>>, Level)>, order: Seq<int>) -> int
    decreases order.len(),
{
    if order.len() == 0 {
        0
    } else {
        rows_height(msgs, order.drop_last()) + message_height(msgs[order.last()])
    }
}

/// The rows of the given messages, one after the other from the top.
pub open spec fn layout_rows(
    msgs: Seq<(Seq<char>, Option<Seq<char>>, Level)>,
    order: Seq<int>,
    tty_width: int,
) -> Seq<LineView>
    decreases order.len(),
{
    if order.len() == 0 {
        Seq::empty()
    } else {
        layout_rows(msgs, order.drop_last(), tty_width) + message_rows(
            msgs[order.last()],
            order.last(),
            rows_height(msgs, order.drop_last()),
            tty_width,
        )
    }
}

/// The messages as values.
pub open spec fn messages_view(messages: Seq<Message>) -> Seq<(Seq<char>, Option<Seq<char>>, Level)> {
    messages.map_values(|m: Message| message_view(m))
}

/// The levels of the messages.
pub open spec fn levels_of(messages: Seq<Message>) -> Seq<Level> {
    messages.map_values(|m: Message| m.level)
}

/// A row as values.
pub open spec fn line_view(line: NotificationLine) -> LineView {
    (line.x as int, line.y as int, line.text@, line.message as int, line.is_body)
}

impl Message {
    /// Create a new notification.
    pub fn make(text: &str, level: Level, body: Option<String>) -> (res: Self)
        ensures
            res.title@ == text@,
            res.level == level,
            res.body == body,
    {
        Message { title: text.to_owned(), body, level }
    }

    /// The body as text, if any.
    fn body_chars(&self) -> (res: Option<Vec<char>>)
        ensures
            res matches Some(b) ==> self.body matches Some(s) && b@ == s@,
            res is None ==> self.body is None,
    {
        match &self.body {
            Some(b) => Some(string_chars(b)),
            None => None,
        }
    }

    /// Calculate the widest part of the message, in bytes.
    pub fn max_width(&self) -> (res: usize)
        requires
            message_max_width(message_view(*self).0, message_view(*self).1) <= usize::MAX,
        ensures
            res == message_max_width(message_view(*self).0, message_view(*self).1),
    {
        let title = string_chars(&self.title);
        let body = self.body_chars();
        let widest = Self::widest_line(&body);
        let title_len = text_len(title.as_slice());
        if widest > title_len {
            widest as usize
        } else {
            title_len as usize
        }
    }

    /// The largest number of bytes of a body's lines.
    fn widest_line(body: &Option<Vec<char>>) -> (res: u128)
        ensures
            res == max_line_len(body_lines(
                match body {
                    Some(b) => Some(b@),
                    None => None,
                },
            )),
    {
        match body {
            None => 0,
            Some(b) => {
                let ls = split_lines(b);
                let ghost views = ls@.map_values(|l: Vec<char>| l@);
                let mut widest: u128 = 0;
                let mut i: usize = 0;
                while i < ls.len()
                    invariant
                        views == ls@.map_values(|l: Vec<char>| l@),
                        views == lines(b@),
                        0 <= i <= ls@.len(),
                        widest == max_line_len(views.take(i as int)),
                    decreases ls@.len() - i,
                {
                    let len = text_len(ls[i].as_slice());
                    proof {
                        assert(views.take(i + 1).drop_last() =~= views.take(i as int));
                        assert(views.take(i + 1).last() == ls@[i as int]@);
                    }
                    if len > widest {
                        widest = len;
                    }
                    i = i + 1;
                }
                assert(views.take(i as int) =~= views);
                widest
            },
        }
    }
}

/// A row's text: a space, the text, and spaces up to the width plus one.
fn padded_text(text: &Vec<char>, width: usize) -> (res: Vec<char>)
    requires
        width < usize::MAX,
    ensures
        res@ == padded(text@, width as int),
{
    let mut out: Vec<char> = Vec::new();
    out.push(' ');
    let mut i: usize = 0;
    while i < text.len()
        invariant
            0 <= i <= text@.len(),
            out@ == seq![' '] + text@.take(i as int),
        decreases text@.len() - i,
    {
        out.push(text[i]);
        i = i + 1;
        assert(out@ =~= seq![' '] + text@.take(i as int));
    }
    assert(text@.take(i as int) =~= text@);
    let len = text_len(text.as_slice());
    let used: usize = if len > width as u128 {
        width
    } else {
        len as usize
    };
    let right_padding = width - used + 1;
    let ghost head = out@;
    let mut k: usize = 0;
    while k < right_padding
        invariant
            0 <= k <= right_padding,
            out@ == head + spaces(k as nat),
        decreases right_padding - k,
    {
        out.push(' ');
        k = k + 1;
        assert(out@ =~= head + spaces(k as nat));
    }
    out
}

/// The shown rows of a message grow with each message, and so does their height.
proof fn lemma_layout_push(
    msgs: Seq<(Seq<char>, Option<Seq<char>>, Level)>,
    order: Seq<int>,
    i: int,
    tty_width: int,
)
    ensures
        layout_rows(msgs, order.push(i), tty_width) == layout_rows(msgs, order, tty_width)
            + message_rows(msgs[i], i, rows_height(msgs, order), tty_width),
        rows_height(msgs, order.push(i)) == rows_height(msgs, order) + message_height(msgs[i]),
{
    assert(order.push(i).drop_last() =~= order);
}

/// The messages picked for a level are exactly the valid indices at that level.
proof fn lemma_with_rank(levels: Seq<Level>, r: int)
    ensures
        forall|k: int|
            0 <= k < with_rank(levels, r).len() ==> 0 <= #[trigger] with_rank(levels, r)[k] < levels.len()
                && rank(levels[with_rank(levels, r)[k]]) == r,
        forall|i: int| 0 <= i < levels.len() && rank(levels[i]) == r ==> with_rank(levels, r).contains(i),
    decreases levels.len(),
{
    if levels.len() > 0 {
        let rest = levels.drop_last();
        lemma_with_rank(rest, r);
        let w = with_rank(levels, r);
        let wr = with_rank(rest, r);
        let extra = if rank(levels.last()) == r {
            seq![levels.len() - 1]
        } else {
            Seq::<int>::empty()
        };
        assert(w == wr + extra);
        assert forall|k: int| 0 <= k < w.len() implies 0 <= #[trigger] w[k] < levels.len() && rank(
            levels[w[k]],
        ) == r by {
            if k < wr.len() {
                assert(w[k] == wr[k]);
                assert(levels[wr[k]] == rest[wr[k]]);
            }
        }
        assert forall|i: int| 0 <= i < levels.len() && rank(levels[i]) == r implies w.contains(i) by {
            if i < levels.len() - 1 {
                assert(rest[i] == levels[i]);
                assert(0 <= i < rest.len() && rank(rest[i]) == r);
                assert(wr.contains(i));
                let k = choose|k: int| 0 <= k < wr.len() && wr[k] == i;
                assert(w[k] == wr[k]);
            } else {
                assert(levels.last() == levels[i]);
                assert(w[wr.len() as int] == i);
            }
        }
    }
}

/// The shown messages are those at or above the level, and the most urgent come first.
pub proof fn lemma_shown_order_is_sorted_and_complete(levels: Seq<Level>, max_rank: int)
    ensures
        forall|k: int|
            0 <= k < shown_order(levels, max_rank).len() ==> 0 <= #[trigger] shown_order(levels, max_rank)[k]
                < levels.len() && rank(levels[shown_order(levels, max_rank)[k]]) <= max_rank,
        forall|a: int, b: int|
            0 <= a < b < shown_order(levels, max_rank).len() ==> rank(
                levels[#[trigger] shown_order(levels, max_rank)[a]],
            ) <= rank(levels[#[trigger] shown_order(levels, max_rank)[b]]),
        forall|i: int|
            0 <= i < levels.len() && rank(levels[i]) <= max_rank ==> shown_order(levels, max_rank).contains(i),
    decreases max_rank + 1,
{
    if max_rank >= 0 {
        lemma_shown_order_is_sorted_and_complete(levels, max_rank - 1);
        lemma_with_rank(levels, max_rank);
        let p = shown_order(levels, max_rank - 1);
        let w = with_rank(levels, max_rank);
        let o = shown_order(levels, max_rank);
        assert(o == p + w);
        assert forall|k: int| 0 <= k < o.len() implies 0 <= #[trigger] o[k] < levels.len() && rank(
            levels[o[k]],
        ) <= max_rank by {
            if k < p.len() {
                assert(o[k] == p[k]);
            } else {
                assert(o[k] == w[k - p.len()]);
            }
        }
        assert forall|a: int, b: int| 0 <= a < b < o.len() implies rank(levels[#[trigger] o[a]]) <= rank(
            levels[#[trigger] o[b]],
        ) by {
            if b < p.len() {
                assert(o[a] == p[a] && o[b] == p[b]);
            } else if a < p.len() {
                assert(o[a] == p[a]);
                assert(o[b] == w[b - p.len()]);
            } else {
                assert(o[a] == w[a - p.len()]);
                assert(o[b] == w[b - p.len()]);
            }
        }
        assert forall|i: int| 0 <= i < levels.len() && rank(levels[i]) <= max_rank implies o.contains(i) by {
            if rank(levels[i]) < max_rank {
                assert(rank(levels[i]) <= max_rank - 1);
                assert(p.contains(i));
                let k = choose|k: int| 0 <= k < p.len() && p[k] == i;
                assert(o[k] == p[k]);
            } else {
                assert(rank(levels[i]) == max_rank);
                assert(w.contains(i));
                let k = choose|k: int| 0 <= k < w.len() && w[k] == i;
                assert(o[p.len() + k] == w[k]);
            }
        }
    }
}

/// Appending messages never lowers the number of rows.
proof fn lemma_rows_height_append(
    msgs: Seq<(Seq<char>, Option<Seq<char>>, Level)>,
    a: Seq<int>,
    b: Seq<int>,
)
    ensures
        rows_height(msgs, a) <= rows_height(msgs, a + b),
    decreases b.len(),
{
    if b.len() > 0 {
        assert((a + b).drop_last() =~= a + b.drop_last());
        assert((a + b).last() == b.last());
        lemma_rows_height_append(msgs, a, b.drop_last());
    } else {
        assert(a + b =~= a);
    }
}

/// The messages of a level among the first ones are fewer rows than among all.
proof fn lemma_with_rank_prefix(
    msgs: Seq<(Seq<char>, Option<Seq<char>>, Level)>,
    p: Seq<int>,
    levels: Seq<Level>,
    r: int,
    k: int,
)
    requires
        0 <= k <= levels.len(),
    ensures
        rows_height(msgs, p + with_rank(levels.take(k), r)) <= rows_height(
            msgs,
            p + with_rank(levels, r),
        ),
    decreases levels.len() - k,
{
    if k < levels.len() {
        lemma_with_rank_prefix(msgs, p, levels, r, k + 1);
        assert(levels.take(k + 1).drop_last() =~= levels.take(k));
        let extra = if rank(levels[k]) == r {
            seq![k]
        } else {
            Seq::<int>::empty()
        };
        assert(with_rank(levels.take(k + 1), r) == with_rank(levels.take(k), r) + extra);
        assert(p + with_rank(levels.take(k + 1), r) =~= (p + with_rank(levels.take(k), r))
            + extra);
        lemma_rows_height_append(msgs, p + with_rank(levels.take(k), r), extra);
    } else {
        assert(levels.take(k) =~= levels);
    }
}

/// The rows up to a level are no more than the rows up to a later level.
proof fn lemma_shown_order_rows(
    msgs: Seq<(Seq<char>, Option<Seq<char>>, Level)>,
    levels: Seq<Level>,
    r: int,
    max_rank: int,
)
    requires
        -1 <= r <= max_rank,
    ensures
        rows_height(msgs, shown_order(levels, r)) <= rows_height(msgs, shown_order(levels, max_rank)),
    decreases max_rank - r,
{
    if r < max_rank {
        lemma_shown_order_rows(msgs, levels, r + 1, max_rank);
        lemma_rows_height_append(msgs, shown_order(levels, r), with_rank(levels, r + 1));
    }
}

/// The rows laid out so far are no more than all the rows.
proof fn lemma_rows_height_prefix(
    msgs: Seq<(Seq<char>, Option<Seq<char>>, Level)>,
    levels: Seq<Level>,
    r: int,
    max_rank: int,
    k: int,
)
    requires
        0 <= r <= max_rank,
        0 <= k <= levels.len(),
    ensures
        rows_height(msgs, shown_order(levels, r - 1) + with_rank(levels.take(k), r)) <= rows_height(
            msgs,
            shown_order(levels, max_rank),
        ),
{
    lemma_with_rank_prefix(msgs, shown_order(levels, r - 1), levels, r, k);
    lemma_shown_order_rows(msgs, levels, r, max_rank);
}

/// Append one row.
fn push_line(out: &mut Vec<NotificationLine>, line: NotificationLine)
    ensures
        final(out)@.map_values(|l: NotificationLine| line_view(l)) == old(out)@.map_values(
            |l: NotificationLine| line_view(l),
        ).push(line_view(line)),
{
    let ghost v = line_view(line);
    out.push(line);
    assert(out@.map_values(|l: NotificationLine| line_view(l)) =~= old(out)@.map_values(
        |l: NotificationLine| line_view(l),
    ).push(v));
}

/// Append the rows of one message from row `y`, returning the row after them.
fn push_message_rows(
    out: &mut Vec<NotificationLine>,
    message: &Message,
    index: usize,
    y: usize,
    tty_width: u16,
) -> (next_y: usize)
    requires
        tty_width >= 2,
        message_max_width(message_view(*message).0, message_view(*message).1) <= usize::MAX,
        y + message_height(message_view(*message)) <= usize::MAX,
    ensures
        final(out)@.map_values(|l: NotificationLine| line_view(l)) == old(out)@.map_values(
            |l: NotificationLine| line_view(l),
        ) + message_rows(message_view(*message), index as int, y as int, tty_width as int),
        next_y == y + message_height(message_view(*message)),
{
    let ghost m = message_view(*message);
    let widest = message.max_width();
    let limit: usize = (tty_width as usize) - 2;
    let width: usize = if widest > limit {
        limit
    } else {
        widest
    };
    assert(width == shown_width(m, tty_width as int));
    let x: usize = (tty_width as usize) - width - 2;
    let ghost start = old(out)@.map_values(|l: NotificationLine| line_view(l));
    let ghost rows = message_rows(m, index as int, y as int, tty_width as int);
    let title = string_chars(&message.title);
    let title_text = padded_text(&title, width);
    push_line(out, NotificationLine { x, y, text: title_text, message: index, is_body: false });
    let body = message.body_chars();
    let ls: Vec<Vec<char>> = match body {
        Some(b) => split_lines(&b),
        None => Vec::new(),
    };
    let ghost views = ls@.map_values(|l: Vec<char>| l@);
    assert(views =~= body_lines(m.1));
    assert(out@.map_values(|l: NotificationLine| line_view(l)) =~= start + rows.take(1));
    let mut j: usize = 0;
    while j < ls.len()
        invariant
            views == ls@.map_values(|l: Vec<char>| l@),
            views == body_lines(m.1),
            rows == message_rows(m, index as int, y as int, tty_width as int),
            width == shown_width(m, tty_width as int),
            x == tty_width - width - 2,
            y + 1 + views.len() <= usize::MAX,
            width < usize::MAX,
            0 <= j <= ls@.len(),
            out@.map_values(|l: NotificationLine| line_view(l)) == start + rows.take(1 + j),
        decreases ls@.len() - j,
    {
        let text = padded_text(&ls[j], width);
        let line = NotificationLine { x, y: y + 1 + j, text, message: index, is_body: true };
        assert(line_view(line) == rows[1 + j]);
        push_line(out, line);
        j = j + 1;
        assert(rows.take(1 + j) =~= rows.take(j as int).push(rows[j as int]));
        assert(out@.map_values(|l: NotificationLine| line_view(l)) =~= start + rows.take(1 + j));
    }
    assert(rows.take(1 + j) =~= rows);
    y + 1 + ls.len()
}

/// Lay out the shown messages: those at or above the given level, most urgent first, each
/// right-aligned two columns from the terminal's right edge.
pub fn layout(messages: &Vec<Message>, level: Level, tty_width: u16) -> (res: Vec<NotificationLine>)
    requires
        tty_width >= 2,
        forall|i: int|
            0 <= i < messages@.len() ==> message_max_width(
                #[trigger] messages_view(messages@)[i].0,
                messages_view(messages@)[i].1,
            ) <= usize::MAX,
        rows_height(messages_view(messages@), shown_order(levels_of(messages@), rank(level)))
            <= usize::MAX,
    ensures
        res@.map_values(|l: NotificationLine| line_view(l)) == layout_rows(
            messages_view(messages@),
            shown_order(levels_of(messages@), rank(level)),
            tty_width as int,
        ),
{
    let ghost msgs = messages_view(messages@);
    let ghost levels = levels_of(messages@);
    let mut out: Vec<NotificationLine> = Vec::new();
    let mut y: usize = 0;
    let max_rank = level.rank();
    let mut r: u8 = 0;
    while r <= max_rank
        invariant
            msgs == messages_view(messages@),
            levels == levels_of(messages@),
            max_rank == rank(level),
            tty_width >= 2,
            forall|i: int|
                0 <= i < messages@.len() ==> message_max_width(
                    #[trigger] messages_view(messages@)[i].0,
                    messages_view(messages@)[i].1,
                ) <= usize::MAX,
            rows_height(msgs, shown_order(levels, rank(level))) <= usize::MAX,
            0 <= r <= max_rank + 1,
            out@.map_values(|l: NotificationLine| line_view(l)) == layout_rows(
                msgs,
                shown_order(levels, r - 1),
                tty_width as int,
            ),
            y == rows_height(msgs, shown_order(levels, r - 1)),
        decreases max_rank + 1 - r,
    {
        let mut i: usize = 0;
        while i < messages.len()
            invariant
                msgs == messages_view(messages@),
                levels == levels_of(messages@),
                max_rank == rank(level),
                tty_width >= 2,
                forall|i: int|
                    0 <= i < messages@.len() ==> message_max_width(
                        #[trigger] messages_view(messages@)[i].0,
                        messages_view(messages@)[i].1,
                    ) <= usize::MAX,
                rows_height(msgs, shown_order(levels, rank(level))) <= usize::MAX,
                0 <= r <= max_rank,
                0 <= i <= messages@.len(),
                out@.map_values(|l: NotificationLine| line_view(l)) == layout_rows(
                    msgs,
                    shown_order(levels, r - 1) + with_rank(levels.take(i as int), r as int),
                    tty_width as int,
                ),
                y == rows_height(
                    msgs,
                    shown_order(levels, r - 1) + with_rank(levels.take(i as int), r as int),
                ),
            decreases messages@.len() - i,
        {
            let ghost order = shown_order(levels, r - 1) + with_rank(levels.take(i as int), r as int);
            proof {
                assert(levels.take(i + 1).drop_last() =~= levels.take(i as int));
                assert(levels.take(i + 1).last() == messages@[i as int].level);
            }
            if messages[i].level.rank() == r {
                proof {
                    lemma_layout_push(msgs, order, i as int, tty_width as int);
                    assert(order.push(i as int) =~= shown_order(levels, r - 1) + with_rank(
                        levels.take(i + 1),
                        r as int,
                    ));
                    lemma_rows_height_prefix(msgs, levels, r as int, rank(level), i + 1);
                }
                let next_y = push_message_rows(&mut out, &messages[i], i, y, tty_width);
                y = next_y;
            } else {
                proof {
                    assert(order =~= shown_order(levels, r - 1) + with_rank(
                        levels.take(i + 1),
                        r as int,
                    ));
                }
            }
            i = i + 1;
        }
        proof {
            assert(levels.take(i as int) =~= levels);
        }
        r = r + 1;
    }
    out
}

/// The levels are ranked in their order of urgency: errors, warnings, information, debugging,
/// tracing. So at the tracing level every message shows, and at the error level only errors
/// show.
pub proof fn lemma_levels_ranked_by_urgency(levels: Seq<Level>)
    ensures
        rank(Level::Error) < rank(Level::Warn) < rank(Level::Info) < rank(Level::Debug) < rank(
            Level::Trace,
        ),
        forall|i: int| 0 <= i < levels.len() ==> shown_order(levels, rank(Level::Trace)).contains(i),
        forall|k: int|
            0 <= k < shown_order(levels, rank(Level::Error)).len() ==> levels[#[trigger] shown_order(
                levels,
                rank(Level::Error),
            )[k]] == Level::Error,
{
    lemma_shown_order_is_sorted_and_complete(levels, rank(Level::Trace));
    lemma_shown_order_is_sorted_and_complete(levels, rank(Level::Error));
    assert forall|i: int| 0 <= i < levels.len() implies shown_order(levels, rank(Level::Trace)).contains(
        i,
    ) by {
        assert(rank(levels[i]) <= rank(Level::Trace));
    }
    assert forall|k: int| 0 <= k < shown_order(levels, rank(Level::Error)).len() implies levels[
        #[trigger] shown_order(levels, rank(Level::Error))[k]] == Level::Error by {
        let i = shown_order(levels, rank(Level::Error))[k];
        assert(rank(levels[i]) <= rank(Level::Error));
    }
}

} // verus!
