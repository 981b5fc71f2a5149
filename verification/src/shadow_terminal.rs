//! The byte-level logic of the shadow terminal: an in-memory terminal fed by a PTY.
//!
//! Input reaches the PTY in fixed size payloads padded with zeros, PTY output is accumulated
//! before it is handed to the in-memory terminal, a few escape codes in the output need a
//! reaction, and the view can be scrolled back through the terminal's history.
use crate::ansi::{ascii_bytes, decimal, push_chars, push_decimal, to_ascii_bytes};
use vstd::prelude::*;

verus! {

/// The size of a single input payload for the PTY.
pub const PAYLOAD_SIZE: usize = 128;

/// A single payload from the user's input stream (or sometimes internal input). Unused bytes
/// are zeros.
pub type BytesFromSTDIN = [u8; 128];

/// All the control signals.
#[non_exhaustive]
pub enum Protocol {
    /// End all loops to allow graceful shutdown.
    End,
    /// Resize the PTY and shadow terminal.
    Resize {
        /// Width of the shadow terminal.
        width: u16,
        /// Height of the shadow terminal.
        height: u16,
    },
    /// Scroll the view of the terminal's history.
    Scroll(Scroll),
}

/// The ways to scroll the terminal's history.
#[derive(Clone, Copy, Debug, PartialEq, Eq, Structural)]
pub enum Scroll {
    /// Further back in history.
    Up,
    /// Back towards the live screen.
    Down,
    /// Straight back to the live screen.
    Cancel,
}

/// Errors in the PTY.
#[derive(Debug)]
pub enum PTYError {
    /// Bytes to add to a payload are more than the payload holds.
    BytesExceedBuffer {
        /// The number of bytes.
        bytes: usize,
        /// The size of the payload.
        buffer: usize,
    },
    /// General errors that don't need to be matched on.
    Whatever {
        /// A helpful message accompanying the error.
        message: String,
    },
}

/// Errors of the steppable terminal.
#[derive(Debug)]
pub enum SteppableTerminalError {
    /// General errors that don't need to be matched on.
    Whatever {
        /// A helpful message accompanying the error.
        message: String,
    },
}

/// All the known errors of the shadow terminal.
#[derive(Debug)]
#[allow(inconsistent_fields)]
pub enum ShadowTerminalError {
    /// Any error that occurs in the PTY.
    PTY {
        /// The parent error.
        source: PTYError,
    },
    /// Any error that occurs in the steppable terminal.
    SteppableTerminal {
        /// The parent error.
        source: SteppableTerminalError,
    },
    /// General errors that don't need to be matched on.
    Whatever {
        /// A helpful message accompanying the error.
        message: String,
    },
}

/// Keep track of the metadata for the last sent output.
#[non_exhaustive]
pub struct LastSent {
    /// The unique sequence number of the last change in the in-memory terminal.
    pub pty_sequence: usize,
    /// The size of the last sent terminal output.
    pub pty_size: (usize, usize),
}

/// The escape code with which applications ask for the cursor position.
pub open spec fn cursor_position_request() -> Seq<u8> {
    seq![0x1bu8, 0x5bu8, 0x36u8, 0x6eu8]
}

/// The escape code that enables the user's terminal's 'application mode'.
pub open spec fn application_mode_start() -> Seq<u8> {
    seq![0x1bu8, 0x5bu8, 0x3fu8, 0x31u8, 0x68u8]
}

/// The escape code that disables the user's terminal's 'application mode'.
pub open spec fn application_mode_end() -> Seq<u8> {
    seq![0x1bu8, 0x5bu8, 0x3fu8, 0x31u8, 0x6cu8]
}

/// `needle` occurs in `haystack` at position `i`.
pub open spec fn occurs_at(haystack: Seq<u8>, needle: Seq<u8>, i: int) -> bool {
    0 <= i && i + needle.len() <= haystack.len() && haystack.subrange(i, i + needle.len()) == needle
}

/// `needle` occurs somewhere in `haystack`.
pub open spec fn occurs(haystack: Seq<u8>, needle: Seq<u8>) -> bool {
    exists|i: int| occurs_at(haystack, needle, i)
}

/// `k` is the number of bytes before the first zero, or all of them when there is none.
pub open spec fn is_zero_free_prefix(bytes: Seq<u8>, k: int) -> bool {
    &&& 0 <= k <= bytes.len()
    &&& forall|j: int| 0 <= j < k ==> bytes[j] != 0
    &&& k < bytes.len() ==> bytes[k] == 0
}

/// The bytes before the first zero.
pub open spec fn before_zero(bytes: Seq<u8>) -> Seq<u8> {
    bytes.take(choose|k: int| is_zero_free_prefix(bytes, k))
}

/// There is exactly one zero free prefix.
pub proof fn lemma_zero_free_prefix(bytes: Seq<u8>)
    ensures
        exists|k: int| is_zero_free_prefix(bytes, k),
        forall|k1: int, k2: int|
            is_zero_free_prefix(bytes, k1) && is_zero_free_prefix(bytes, k2) ==> k1 == k2,
    decreases bytes.len(),
{
    if bytes.len() == 0 {
        assert(is_zero_free_prefix(bytes, 0));
    } else if bytes[0] == 0 {
        assert(is_zero_free_prefix(bytes, 0));
    } else {
        lemma_zero_free_prefix(bytes.drop_first());
        let k = choose|k: int| is_zero_free_prefix(bytes.drop_first(), k);
        assert forall|j: int| 0 <= j < k + 1 implies bytes[j] != 0 by {
            if j > 0 {
                assert(bytes[j] == bytes.drop_first()[j - 1]);
            }
        }
        if k + 1 < bytes.len() {
            assert(bytes[k + 1] == bytes.drop_first()[k]);
        }
        assert(is_zero_free_prefix(bytes, k + 1));
    }
    assert forall|k1: int, k2: int|
        is_zero_free_prefix(bytes, k1) && is_zero_free_prefix(bytes, k2) implies k1 == k2 by {
        if k1 < k2 {
            assert(bytes[k1] == 0);
        }
        if k2 < k1 {
            assert(bytes[k2] == 0);
        }
    }
}

/// The payload holding `bytes` (at most a payload's worth) followed by zeros.
pub open spec fn payload_of(bytes: Seq<u8>) -> Seq<u8> {
    bytes + Seq::new((PAYLOAD_SIZE - bytes.len()) as nat, |i: int| 0u8)
}

/// The `k`th chunk of `bytes`, as `chunks(128)` cuts them.
pub open spec fn chunk(bytes: Seq<u8>, k: int) -> Seq<u8> {
    bytes.subrange(
        PAYLOAD_SIZE * k,
        if PAYLOAD_SIZE * (k + 1) <= bytes.len() {
            PAYLOAD_SIZE * (k + 1)
        } else {
            bytes.len() as int
        },
    )
}

/// The number of payloads needed for `len` bytes.
pub open spec fn payload_count(len: nat) -> nat {
    ((len + PAYLOAD_SIZE - 1) / (PAYLOAD_SIZE as int)) as nat
}

/// The payloads that carry `bytes`, in order.
pub open spec fn payloads_of(bytes: Seq<u8>) -> Seq<Seq<u8>> {
    Seq::new(payload_count(bytes.len()), |k: int| payload_of(chunk(bytes, k)))
}

/// The concatenation of sequences.
pub open spec fn concat(parts: Seq<Seq<u8>>) -> Seq<u8>
    decreases parts.len(),
{
    if parts.len() == 0 {
        Seq::empty()
    } else {
        concat(parts.drop_last()) + parts.last()
    }
}

/// The escape code that answers a cursor position request: `ESC [ row ; column R`.
pub open spec fn cursor_position_report(x: u64, y: u64) -> Seq<u8> {
    ascii_bytes(seq!['\u{1b}', '['] + decimal(y as nat) + seq![';'] + decimal(x as nat) + seq!['R'])
}

/// The scroll position after a scroll, given the number of rows of the terminal's history
/// (which includes the screen) and of the screen.
pub open spec fn scrolled(position: int, step: int, history_rows: int, rows: int, scroll: Scroll) -> int {
    match scroll {
        Scroll::Up => {
            let top = history_rows - rows;
            if position + step < top {
                position + step
            } else {
                top
            }
        },
        Scroll::Down => if position < step {
            0
        } else {
            position - step
        },
        Scroll::Cancel => 0,
    }
}

/// Which reactions a batch of PTY output calls for.
#[derive(Debug, Clone, Copy, PartialEq, Eq)]
pub struct PtyOutputSignals {
    /// The output enables the terminal's application mode.
    pub application_mode_start: bool,
    /// The output disables the terminal's application mode.
    pub application_mode_end: bool,
    /// The output asks for the cursor position.
    pub cursor_position_request: bool,
}

/// Find bytes in bytes: the first position of `needle` in `haystack`.
pub fn find_subsequence(haystack: &[u8], needle: &[u8]) -> (res: Option<usize>)
    requires
        needle@.len() > 0,
    ensures
        match res {
            Some(i) => occurs_at(haystack@, needle@, i as int) && forall|j: int|
                0 <= j < i ==> !occurs_at(haystack@, needle@, j),
            None => !occurs(haystack@, needle@),
        },
{
    let n = needle.len();
    if haystack.len() < n {
        return None;
    }
    let hl = haystack.len();
    let last = hl - n;
    let mut i: usize = 0;
    while i <= last
        invariant
            hl == haystack@.len(),
            n == needle@.len(),
            n > 0,
            last + n == haystack@.len(),
            0 <= i <= last + 1,
            forall|j: int| 0 <= j < i ==> !occurs_at(haystack@, needle@, j),
        decreases last + 1 - i,
    {
        let mut k: usize = 0;
        let mut is_match = true;
        while k < n
            invariant
                hl == haystack@.len(),
                n == needle@.len(),
                i <= last,
                last + n == haystack@.len(),
                0 <= k <= n,
                is_match == forall|m: int| 0 <= m < k ==> haystack@[i + m] == needle@[m],
            decreases n - k,
        {
            if haystack[i + k] != needle[k] {
                is_match = false;
            }
            k = k + 1;
        }
        if is_match {
            assert(haystack@.subrange(i as int, i + n) =~= needle@);
            return Some(i);
        }
        assert(!occurs_at(haystack@, needle@, i as int)) by {
            if occurs_at(haystack@, needle@, i as int) {
                assert forall|m: int| 0 <= m < n implies haystack@[i + m] == needle@[m] by {
                    assert(haystack@.subrange(i as int, i + n)[m] == needle@[m]);
                }
            }
        }
        i = i + 1;
    }
    None
}

/// The bytes of the cursor position request code.
fn cursor_position_request_bytes() -> (res: Vec<u8>)
    ensures
        res@ == cursor_position_request(),
{
    let res = vec![0x1b, 0x5b, 0x36, 0x6e];
    assert(res@ =~= cursor_position_request());
    res
}

/// The bytes of the application mode start code.
fn application_mode_start_bytes() -> (res: Vec<u8>)
    ensures
        res@ == application_mode_start(),
{
    let res = vec![0x1b, 0x5b, 0x3f, 0x31, 0x68];
    assert(res@ =~= application_mode_start());
    res
}

/// The bytes of the application mode end code.
fn application_mode_end_bytes() -> (res: Vec<u8>)
    ensures
        res@ == application_mode_end(),
{
    let res = vec![0x1b, 0x5b, 0x3f, 0x31, 0x6c];
    assert(res@ =~= application_mode_end());
    res
}

/// Which reactions a batch of PTY output calls for: the application mode codes must be passed
/// on to the user's terminal, and a cursor position request must be answered.
pub fn pty_output_signals(bytes: &[u8]) -> (res: PtyOutputSignals)
    ensures
        res.application_mode_start == occurs(bytes@, application_mode_start()),
        res.application_mode_end == occurs(bytes@, application_mode_end()),
        res.cursor_position_request == occurs(bytes@, cursor_position_request()),
{
    let start = application_mode_start_bytes();
    let end = application_mode_end_bytes();
    let request = cursor_position_request_bytes();
    let start_found = find_subsequence(bytes, start.as_slice()).is_some();
    let end_found = find_subsequence(bytes, end.as_slice()).is_some();
    let request_found = find_subsequence(bytes, request.as_slice()).is_some();
    PtyOutputSignals {
        application_mode_start: start_found,
        application_mode_end: end_found,
        cursor_position_request: request_found,
    }
}

/// Accumulate PTY output: a payload from the PTY ends at its first zero.
pub fn accumulate_pty_output(accumulated: &mut Vec<u8>, bytes: &[u8])
    ensures
        exists|k: int|
            is_zero_free_prefix(bytes@, k) && final(accumulated)@ == old(accumulated)@ + bytes@.take(
                k,
            ),
        final(accumulated)@ == old(accumulated)@ + before_zero(bytes@),
{
    let n = bytes.len();
    let mut i: usize = 0;
    while i < n
        invariant_except_break
            n == bytes@.len(),
            0 <= i <= n,
            forall|j: int| 0 <= j < i ==> bytes@[j] != 0,
            accumulated@ == old(accumulated)@ + bytes@.take(i as int),
        ensures
            n == bytes@.len(),
            is_zero_free_prefix(bytes@, i as int),
            accumulated@ == old(accumulated)@ + bytes@.take(i as int),
        decreases n - i,
    {
        if bytes[i] == 0 {
            break;
        }
        accumulated.push(bytes[i]);
        assert(bytes@.take(i + 1) =~= bytes@.take(i as int).push(bytes@[i as int]));
        i = i + 1;
    }
    proof {
        lemma_zero_free_prefix(bytes@);
    }
}

/// The number of meaningful bytes in an input payload: those before the first zero.
pub fn input_payload_len(bytes: &BytesFromSTDIN) -> (size: usize)
    ensures
        is_zero_free_prefix(bytes@, size as int),
{
    let mut i: usize = 0;
    while i < PAYLOAD_SIZE
        invariant_except_break
            bytes@.len() == PAYLOAD_SIZE,
            0 <= i <= PAYLOAD_SIZE,
            forall|j: int| 0 <= j < i ==> bytes@[j] != 0,
        ensures
            is_zero_free_prefix(bytes@, i as int),
        decreases PAYLOAD_SIZE - i,
    {
        if bytes[i] == 0 {
            break;
        }
        i = i + 1;
    }
    i
}

/// Add bytes to the beginning of a payload.
pub fn add_bytes_to_buffer(buffer: &mut BytesFromSTDIN, bytes: &[u8]) -> (res: Result<(), PTYError>)
    ensures
        bytes@.len() > PAYLOAD_SIZE ==> (res matches Err(PTYError::BytesExceedBuffer { bytes: b, buffer: s }) && b == bytes@.len() && s == PAYLOAD_SIZE && final(buffer)@ == old(buffer)@),
        bytes@.len() <= PAYLOAD_SIZE ==> res is Ok && final(buffer)@ == bytes@ + old(buffer)@.skip(
            bytes@.len() as int,
        ),
{
    if bytes.len() > PAYLOAD_SIZE {
        return Err(PTYError::BytesExceedBuffer { bytes: bytes.len(), buffer: PAYLOAD_SIZE });
    }
    let n = bytes.len();
    let mut i: usize = 0;
    while i < n
        invariant
            n == bytes@.len(),
            n <= PAYLOAD_SIZE,
            0 <= i <= n,
            buffer@.len() == PAYLOAD_SIZE,
            buffer@ == bytes@.take(i as int) + old(buffer)@.skip(i as int),
        decreases n - i,
    {
        buffer[i] = bytes[i];
        assert(buffer@ =~= bytes@.take(i + 1) + old(buffer)@.skip(i + 1));
        i = i + 1;
    }
    assert(bytes@.take(n as int) =~= bytes@);
    Ok(())
}

/// The payload holding at most a payload's worth of bytes, followed by zeros.
pub fn payload(bytes: &[u8]) -> (res: BytesFromSTDIN)
    requires
        bytes@.len() <= PAYLOAD_SIZE,
    ensures
        res@ == payload_of(bytes@),
{
    let mut buffer: BytesFromSTDIN = [0; 128];
    assert(buffer@ =~= Seq::new(128, |i: int| 0u8));
    let result = add_bytes_to_buffer(&mut buffer, bytes);
    assert(buffer@ =~= payload_of(bytes@));
    buffer
}

/// Cut bytes into payloads for the PTY, as many as needed, in order.
pub fn payloads(bytes: &[u8]) -> (res: Vec<BytesFromSTDIN>)
    ensures
        res@.len() == payload_count(bytes@.len()),
        forall|k: int| 0 <= k < res@.len() ==> #[trigger] res@[k]@ == payload_of(chunk(bytes@, k)),
{
    let n = bytes.len();
    let mut res: Vec<BytesFromSTDIN> = Vec::new();
    let mut start: usize = 0;
    while start < n
        invariant
            n == bytes@.len(),
            start <= n,
            start < n ==> start == PAYLOAD_SIZE * res@.len(),
            start < n ==> res@.len() < payload_count(n as nat),
            start >= n ==> res@.len() == payload_count(n as nat),
            forall|k: int| 0 <= k < res@.len() ==> #[trigger] res@[k]@ == payload_of(chunk(bytes@, k)),
        decreases n - start,
    {
        let end = if n - start >= PAYLOAD_SIZE {
            start + PAYLOAD_SIZE
        } else {
            n
        };
        let piece = vstd::slice::slice_subrange(bytes, start, end);
        let k = res.len();
        assert(piece@ == chunk(bytes@, k as int));
        let p = payload(piece);
        res.push(p);
        start = end;
        proof {
            let count = payload_count(n as nat);
            assert(count == (n + 127) / 128);
            if start < n {
                assert(start == 128 * (k + 1));
                assert((n + 127) / 128 > k + 1) by (nonlinear_arith)
                    requires n > 128 * (k + 1);
            } else {
                assert(n <= 128 * (k + 1));
                assert(n > 128 * k);
                assert((n + 127) / 128 == k + 1) by (nonlinear_arith)
                    requires n <= 128 * (k + 1), n > 128 * k;
            }
        }
    }
    proof {
        if n == 0 {
            assert(payload_count(0) == 0);
        }
    }
    res
}

/// The bytes that answer a cursor position request, for the cursor at column `x` and row `y`.
pub fn cursor_position_response(x: u64, y: u64) -> (res: Vec<u8>)
    ensures
        res@ == cursor_position_report(x, y),
{
    let mut text: Vec<char> = Vec::new();
    push_chars(&mut text, &['\u{1b}', '[']);
    push_decimal(&mut text, y);
    text.push(';');
    push_decimal(&mut text, x);
    text.push('R');
    assert(text@ =~= seq!['\u{1b}', '['] + decimal(y as nat) + seq![';'] + decimal(x as nat)
        + seq!['R']);
    to_ascii_bytes(&text)
}

/// Some CLI applications ask the terminal where the cursor is, with `ESC [ 6 n`. The answer to
/// any such request in a batch of PTY output, as payloads of internal input for the PTY: none
/// when there is no request.
pub fn cursor_position_request_payloads(bytes: &[u8], x: u64, y: u64) -> (res: Vec<BytesFromSTDIN>)
    ensures
        !occurs(bytes@, cursor_position_request()) ==> res@.len() == 0,
        occurs(bytes@, cursor_position_request()) ==> res@.len() == payload_count(cursor_position_report(x, y).len())
            && forall|k: int| 0 <= k < res@.len() ==> #[trigger] res@[k]@ == payload_of(chunk(cursor_position_report(x, y), k)),
{
    let request = cursor_position_request_bytes();
    if find_subsequence(bytes, request.as_slice()).is_none() {
        return Vec::new();
    }
    let response = cursor_position_response(x, y);
    payloads(response.as_slice())
}

/// The scroll position after a scroll: scrolling up goes back `step` rows but never past the top
/// of the history, scrolling down goes forward `step` rows but never past the live screen, and
/// cancelling returns to the live screen.
pub fn scroll_position(position: usize, step: usize, history_rows: usize, rows: usize, scroll: Scroll) -> (res: usize)
    requires
        scroll == Scroll::Up ==> rows <= history_rows && position + step <= usize::MAX,
    ensures
        res == scrolled(position as int, step as int, history_rows as int, rows as int, scroll),
{
    match scroll {
        Scroll::Up => {
            let total_lines = history_rows - rows;
            let moved = position + step;
            if moved < total_lines {
                moved
            } else {
                total_lines
            }
        },
        Scroll::Down => {
            if position < step {
                0
            } else {
                position - step
            }
        },
        Scroll::Cancel => 0,
    }
}

/// Scrolling up never goes past the top of the history, and scrolling in any direction from a
/// position within the history stays within it.
pub proof fn lemma_scroll_within_history(position: int, step: int, history_rows: int, rows: int, scroll: Scroll)
    requires
        0 <= position,
        0 <= step,
        rows <= history_rows,
        position <= history_rows - rows,
    ensures
        0 <= scrolled(position, step, history_rows, rows, scroll) <= history_rows - rows,
{
}

/// Scrolling down undoes scrolling up, and scrolling up undoes scrolling down, when neither
/// reached an end of the history.
pub proof fn lemma_scroll_round_trip(position: int, step: int, history_rows: int, rows: int)
    requires
        0 <= position,
        0 <= step,
        rows <= history_rows,
    ensures
        position + step < history_rows - rows ==> scrolled(
            scrolled(position, step, history_rows, rows, Scroll::Up),
            step,
            history_rows,
            rows,
            Scroll::Down,
        ) == position,
        step <= position <= history_rows - rows ==> scrolled(
            scrolled(position, step, history_rows, rows, Scroll::Down),
            step,
            history_rows,
            rows,
            Scroll::Up,
        ) == position,
{
}

/// The payloads of bytes that hold no zero carry exactly those bytes: reading each payload up
/// to its first zero and joining the pieces gives the bytes back.
pub proof fn lemma_payloads_round_trip(bytes: Seq<u8>)
    requires
        forall|i: int| 0 <= i < bytes.len() ==> bytes[i] != 0,
    ensures
        concat(
            payloads_of(bytes).map_values(|p: Seq<u8>| p.take(choose|k: int| is_zero_free_prefix(p, k))),
        ) == bytes,
{
    let f = |p: Seq<u8>| p.take(choose|k: int| is_zero_free_prefix(p, k));
    let count = payload_count(bytes.len());
    // Each payload gives back its chunk.
    assert forall|k: int| 0 <= k < count implies #[trigger] f(payload_of(chunk(bytes, k))) == chunk(bytes, k) by {
        let c = chunk(bytes, k);
        let p = payload_of(c);
        assert(128 * k <= bytes.len()) by (nonlinear_arith)
            requires 0 <= k, k < (bytes.len() + 127) / 128;
        assert(c.len() <= 128);
        assert(is_zero_free_prefix(p, c.len() as int));
        lemma_zero_free_prefix(p);
        assert(p.take(c.len() as int) =~= c);
    }
    lemma_concat_chunks(bytes, count);
    let mapped = payloads_of(bytes).map_values(f);
    assert(mapped =~= Seq::new(count, |k: int| chunk(bytes, k)));
    assert(128 * count >= bytes.len()) by (nonlinear_arith)
        requires count == (bytes.len() + 127) / 128;
    assert(count == 0 || 128 * (count - 1) < bytes.len()) by (nonlinear_arith)
        requires count == (bytes.len() + 127) / 128;
    assert(bytes.take(bytes.len() as int) =~= bytes);
}

/// Joining the first `n` chunks gives the bytes they cover.
proof fn lemma_concat_chunks(bytes: Seq<u8>, n: nat)
    requires
        n == 0 || 128 * (n - 1) < bytes.len(),
    ensures
        concat(Seq::new(n, |k: int| chunk(bytes, k))) =~= bytes.take(
            if 128 * n <= bytes.len() {
                (128 * n) as int
            } else {
                bytes.len() as int
            },
        ),
    decreases n,
{
    if n > 0 {
        let parts = Seq::new(n, |k: int| chunk(bytes, k));
        assert(parts.drop_last() =~= Seq::new((n - 1) as nat, |k: int| chunk(bytes, k)));
        lemma_concat_chunks(bytes, (n - 1) as nat);
    }
}

} // verus!
