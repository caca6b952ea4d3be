//! Micro-Epsilon optoNCDT 1420 measurement stream parser.
//!
//! Measurement values are transmitted in binary as three bytes
//! distinguished by their two most significant flag bits, in the order
//! L, M, H:
//!
//! ```text
//! L-Byte: 0 0 D5  D4  D3  D2  D1  D0
//! M-Byte: 0 1 D11 D10 D9  D8  D7  D6
//! H-Byte: 1 0 D17 D16 D15 D14 D13 D12   (first output value)
//! H-Byte: 1 1 D17 D16 D15 D14 D13 D12   (output values 2..32)
//! ```
//!
//! The distance value (without mastering) is 16 bits in D15..D0: the span
//! [643, 64887] maps linearly onto [0, MR] with 1% reserves at each end.

use vstd::prelude::*;

verus! {

/// One decoded output value from the stream.
#[derive(Clone, Copy, Debug, PartialEq, Eq, Structural)]
pub struct RawValue {
    /// The 18-bit payload (D17..D0).
    pub value: u32,
    /// True if this was the first output value of a measurement block
    /// (H-byte flags `10`); false for values 2..32 (flags `11`).
    pub first: bool,
}

/// Outcome of feeding one byte to the binary measurement parser.
#[derive(Clone, Copy, Debug, PartialEq, Eq, Structural)]
pub enum ParseEvent {
    /// The byte advanced a partial value without completing it.
    Pending,
    /// One complete output value was decoded.
    Value(RawValue),
    /// Flag bits did not match the expected L/M/H sequence.
    Resynchronised,
}

/// Result of consuming one complete ASCII command reply.
#[derive(Clone, Copy, Debug, PartialEq, Eq, Structural)]
pub enum CommandReply {
    /// The sensor returned its prompt without an error.
    Accepted,
    /// The reply contained an `Exxx` sensor error code before the prompt.
    Error(u16),
}

/// One step of the measurement parser: the state after `byte` and the
/// event it reports.
pub open spec fn spec_push_event(acc: u32, stage: u8, byte: u8) -> (u32, u8, ParseEvent) {
    let flags = byte / 64;
    let data = (byte % 64) as u32;
    if stage == 0 && flags == 0 {
        (data, 1, ParseEvent::Pending)
    } else if stage == 1 && flags == 1 {
        ((acc + data * 64) as u32, 2, ParseEvent::Pending)
    } else if stage == 2 && flags >= 2 {
        (acc, 0, ParseEvent::Value(RawValue { value: (acc + data * 4096) as u32, first: flags == 2 }))
    } else if flags == 0 {
        (data, 1, ParseEvent::Resynchronised)
    } else {
        (acc, 0, ParseEvent::Resynchronised)
    }
}

/// The three stream bytes of an 18-bit value.
pub open spec fn encoded_value(value: u32, first: bool) -> Seq<u8> {
    seq![
        (value % 64) as u8,
        (64 + (value / 64) % 64) as u8,
        ((if first { 128int } else { 192int }) + (value / 4096) % 64) as u8,
    ]
}

/// Push parser: feed received bytes one at a time; a completed value is
/// returned on its H-byte. Resynchronises on flag-bit violations, so it
/// recovers from a dropped byte within one measurement.
#[derive(Debug)]
pub struct Parser {
    acc: u32,
    stage: u8,
}

impl Parser {
    /// Accumulated data bits.
    pub closed spec fn spec_acc(&self) -> u32 {
        self.acc
    }

    /// Byte expected next: 0 = L, 1 = M, 2 = H.
    pub closed spec fn spec_stage(&self) -> u8 {
        self.stage
    }

    /// The parser's invariant: a known stage and at most 12 accumulated
    /// data bits (6 while waiting for the M-byte).
    #[verifier::type_invariant]
    closed spec fn wf(&self) -> bool {
        &&& self.stage <= 2
        &&& self.acc < 4096
        &&& self.stage == 1 ==> self.acc < 64
    }

    pub fn new() -> (p: Self)
        ensures
            p.spec_stage() == 0,
            p.spec_acc() == 0,
    {
        Parser { acc: 0, stage: 0 }
    }

    /// Feed one byte; returns a value when its final (H) byte arrives.
    pub fn push(&mut self, byte: u8) -> (r: Option<RawValue>)
        ensures
            (final(self).spec_acc(), final(self).spec_stage()) == (
                spec_push_event(old(self).spec_acc(), old(self).spec_stage(), byte).0,
                spec_push_event(old(self).spec_acc(), old(self).spec_stage(), byte).1,
            ),
            r == match spec_push_event(old(self).spec_acc(), old(self).spec_stage(), byte).2 {
                ParseEvent::Value(v) => Some(v),
                _ => None::<RawValue>,
            },
    {
        match self.push_event(byte) {
            ParseEvent::Value(value) => Some(value),
            ParseEvent::Pending | ParseEvent::Resynchronised => None,
        }
    }

    /// Feed one byte and report malformed sequences as resynchronisations.
    ///
    /// An L-byte received mid-value both reports the truncated value and
    /// starts the next candidate value, so recovery does not discard a good
    /// byte.
    pub fn push_event(&mut self, byte: u8) -> (e: ParseEvent)
        ensures
            final(self).spec_stage() <= 2,
            final(self).spec_acc() < 4096,
            (final(self).spec_acc(), final(self).spec_stage(), e) == spec_push_event(
                old(self).spec_acc(),
                old(self).spec_stage(),
                byte,
            ),
    {
        proof {
            use_type_invariant(&*self);
        }
        let flags = byte / 64;
        let data = (byte % 64) as u32;
        if self.stage == 0 && flags == 0 {
            *self = Parser { acc: data, stage: 1 };
            ParseEvent::Pending
        } else if self.stage == 1 && flags == 1 {
            *self = Parser { acc: self.acc + data * 64, stage: 2 };
            ParseEvent::Pending
        } else if self.stage == 2 && flags >= 2 {
            let value = self.acc + data * 4096;
            *self = Parser { acc: self.acc, stage: 0 };
            ParseEvent::Value(RawValue { value, first: flags == 2 })
        } else if flags == 0 {
            *self = Parser { acc: data, stage: 1 };
            ParseEvent::Resynchronised
        } else {
            *self = Parser { acc: self.acc, stage: 0 };
            ParseEvent::Resynchronised
        }
    }
}

impl Default for Parser {
    fn default() -> (p: Self)
        ensures
            p.spec_stage() == 0,
            p.spec_acc() == 0,
    {
        Parser::new()
    }
}

/// Self-synchronisation: from any parser state, the three bytes of an
/// encoded 18-bit value make the parser report exactly that value on the
/// third byte and leave it waiting for the next L-byte.
pub proof fn lemma_parser_recovers_any_value(acc: u32, stage: u8, value: u32, first: bool)
    requires
        stage <= 2,
        acc < 4096,
        value < 262144,
    ensures
        ({
            let b = encoded_value(value, first);
            let s1 = spec_push_event(acc, stage, b[0]);
            let s2 = spec_push_event(s1.0, s1.1, b[1]);
            let s3 = spec_push_event(s2.0, s2.1, b[2]);
            &&& s2.2 == ParseEvent::Pending
            &&& s3.2 == ParseEvent::Value(RawValue { value, first })
            &&& s3.1 == 0
        }),
{
    let b = encoded_value(value, first);
    assert(b[0] / 64 == 0 && b[0] % 64 == value % 64);
    assert(b[1] / 64 == 1 && b[1] % 64 == (value / 64) % 64);
    assert(b[2] / 64 == (if first { 2int } else { 3int }) && b[2] % 64 == (value / 4096) % 64);
    assert(value % 64 + ((value / 64) % 64) * 64 + ((value / 4096) % 64) * 4096 == value) by (nonlinear_arith)
        requires
            value < 262144,
    ;
}

/// State and last event of a fresh parser after the bytes `b`.
pub open spec fn parser_run(b: Seq<u8>) -> (u32, u8, ParseEvent)
    decreases b.len(),
{
    if b.len() == 0 {
        (0, 0, ParseEvent::Pending)
    } else {
        let s = parser_run(b.drop_last());
        spec_push_event(s.0, s.1, b.last())
    }
}

/// Flag bits of byte `i` of `b`.
pub open spec fn flag_at(b: Seq<u8>, i: int) -> int {
    b[i] as int / 64
}

/// Data bits of byte `i` of `b`.
pub open spec fn data_at(b: Seq<u8>, i: int) -> int {
    b[i] as int % 64
}

/// Byte expected after the non-empty history `b`: 1 after an L-byte, 2
/// after an L-byte followed by an M-byte, 0 otherwise.
pub open spec fn history_stage(b: Seq<u8>) -> u8 {
    let k = b.len() - 1;
    if flag_at(b, k) == 0 {
        1
    } else if flag_at(b, k) == 1 && k >= 1 && flag_at(b, k - 1) == 0 {
        2
    } else {
        0
    }
}

/// The event the last byte of the non-empty history `b` reports: a value
/// when an H-byte completes an L, M, H triple; `Pending` for an L-byte that
/// starts afresh or an M-byte that follows an L-byte; otherwise a
/// resynchronisation (an L-byte cutting short a partial value included).
pub open spec fn history_event(b: Seq<u8>) -> ParseEvent {
    let k = b.len() - 1;
    if flag_at(b, k) >= 2 {
        if k >= 2 && flag_at(b, k - 1) == 1 && flag_at(b, k - 2) == 0 {
            ParseEvent::Value(
                RawValue {
                    value: (data_at(b, k - 2) + data_at(b, k - 1) * 64 + data_at(b, k) * 4096) as u32,
                    first: flag_at(b, k) == 2,
                },
            )
        } else {
            ParseEvent::Resynchronised
        }
    } else if flag_at(b, k) == 1 {
        if k >= 1 && flag_at(b, k - 1) == 0 {
            ParseEvent::Pending
        } else {
            ParseEvent::Resynchronised
        }
    } else if k >= 1 && (flag_at(b, k - 1) == 0 || (k >= 2 && flag_at(b, k - 1) == 1 && flag_at(
        b,
        k - 2,
    ) == 0)) {
        ParseEvent::Resynchronised
    } else {
        ParseEvent::Pending
    }
}

/// The parser over a byte history: feeding `b_0 .. b_k` to a new parser,
/// the last byte reports `history_event`, which depends only on the last
/// three bytes; the partial value held is the data of the pending L (and M)
/// byte.
pub proof fn lemma_parser_over_history(b: Seq<u8>)
    requires
        b.len() >= 1,
    ensures
        parser_run(b).1 == history_stage(b),
        history_stage(b) == 1 ==> parser_run(b).0 == data_at(b, b.len() - 1),
        history_stage(b) == 2 ==> parser_run(b).0 == data_at(b, b.len() - 2) + data_at(
            b,
            b.len() - 1,
        ) * 64,
        parser_run(b).2 == history_event(b),
    decreases b.len(),
{
    let k = b.len() - 1;
    let d = b.drop_last();
    assert(b.last() == b[k]);
    if b.len() > 1 {
        lemma_parser_over_history(d);
        assert(d.len() - 1 == k - 1);
        assert(d[k - 1] == b[k - 1]);
        if k >= 2 {
            assert(d[k - 2] == b[k - 2]);
        }
    } else {
        assert(d.len() == 0);
    }
}

/// Parser for ASCII command replies multiplexed with binary measurements.
///
/// The sensor terminates every reply with the `->` prompt. Binary output may
/// continue during command exchange, but a well-formed binary stream cannot
/// contain this two-byte sequence because every third byte has its top bit
/// set. The parser also remembers an `Exxx` error until the prompt arrives.
#[derive(Debug)]
pub struct CommandReplyParser {
    previous: u8,
    window: u32,
    error: Option<u16>,
}

/// `b` is an ASCII decimal digit.
pub open spec fn is_digit(b: u8) -> bool {
    0x30 <= b <= 0x39
}

/// The last four bytes received, oldest first, as held in the window.
pub open spec fn window_bytes(window: u32) -> Seq<u8> {
    seq![
        (window / 16777216) as u8,
        ((window / 65536) % 256) as u8,
        ((window / 256) % 256) as u8,
        (window % 256) as u8,
    ]
}

/// The four bytes are `E` followed by three digits: the error code they
/// spell.
pub open spec fn error_code_of(w: Seq<u8>) -> Option<u16> {
    if w[0] == 0x45 && is_digit(w[1]) && is_digit(w[2]) && is_digit(w[3]) {
        Some(((w[1] - 0x30) * 100 + (w[2] - 0x30) * 10 + (w[3] - 0x30)) as u16)
    } else {
        None
    }
}

/// One step of the command-reply parser: previous byte, window, error
/// and reply after `byte`.
pub open spec fn reply_step(previous: u8, window: u32, error: Option<u16>, byte: u8) -> (
    u8,
    u32,
    Option<u16>,
    Option<CommandReply>,
) {
    let w = ((window * 256 + byte) % 4294967296) as u32;
    let e = match error_code_of(window_bytes(w)) {
        Some(code) => Some(code),
        None => error,
    };
    (
        byte,
        w,
        e,
        if previous == 0x2D && byte == 0x3E {
            Some(
                match e {
                    Some(code) => CommandReply::Error(code),
                    None => CommandReply::Accepted,
                },
            )
        } else {
            None
        },
    )
}

/// State and last reply of a new command-reply parser after the bytes `b`.
pub open spec fn reply_run(b: Seq<u8>) -> (u8, u32, Option<u16>, Option<CommandReply>)
    decreases b.len(),
{
    if b.len() == 0 {
        (0, 0, None, None)
    } else {
        let s = reply_run(b.drop_last());
        reply_step(s.0, s.1, s.2, b.last())
    }
}

/// The last four bytes of `b`, with zeros before its start.
pub open spec fn last_four(b: Seq<u8>) -> Seq<u8> {
    (seq![0u8, 0u8, 0u8, 0u8] + b).subrange(b.len() as int, b.len() + 4int)
}

/// The code of the last `E` followed by three digits in `b`, if any.
pub open spec fn last_error(b: Seq<u8>) -> Option<u16>
    decreases b.len(),
{
    if b.len() == 0 {
        None
    } else {
        match error_code_of(last_four(b)) {
            Some(code) => Some(code),
            None => last_error(b.drop_last()),
        }
    }
}

/// The reply after the non-empty history `b`: when its last two bytes are
/// the `->` prompt, the last error code seen anywhere in `b`, or
/// `Accepted` when there is none; otherwise nothing. Binary measurement
/// bytes in between change this only by what they spell.
pub open spec fn history_reply(b: Seq<u8>) -> Option<CommandReply> {
    let k = b.len() - 1;
    if k >= 1 && b[k - 1] == 0x2D && b[k] == 0x3E {
        Some(
            match last_error(b) {
                Some(code) => CommandReply::Error(code),
                None => CommandReply::Accepted,
            },
        )
    } else {
        None
    }
}

proof fn lemma_window_shift(w: u32, byte: u8)
    ensures
        window_bytes(((w * 256 + byte) % 4294967296) as u32) == window_bytes(w).drop_first().push(
            byte,
        ),
{
    let n = ((w * 256 + byte) % 4294967296) as u32;
    assert(n == (w % 16777216) * 256 + byte) by (nonlinear_arith)
        requires
            n == ((w * 256 + byte) % 4294967296) as u32,
            w < 4294967296,
            byte < 256,
    ;
    assert(n / 16777216 == (w / 65536) % 256) by (nonlinear_arith)
        requires
            n == (w % 16777216) * 256 + byte,
            byte < 256,
    ;
    assert((n / 65536) % 256 == (w / 256) % 256) by (nonlinear_arith)
        requires
            n == (w % 16777216) * 256 + byte,
            byte < 256,
    ;
    assert((n / 256) % 256 == w % 256) by (nonlinear_arith)
        requires
            n == (w % 16777216) * 256 + byte,
            byte < 256,
    ;
    assert(n % 256 == byte) by (nonlinear_arith)
        requires
            n == (w % 16777216) * 256 + byte,
            byte < 256,
    ;
    assert(window_bytes(n) =~= window_bytes(w).drop_first().push(byte));
}

/// The command-reply parser over a byte history: after feeding `b` to a new
/// parser, the window holds its last four bytes, the error is the last
/// `Exxx` code in `b`, and the last byte's reply is `history_reply(b)`.
pub proof fn lemma_reply_over_history(b: Seq<u8>)
    ensures
        window_bytes(reply_run(b).1) == last_four(b),
        reply_run(b).2 == last_error(b),
        b.len() >= 1 ==> reply_run(b).0 == b.last() && reply_run(b).3 == history_reply(b),
    decreases b.len(),
{
    if b.len() == 0 {
        assert(window_bytes(0) =~= last_four(b));
    } else {
        let d = b.drop_last();
        lemma_reply_over_history(d);
        let s = reply_run(d);
        lemma_window_shift(s.1, b.last());
        assert(last_four(b) =~= last_four(d).drop_first().push(b.last()));
        if b.len() >= 2 {
            assert(d.last() == b[b.len() - 2]);
        }
    }
}

impl CommandReplyParser {
    /// The byte received last.
    pub closed spec fn spec_previous(&self) -> u8 {
        self.previous
    }

    /// The last four bytes received, packed big-endian.
    pub closed spec fn spec_window(&self) -> u32 {
        self.window
    }

    /// The most recent error code seen.
    pub closed spec fn spec_error(&self) -> Option<u16> {
        self.error
    }

    pub fn new() -> (p: Self)
        ensures
            p.spec_previous() == 0,
            p.spec_window() == 0,
            p.spec_error() is None,
    {
        CommandReplyParser { previous: 0, window: 0, error: None }
    }

    /// Feed one received byte, returning when the terminating prompt arrives.
    pub fn push(&mut self, byte: u8) -> (r: Option<CommandReply>)
        ensures
            (final(self).spec_previous(), final(self).spec_window(), final(self).spec_error(), r)
                == reply_step(
                old(self).spec_previous(),
                old(self).spec_window(),
                old(self).spec_error(),
                byte,
            ),
            final(self).spec_window() == (old(self).spec_window() * 256 + byte) % 4294967296,
            final(self).spec_previous() == byte,
            final(self).spec_error() == match error_code_of(
                window_bytes(final(self).spec_window()),
            ) {
                Some(code) => Some(code),
                None => old(self).spec_error(),
            },
            r == if old(self).spec_previous() == 0x2D && byte == 0x3E {
                Some(
                    match final(self).spec_error() {
                        Some(code) => CommandReply::Error(code),
                        None => CommandReply::Accepted,
                    },
                )
            } else {
                None
            },
    {
        self.window = (self.window % 16777216) * 256 + byte as u32;
        let b0 = (self.window / 16777216) as u8;
        let b1 = ((self.window / 65536) % 256) as u8;
        let b2 = ((self.window / 256) % 256) as u8;
        let b3 = (self.window % 256) as u8;
        if b0 == 0x45 && 0x30 <= b1 && b1 <= 0x39 && 0x30 <= b2 && b2 <= 0x39 && 0x30 <= b3 && b3
            <= 0x39 {
            self.error = Some(
                (b1 - 0x30) as u16 * 100 + (b2 - 0x30) as u16 * 10 + (b3 - 0x30) as u16,
            );
        }
        let complete = self.previous == 0x2D && byte == 0x3E;
        self.previous = byte;
        if complete {
            Some(
                match self.error {
                    Some(code) => CommandReply::Error(code),
                    None => CommandReply::Accepted,
                },
            )
        } else {
            None
        }
    }
}

impl Default for CommandReplyParser {
    fn default() -> (p: Self)
        ensures
            p.spec_previous() == 0,
            p.spec_window() == 0,
            p.spec_error() is None,
    {
        CommandReplyParser::new()
    }
}

/// Start of the measuring-range span in raw counts.
pub const SPAN_LO: u16 = 643;

/// End of the measuring-range span in raw counts.
pub const SPAN_HI: u16 = 64887;

/// Values above this are error codes rather than reserve-band readings.
pub const ERROR_FLOOR: u16 = 65520;

/// Classification of the 16-bit distance value in a raw payload.
#[derive(Clone, Copy, Debug, PartialEq, Eq, Structural)]
pub enum DistanceClass {
    /// Within the measuring range; the raw count.
    InRange(u16),
    /// Below the start-of-range reserve band.
    BelowRange,
    /// In the end-of-range reserve band.
    AboveRange,
    /// Error code (no target, too dark, ...).
    Error(u16),
}

/// Class of the distance held in the low 16 bits of a raw payload.
pub open spec fn distance_class(raw: u32) -> DistanceClass {
    let x = (raw % 65536) as u16;
    if x > ERROR_FLOOR {
        DistanceClass::Error(x)
    } else if x < SPAN_LO {
        DistanceClass::BelowRange
    } else if x > SPAN_HI {
        DistanceClass::AboveRange
    } else {
        DistanceClass::InRange(x)
    }
}

/// Classify the distance held in the low 16 bits of a raw payload.
pub fn classify_distance(raw: u32) -> (c: DistanceClass)
    ensures
        c == distance_class(raw),
{
    let x = (raw % 65536) as u16;
    if x > ERROR_FLOOR {
        DistanceClass::Error(x)
    } else if x < SPAN_LO {
        DistanceClass::BelowRange
    } else if x > SPAN_HI {
        DistanceClass::AboveRange
    } else {
        DistanceClass::InRange(x)
    }
}

} // verus!
