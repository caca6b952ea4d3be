//! Recording-session bookkeeping: source metadata, segment close reasons,
//! file-name sanitising and timestamp clamping.

use vstd::prelude::*;

use crate::history::StreamHeader;

verus! {

/// Name and unit of one recorded source.
#[derive(Clone, Debug)]
pub struct SourceMetadata {
    pub name: String,
    pub unit: String,
}

/// Why a recording segment was closed.
#[derive(Clone, Copy, Debug, PartialEq, Eq, Structural)]
pub enum CloseReason {
    SegmentLimit,
    StreamStop,
    CountComplete,
    UpstreamLost,
    /// Reserved for readers: a writer failure leaves the `.partial` file
    /// unfinalised instead of writing this value.
    StorageError,
    BrokerShutdown,
    StartRejected,
}

/// Value recorded in the file for each close reason.
pub open spec fn close_reason_code(r: CloseReason) -> u8 {
    match r {
        CloseReason::SegmentLimit => 1,
        CloseReason::StreamStop => 2,
        CloseReason::CountComplete => 3,
        CloseReason::UpstreamLost => 4,
        CloseReason::StorageError => 5,
        CloseReason::BrokerShutdown => 6,
        CloseReason::StartRejected => 7,
    }
}

impl CloseReason {
    /// Value recorded in the file.
    pub fn code(self) -> (c: u8)
        ensures
            c == close_reason_code(self),
    {
        match self {
            CloseReason::SegmentLimit => 1,
            CloseReason::StreamStop => 2,
            CloseReason::CountComplete => 3,
            CloseReason::UpstreamLost => 4,
            CloseReason::StorageError => 5,
            CloseReason::BrokerShutdown => 6,
            CloseReason::StartRejected => 7,
        }
    }

    /// A session closed for this reason is complete: the stream was stopped,
    /// reached its configured count, or the broker shut down.
    pub fn completes_session(self) -> (complete: bool)
        ensures
            complete == (self == CloseReason::StreamStop || self == CloseReason::CountComplete
                || self == CloseReason::BrokerShutdown),
    {
        match self {
            CloseReason::StreamStop | CloseReason::CountComplete | CloseReason::BrokerShutdown => true,
            _ => false,
        }
    }
}

/// ASCII letters, digits, `-` and `_` are kept in file names.
pub open spec fn is_name_char(c: char) -> bool {
    ('0' <= c <= '9') || ('a' <= c <= 'z') || ('A' <= c <= 'Z') || c == '-' || c == '_'
}

/// Each character kept, or replaced by `_`.
pub open spec fn sanitised_chars(s: Seq<char>) -> Seq<char> {
    s.map_values(
        |c: char|
            if is_name_char(c) {
                c
            } else {
                '_'
            },
    )
}

/// Append one character.
///
/// Calls `String::push`, which appends the character to the string.
#[verifier::external_body]
fn push_char(s: &mut String, c: char)
    ensures
        final(s)@ == old(s)@.push(c),
{
    s.push(c);
}

/// A file-name-safe form of `value`: every character that is not an ASCII
/// letter, digit, `-` or `_` becomes `_`; an empty name becomes `device`.
pub fn sanitise(value: &str) -> (out: String)
    ensures
        value@.len() == 0 ==> out@ == "device"@,
        value@.len() > 0 ==> out@ == sanitised_chars(value@),
{
    let mut out = String::new();
    for c in it: value.chars()
        invariant
            it.seq() == value@,
            out@ == sanitised_chars(value@.take(it.index() as int)),
    {
        proof {
            assert(value@.take(it.index() + 1) =~= value@.take(it.index() as int).push(c));
        }
        let kept = if ('0' <= c && c <= '9') || ('a' <= c && c <= 'z') || ('A' <= c && c <= 'Z')
            || c == '-' || c == '_' {
            c
        } else {
            '_'
        };
        push_char(&mut out, kept);
        proof {
            assert(out@ =~= sanitised_chars(value@.take(it.index() + 1)));
        }
    }
    proof {
        assert(value@.take(value@.len() as int) =~= value@);
    }
    if out.as_str().is_empty() {
        "device".to_owned()
    } else {
        out
    }
}

/// A nanosecond timestamp clamped to the `i64` range.
pub fn clamp_nanos(nanos: i128) -> (t: i64)
    ensures
        t == if nanos < i64::MIN {
            i64::MIN as int
        } else if nanos > i64::MAX {
            i64::MAX as int
        } else {
            nanos as int
        },
{
    if nanos < i64::MIN as i128 {
        i64::MIN
    } else if nanos > i64::MAX as i128 {
        i64::MAX
    } else {
        nanos as i64
    }
}

/// The decimal digits of `n`, most significant first.
pub open spec fn decimal_chars(n: nat) -> Seq<char>
    decreases n,
{
    if n < 10 {
        seq![(48 + n) as char]
    } else {
        decimal_chars(n / 10).push((48 + n % 10) as char)
    }
}

/// `n` in decimal, padded with leading zeros to at least `width` digits.
pub open spec fn padded_decimal(n: nat, width: nat) -> Seq<char> {
    let digits = decimal_chars(n);
    if digits.len() >= width {
        digits
    } else {
        Seq::new((width - digits.len()) as nat, |i: int| '0') + digits
    }
}

/// Append the decimal digits of `n`.
fn push_decimal(s: &mut String, n: u32)
    ensures
        final(s)@ == old(s)@ + decimal_chars(n as nat),
    decreases n,
{
    if n >= 10 {
        push_decimal(s, n / 10);
    }
    let digit = (n % 10) as u8;
    let c = (48u8 + digit) as char;
    push_char(s, c);
    proof {
        if n >= 10 {
            assert(old(s)@ + decimal_chars((n / 10) as nat) + seq![c] =~= old(s)@ + decimal_chars(
                n as nat,
            ));
        } else {
            assert(old(s)@ + seq![c] =~= old(s)@ + decimal_chars(n as nat));
        }
    }
}

/// Number of decimal digits of `n`.
fn decimal_len(n: u32) -> (len: usize)
    ensures
        len == decimal_chars(n as nat).len(),
        1 <= len <= 10,
    decreases n,
{
    if n < 10 {
        1
    } else {
        let rest = decimal_len(n / 10);
        proof {
            assert(n / 10 < 1000000000) by (nonlinear_arith)
                requires
                    n <= 4294967295u32,
            ;
            lemma_decimal_len_bound((n / 10) as nat);
        }
        rest + 1
    }
}

proof fn lemma_decimal_len_bound(n: nat)
    requires
        n < 1000000000,
    ensures
        decimal_chars(n).len() <= 9,
    decreases n,
{
    if n >= 10 {
        lemma_decimal_len_bound(n / 10);
        lemma_decimal_len_small(n / 10);
    }
}

proof fn lemma_decimal_len_small(n: nat)
    ensures
        n < 10 ==> decimal_chars(n).len() == 1,
        n < 100 ==> decimal_chars(n).len() <= 2,
        n < 1000 ==> decimal_chars(n).len() <= 3,
        n < 10000 ==> decimal_chars(n).len() <= 4,
        n < 100000 ==> decimal_chars(n).len() <= 5,
        n < 1000000 ==> decimal_chars(n).len() <= 6,
        n < 10000000 ==> decimal_chars(n).len() <= 7,
        n < 100000000 ==> decimal_chars(n).len() <= 8,
    decreases n,
{
    if n >= 10 {
        lemma_decimal_len_small(n / 10);
    }
}

/// Why a recording step cannot be taken.
#[derive(Clone, Copy, Debug, PartialEq, Eq, Structural)]
pub enum StorageError {
    /// A session is already recording.
    AlreadyActive,
    /// A stream without sources cannot be stored.
    NoSources,
    /// No session is recording.
    NoSession,
    /// No segment file is open.
    NoSegment,
    /// A packet's source count differs from the session's.
    SourceCountChanged,
    /// The start time cannot be written as a date.
    BadTimestamp,
}

/// File names of one segment: the final name and the name it has while it
/// is written.
pub open spec fn segment_names(prefix: Seq<char>, index: u32) -> (Seq<char>, Seq<char>) {
    let base = prefix + seq!['_'] + padded_decimal(index as nat, 4) + seq!['.', 'h', '5'];
    (base, base + seq!['.', 'p', 'a', 'r', 't', 'i', 'a', 'l'])
}

/// Segment file names for segment `index` of the session named `prefix`:
/// `<prefix>_<index, 4 digits>.h5`, and the same with `.partial` appended.
pub fn segment_file_names(prefix: &str, index: u32) -> (r: (String, String))
    ensures
        r.0@ == segment_names(prefix@, index).0,
        r.1@ == segment_names(prefix@, index).1,
{
    let mut base = prefix.to_owned();
    push_char(&mut base, '_');
    let len = decimal_len(index);
    let mut i: usize = len;
    let ghost start = base@;
    while i < 4
        invariant
            len <= i <= 4 || (len > 4 && i == len),
            len == decimal_chars(index as nat).len(),
            base@ == start + Seq::new((i - len) as nat, |k: int| '0'),
        decreases 4 - i,
    {
        push_char(&mut base, '0');
        i = i + 1;
        assert(base@ =~= start + Seq::new((i - len) as nat, |k: int| '0'));
    }
    push_decimal(&mut base, index);
    push_char(&mut base, '.');
    push_char(&mut base, 'h');
    push_char(&mut base, '5');
    proof {
        let zeros = Seq::new((i - len) as nat, |k: int| '0');
        if len >= 4 {
            assert(zeros =~= Seq::<char>::empty());
        }
        assert(base@ =~= segment_names(prefix@, index).0);
    }
    let mut partial = base.clone();
    proof {
        assert(partial@ == base@);
    }
    partial.append(".partial");
    proof {
        reveal_strlit(".partial");
        assert(partial@ =~= segment_names(prefix@, index).1);
    }
    (base, partial)
}

/// The text the `time` crate writes for the UTC instant `nanos`
/// nanoseconds after the Unix epoch with the format description
/// `[year][month][day]T[hour][minute][second].[subsecond digits:3]Z`.
pub uninterp spec fn utc_timestamp_text(nanos: i64) -> Seq<char>;

/// Calls `time::OffsetDateTime::from_unix_timestamp_nanos` (the Unix epoch
/// where the instant is out of range), `to_offset(UtcOffset::UTC)` and
/// `format` with the description above, and gives `utc_timestamp_text` of
/// the instant. It always gives text: every `i64` count of nanoseconds is in
/// the crate's range, the description is a fixed valid one, an offset date
/// and time supplies every component it names, and writing into a `String`
/// cannot fail.
#[verifier::external_body]
fn utc_timestamp(nanos: i64) -> (r: Option<String>)
    ensures
        r is Some,
        r matches Some(text) ==> text@ == utc_timestamp_text(nanos),
{
    let instant = time::OffsetDateTime::from_unix_timestamp_nanos(nanos as i128).unwrap_or(
        time::OffsetDateTime::UNIX_EPOCH,
    );
    let items = time::format_description::parse_borrowed::<1>(
        "[year][month][day]T[hour][minute][second].[subsecond digits:3]Z",
    ).ok()?;
    instant.to_offset(time::UtcOffset::UTC).format(&items).ok()
}

/// Name shared by a session's segment files: its start time, `_`, and the
/// sanitised experiment name.
pub open spec fn session_prefix(nanos: i64, experiment: Seq<char>) -> Seq<char> {
    utc_timestamp_text(nanos) + seq!['_'] + if experiment.len() == 0 {
        seq!['d', 'e', 'v', 'i', 'c', 'e']
    } else {
        sanitised_chars(experiment)
    }
}

/// Where each record written for a packet goes, and the session offset of
/// the packet's first record.
#[derive(Debug)]
pub struct AppendPlan {
    /// Sample index of each record.
    pub sample_indices: Vec<u32>,
    /// Records of the session written before this packet.
    pub record_offset: u64,
}

/// Sample index of record `row` of a packet: counted from its first index
/// in steps of the decimation, wrapping at 2^32.
pub open spec fn sample_index(h: StreamHeader, row: int) -> u32 {
    ((h.first_index + row * h.decimation) % 4294967296) as u32
}

/// Bookkeeping of a segmented recording: the session's source count and
/// file-name prefix, the segment being written and the session offset of
/// the next record.
#[derive(Debug)]
pub struct SegmentPlan {
    segment_size: u64,
    session_sources: Option<usize>,
    prefix: String,
    segment_index: u32,
    session_record_offset: u64,
    open: bool,
}

impl SegmentPlan {
    /// Soft size threshold of one segment file, in bytes.
    pub closed spec fn spec_segment_size(&self) -> u64 {
        self.segment_size
    }

    /// Number of sources of the session being recorded, if any.
    pub closed spec fn spec_sources(&self) -> Option<usize> {
        self.session_sources
    }

    pub closed spec fn spec_prefix(&self) -> Seq<char> {
        self.prefix@
    }

    pub closed spec fn spec_segment_index(&self) -> u32 {
        self.segment_index
    }

    pub closed spec fn spec_record_offset(&self) -> u64 {
        self.session_record_offset
    }

    /// A segment file is open.
    pub closed spec fn spec_open(&self) -> bool {
        self.open
    }

    /// Nothing recorded yet.
    pub fn new(segment_size: u64) -> (p: Self)
        ensures
            p.spec_segment_size() == segment_size,
            p.spec_sources() is None,
            p.spec_segment_index() == 0,
            p.spec_record_offset() == 0,
            !p.spec_open(),
    {
        SegmentPlan {
            segment_size,
            session_sources: None,
            prefix: String::new(),
            segment_index: 0,
            session_record_offset: 0,
            open: false,
        }
    }

    /// Start a session of `n_sources` sources that began at
    /// `started_utc_ns`, for `experiment`; returns the file names of its
    /// first segment.
    pub fn start(&mut self, n_sources: usize, started_utc_ns: i64, experiment: &str) -> (r: Result<
        (String, String),
        StorageError,
    >)
        ensures
            old(self).spec_open() ==> r == Err::<(String, String), StorageError>(
                StorageError::AlreadyActive,
            ),
            !old(self).spec_open() && n_sources == 0 ==> r == Err::<(String, String), StorageError>(
                StorageError::NoSources,
            ),
            !old(self).spec_open() && n_sources > 0 ==> r is Ok,
            r is Err ==> final(self).spec_sources() == old(self).spec_sources()
                && final(self).spec_open() == old(self).spec_open(),
            r matches Ok((file, partial)) ==> {
                &&& !old(self).spec_open()
                &&& n_sources > 0
                &&& final(self).spec_prefix() == session_prefix(started_utc_ns, experiment@)
                &&& final(self).spec_sources() == Some(n_sources)
                &&& final(self).spec_segment_index() == 0
                &&& final(self).spec_record_offset() == 0
                &&& !final(self).spec_open()
                &&& file@ == segment_names(final(self).spec_prefix(), 0).0
                &&& partial@ == segment_names(final(self).spec_prefix(), 0).1
            },
            final(self).spec_segment_size() == old(self).spec_segment_size(),
    {
        if self.open {
            return Err(StorageError::AlreadyActive);
        }
        if n_sources == 0 {
            return Err(StorageError::NoSources);
        }
        let mut prefix = match utc_timestamp(started_utc_ns) {
            Some(text) => text,
            None => {
                return Err(StorageError::BadTimestamp);
            },
        };
        push_char(&mut prefix, '_');
        let name = sanitise(experiment);
        proof {
            reveal_strlit("device");
            if experiment@.len() == 0 {
                assert(name@ =~= seq!['d', 'e', 'v', 'i', 'c', 'e']);
            }
        }
        prefix.append(name.as_str());
        assert(prefix@ =~= session_prefix(started_utc_ns, experiment@));
        self.prefix = prefix;
        self.session_sources = Some(n_sources);
        self.segment_index = 0;
        self.session_record_offset = 0;
        Ok(segment_file_names(self.prefix.as_str(), 0))
    }

    /// Index of the current segment within the session.
    pub fn segment_index(&self) -> (i: u32)
        ensures
            i == self.spec_segment_index(),
    {
        self.segment_index
    }

    /// Records of the session written before the next packet.
    pub fn record_offset(&self) -> (o: u64)
        ensures
            o == self.spec_record_offset(),
    {
        self.session_record_offset
    }

    /// The current segment's file was created.
    pub fn segment_opened(&mut self)
        ensures
            final(self).spec_open(),
            final(self).spec_sources() == old(self).spec_sources(),
            final(self).spec_prefix() == old(self).spec_prefix(),
            final(self).spec_segment_index() == old(self).spec_segment_index(),
            final(self).spec_record_offset() == old(self).spec_record_offset(),
            final(self).spec_segment_size() == old(self).spec_segment_size(),
    {
        self.open = true;
    }

    /// Plan the writing of a packet with header `header`: the sample index
    /// of each record and the packet's session record offset; the offset
    /// then advances past its records.
    pub fn append(&mut self, header: StreamHeader) -> (r: Result<AppendPlan, StorageError>)
        ensures
            old(self).spec_sources() is None ==> (r matches Err(e) && e == StorageError::NoSession),
            old(self).spec_sources() is Some && !old(self).spec_open() ==> (r matches Err(e) && e == StorageError::NoSegment),
            old(self).spec_sources() matches Some(n) && old(self).spec_open() && header.n_sources
                != n ==> (r matches Err(e) && e == StorageError::SourceCountChanged),
            old(self).spec_open() && old(self).spec_sources() == Some(header.n_sources as usize)
                ==> r is Ok,
            r is Err ==> final(self).spec_record_offset() == old(self).spec_record_offset(),
            r matches Ok(plan) ==> {
                &&& old(self).spec_sources() == Some(header.n_sources as usize)
                &&& old(self).spec_open()
                &&& plan.record_offset == old(self).spec_record_offset()
                &&& plan.sample_indices@.len() == header.n_records
                &&& forall|row: int|
                    0 <= row < header.n_records ==> #[trigger] plan.sample_indices@[row]
                        == sample_index(header, row)
                &&& final(self).spec_record_offset() == (old(self).spec_record_offset()
                    + header.n_records) % 18446744073709551616
            },
            final(self).spec_sources() == old(self).spec_sources(),
            final(self).spec_open() == old(self).spec_open(),
            final(self).spec_prefix() == old(self).spec_prefix(),
            final(self).spec_segment_index() == old(self).spec_segment_index(),
            final(self).spec_segment_size() == old(self).spec_segment_size(),
    {
        let n = match self.session_sources {
            Some(n) => n,
            None => {
                return Err(StorageError::NoSession);
            },
        };
        if !self.open {
            return Err(StorageError::NoSegment);
        }
        if header.n_sources as usize != n {
            return Err(StorageError::SourceCountChanged);
        }
        let mut sample_indices: Vec<u32> = Vec::new();
        let mut row: u16 = 0;
        while row < header.n_records
            invariant
                row <= header.n_records,
                sample_indices@.len() == row,
                forall|k: int| 0 <= k < row ==> #[trigger] sample_indices@[k] == sample_index(header, k),
            decreases header.n_records - row,
        {
            assert(row as u32 * header.decimation as u32 <= 65535 * 65535) by (nonlinear_arith)
                requires
                    row <= 65535,
                    header.decimation <= 65535,
            ;
            let step = row as u32 * header.decimation as u32;
            sample_indices.push(header.first_index.wrapping_add(step));
            row = row + 1;
        }
        let record_offset = self.session_record_offset;
        self.session_record_offset = self.session_record_offset.wrapping_add(
            header.n_records as u64,
        );
        Ok(AppendPlan { sample_indices, record_offset })
    }

    /// Buffered data is flushed to the file once a second.
    pub fn flush_due(elapsed_ms: u64) -> (due: bool)
        ensures
            due == (elapsed_ms >= 1000),
    {
        elapsed_ms >= 1000
    }

    /// After a flush, a segment file that reached the size threshold is
    /// closed and the next one started.
    pub fn rotation_due(&self, file_len: u64) -> (due: bool)
        ensures
            due == (file_len >= self.spec_segment_size()),
    {
        file_len >= self.segment_size
    }

    /// The current segment was closed because it reached the size
    /// threshold: move to the next segment of the session and return its
    /// file names.
    pub fn rotate(&mut self) -> (r: Result<(String, String), StorageError>)
        ensures
            !old(self).spec_open() ==> (r matches Err(e) && e == StorageError::NoSegment),
            old(self).spec_open() && old(self).spec_sources() is None ==> (r matches Err(e) && e == StorageError::NoSession),
            old(self).spec_open() && old(self).spec_sources() is Some ==> r is Ok,
            r is Err ==> final(self).spec_segment_index() == old(self).spec_segment_index(),
            old(self).spec_open() ==> !final(self).spec_open(),
            !old(self).spec_open() ==> !final(self).spec_open(),
            r matches Ok((file, partial)) ==> {
                &&& old(self).spec_open()
                &&& old(self).spec_sources() is Some
                &&& final(self).spec_segment_index() == (old(self).spec_segment_index() + 1)
                    % 4294967296
                &&& file@ == segment_names(old(self).spec_prefix(), final(self).spec_segment_index()).0
                &&& partial@ == segment_names(
                    old(self).spec_prefix(),
                    final(self).spec_segment_index(),
                ).1
            },
            final(self).spec_sources() == old(self).spec_sources(),
            final(self).spec_prefix() == old(self).spec_prefix(),
            final(self).spec_record_offset() == old(self).spec_record_offset(),
            final(self).spec_segment_size() == old(self).spec_segment_size(),
    {
        if !self.open {
            return Err(StorageError::NoSegment);
        }
        self.open = false;
        if self.session_sources.is_none() {
            return Err(StorageError::NoSession);
        }
        self.segment_index = self.segment_index.wrapping_add(1);
        Ok(segment_file_names(self.prefix.as_str(), self.segment_index))
    }

    /// Stop recording for `reason`: when a segment is open, the code to
    /// record as its close reason and whether the session is complete; the
    /// session ends either way.
    pub fn stop(&mut self, reason: CloseReason) -> (r: Option<(u8, bool)>)
        ensures
            !old(self).spec_open() ==> r is None && final(self).spec_sources()
                == old(self).spec_sources(),
            old(self).spec_open() ==> r == Some(
                (
                    close_reason_code(reason),
                    reason == CloseReason::StreamStop || reason == CloseReason::CountComplete
                        || reason == CloseReason::BrokerShutdown,
                ),
            ) && final(self).spec_sources() is None,
            !final(self).spec_open(),
            final(self).spec_segment_index() == old(self).spec_segment_index(),
            final(self).spec_record_offset() == old(self).spec_record_offset(),
            final(self).spec_segment_size() == old(self).spec_segment_size(),
    {
        if !self.open {
            return None;
        }
        self.open = false;
        self.session_sources = None;
        Some((reason.code(), reason.completes_session()))
    }

    /// A storage failure: the session and its segment are dropped.
    pub fn abandon(&mut self)
        ensures
            !final(self).spec_open(),
            final(self).spec_sources() is None,
            final(self).spec_segment_size() == old(self).spec_segment_size(),
    {
        self.open = false;
        self.session_sources = None;
    }
}

} // verus!
