//! Broker-side decoding of device discovery and stream configuration.

use vstd::prelude::*;
use vstd::string::StringSliceAdditionalSpecFns;
use vstd::utf8::{decode_utf8, valid_utf8};

use crate::beacon::{fixed16, fixed_string};
use crate::broker::MAX_SOURCES;
use crate::bytes::{from_le16, from_le32, u16_from_le, u32_from_le};
use crate::frame::{msg_type_code, MsgType};
use crate::storage::SourceMetadata;
use crate::VERSION;

verus! {

/// One parameter reported by the device.
#[derive(Clone, Debug)]
pub struct ParameterDefinition {
    pub index: u16,
    pub name: String,
    pub type_code: u8,
    pub count: u16,
}

/// Bytes of one element of a parameter with type code `code`; zero for an
/// unknown code.
pub open spec fn element_size(code: u8) -> nat {
    if code == 0x42 || code == 0x62 || code == 0x63 {
        1
    } else if code == 0x48 || code == 0x68 {
        2
    } else if code == 0x49 || code == 0x69 || code == 0x66 {
        4
    } else {
        0
    }
}

impl ParameterDefinition {
    /// Bytes of the parameter's value: element size times count.
    pub fn size(&self) -> (n: usize)
        ensures
            n == element_size(self.type_code) * self.count,
    {
        let element: usize = if self.type_code == 0x42 || self.type_code == 0x62
            || self.type_code == 0x63 {
            1
        } else if self.type_code == 0x48 || self.type_code == 0x68 {
            2
        } else if self.type_code == 0x49 || self.type_code == 0x69 || self.type_code == 0x66 {
            4
        } else {
            0
        };
        element * self.count as usize
    }
}

/// Shared stream configuration requested by a client.
#[derive(Clone, Debug)]
pub struct StreamConfiguration {
    pub decimation: u16,
    pub count: u32,
    pub sources: Vec<u8>,
}

#[derive(Clone, Copy, Debug, PartialEq, Eq, Structural)]
pub enum ConfigurationError {
    /// Fewer than the seven fixed bytes.
    TooShort,
    /// Zero decimation, no or too many sources, or a length that does not
    /// match the source count.
    InvalidValues,
}

/// What a stream configuration payload `decimation u16, count u32, n u8,
/// sources u8[n]` says: decimation, count and sources.
pub open spec fn configuration_of(p: Seq<u8>) -> Result<(u16, u32, Seq<u8>), ConfigurationError> {
    if p.len() < 7 {
        Err(ConfigurationError::TooShort)
    } else {
        let decimation = from_le16(p[0], p[1]);
        let n = p[6];
        if decimation == 0 || n == 0 || n > MAX_SOURCES || p.len() != 7 + n {
            Err(ConfigurationError::InvalidValues)
        } else {
            Ok((decimation, from_le32(p[2], p[3], p[4], p[5]), p.skip(7)))
        }
    }
}

impl StreamConfiguration {
    /// Decode `decimation u16, count u32, n u8, sources u8[n]`.
    pub fn decode(payload: &[u8]) -> (r: Result<Self, ConfigurationError>)
        ensures
            match (r, configuration_of(payload@)) {
                (Ok(c), Ok((decimation, count, sources))) => c.decimation == decimation && c.count
                    == count && c.sources@ == sources,
                (Err(e), Err(f)) => e == f,
                _ => false,
            },
    {
        if payload.len() < 7 {
            return Err(ConfigurationError::TooShort);
        }
        let decimation = u16_from_le(payload[0], payload[1]);
        let count = u32_from_le(payload[2], payload[3], payload[4], payload[5]);
        let n_sources = payload[6] as usize;
        if decimation == 0 || n_sources == 0 || n_sources > MAX_SOURCES || payload.len() != 7
            + n_sources {
            return Err(ConfigurationError::InvalidValues);
        }
        let mut sources: Vec<u8> = Vec::new();
        let mut i: usize = 7;
        while i < payload.len()
            invariant
                7 <= i <= payload@.len(),
                sources@ == payload@.subrange(7, i as int),
            decreases payload@.len() - i,
        {
            sources.push(payload[i]);
            i = i + 1;
            assert(sources@ =~= payload@.subrange(7, i as int));
        }
        assert(sources@ =~= payload@.skip(7));
        Ok(StreamConfiguration { decimation, count, sources })
    }
}

#[derive(Clone, Copy, Debug, PartialEq, Eq, Structural)]
pub enum TextError {
    /// No NUL terminates the string.
    Unterminated,
    /// The bytes before the NUL are not UTF-8.
    InvalidUtf8,
}

/// Text of UTF-8 bytes, if they are UTF-8.
///
/// Calls `std::str::from_utf8`, which accepts exactly the well-formed UTF-8
/// sequences and decodes them; the contract states that with vstd's UTF-8
/// specification.
#[verifier::external_body]
fn utf8_text(bytes: &[u8]) -> (r: Option<String>)
    ensures
        r is Some <==> valid_utf8(bytes@),
        r matches Some(s) ==> s@ == decode_utf8(bytes@),
{
    std::str::from_utf8(bytes).ok().map(|s| s.to_string())
}

/// Index of the first NUL at or after `from`, or the length of `p` when
/// there is none.
pub open spec fn first_nul(p: Seq<u8>, from: int) -> int
    decreases p.len() - from,
{
    if from >= p.len() {
        p.len() as int
    } else if p[from] == 0 {
        from
    } else {
        first_nul(p, from + 1)
    }
}

/// A scan that stops at `end` found the first NUL.
pub proof fn lemma_first_nul_is(p: Seq<u8>, from: int, end: int)
    requires
        0 <= from <= end <= p.len(),
        forall|j: int| from <= j < end ==> p[j] != 0,
        end == p.len() || p[end] == 0,
    ensures
        first_nul(p, from) == end,
    decreases end - from,
{
    if from < end {
        lemma_first_nul_is(p, from + 1, end);
    }
}

/// The NUL-terminated UTF-8 text starting at `offset`, and the offset just
/// past its NUL.
pub open spec fn nul_text(p: Seq<u8>, offset: int) -> Result<(Seq<char>, int), TextError> {
    let end = first_nul(p, offset);
    if end >= p.len() {
        Err(TextError::Unterminated)
    } else if !valid_utf8(p.subrange(offset, end)) {
        Err(TextError::InvalidUtf8)
    } else {
        Ok((decode_utf8(p.subrange(offset, end)), end + 1))
    }
}

/// The decoded result is the one `nul_text` describes.
pub open spec fn text_result_matches(
    r: Result<(String, usize), TextError>,
    expected: Result<(Seq<char>, int), TextError>,
) -> bool {
    match (r, expected) {
        (Ok((text, next)), Ok((chars, end))) => text@ == chars && next == end,
        (Err(e), Err(f)) => e == f,
        _ => false,
    }
}

/// Decode the NUL-terminated UTF-8 string starting at `offset`; returns the
/// text and the offset just past its NUL.
pub fn decode_nul_ascii(payload: &[u8], offset: usize) -> (r: Result<(String, usize), TextError>)
    requires
        offset <= payload@.len(),
    ensures
        text_result_matches(r, nul_text(payload@, offset as int)),
        r matches Ok((_, next)) ==> offset < next <= payload@.len(),
{
    let mut end = offset;
    while end < payload.len()
        invariant
            offset <= end <= payload@.len(),
            forall|j: int| offset <= j < end ==> payload@[j] != 0,
        ensures
            offset <= end <= payload@.len(),
            forall|j: int| offset <= j < end ==> payload@[j] != 0,
            end < payload@.len() ==> payload@[end as int] == 0,
        decreases payload@.len() - end,
    {
        if payload[end] == 0 {
            break;
        }
        end = end + 1;
    }
    proof {
        lemma_first_nul_is(payload@, offset as int, end as int);
    }
    if end == payload.len() {
        return Err(TextError::Unterminated);
    }
    match utf8_text(&payload[offset..end]) {
        Some(text) => Ok((text, end + 1)),
        None => Err(TextError::InvalidUtf8),
    }
}

/// Why reading the device's self-description failed.
#[derive(Clone, Copy, Debug, PartialEq, Eq, Structural)]
pub enum DiscoveryError {
    /// The Status reply has the wrong type or length.
    InvalidStatus,
    /// The device speaks another protocol version.
    VersionMismatch(u8),
    /// A GetParams reply has the wrong type or no page header.
    InvalidPageResponse,
    /// A GetParams page does not start where asked, makes no progress or
    /// runs past the parameter count.
    InvalidPageRange,
    /// A parameter name has no NUL.
    UnterminatedName,
    /// A parameter definition is cut short.
    TruncatedDefinition,
    /// A parameter name is not UTF-8.
    InvalidName,
    /// A parameter has an unknown type code or no elements.
    UnknownTypeCode,
    /// A page holds a different number of definitions than its range.
    PageCountMismatch,
    /// The GetSources reply has the wrong type.
    InvalidSourcesResponse,
    /// A source name or unit is malformed.
    SourceText(TextError),
    /// The number of sources differs from the Status count.
    SourceCountMismatch,
    /// The device has no parameter of the requested name.
    MissingParameter,
    /// The named parameter is not a character array.
    NotCharArray,
    /// The GetPar reply for a text parameter has the wrong type or length.
    InvalidCharResponse,
    /// The text parameter is not UTF-8.
    InvalidCharText,
}

/// Counts and sample rate reported by the device's Status reply.
#[derive(Clone, Copy, Debug, PartialEq, Eq, Structural)]
pub struct DeviceStatus {
    pub parameter_count: u16,
    pub source_count: u8,
    /// Bit pattern of the `f32` sample rate in hertz.
    pub sample_rate_bits: u32,
}

/// What a Status reply of `message_type` with `p` says.
pub open spec fn spec_status(message_type: u8, p: Seq<u8>) -> Result<DeviceStatus, DiscoveryError> {
    if message_type != msg_type_code(MsgType::Status) || p.len() != 12 {
        Err(DiscoveryError::InvalidStatus)
    } else if p[0] != VERSION {
        Err(DiscoveryError::VersionMismatch(p[0]))
    } else {
        Ok(
            DeviceStatus {
                parameter_count: from_le16(p[1], p[2]),
                source_count: p[3],
                sample_rate_bits: from_le32(p[4], p[5], p[6], p[7]),
            },
        )
    }
}

/// Check and read the device's Status reply.
pub fn parse_status(message_type: u8, payload: &[u8]) -> (r: Result<DeviceStatus, DiscoveryError>)
    ensures
        r == spec_status(message_type, payload@),
{
    if message_type != MsgType::Status.code() || payload.len() != 12 {
        return Err(DiscoveryError::InvalidStatus);
    }
    if payload[0] != VERSION {
        return Err(DiscoveryError::VersionMismatch(payload[0]));
    }
    Ok(
        DeviceStatus {
            parameter_count: u16_from_le(payload[1], payload[2]),
            source_count: payload[3],
            sample_rate_bits: u32_from_le(payload[4], payload[5], payload[6], payload[7]),
        },
    )
}

/// The first NUL lies at or after `from` and no further than the end.
pub proof fn lemma_first_nul_bounds(p: Seq<u8>, from: int)
    requires
        0 <= from <= p.len(),
    ensures
        from <= first_nul(p, from) <= p.len(),
        first_nul(p, from) < p.len() ==> p[first_nul(p, from)] == 0,
        forall|j: int| from <= j < first_nul(p, from) ==> p[j] != 0,
    decreases p.len() - from,
{
    if from < p.len() && p[from] != 0 {
        lemma_first_nul_bounds(p, from + 1);
    }
}

/// Index of the first NUL at or after `from`, or the length when there is
/// none.
fn find_nul(p: &[u8], from: usize) -> (end: usize)
    requires
        from <= p@.len(),
    ensures
        end == first_nul(p@, from as int),
{
    let mut end = from;
    while end < p.len()
        invariant
            from <= end <= p@.len(),
            forall|j: int| from <= j < end ==> p@[j] != 0,
        ensures
            from <= end <= p@.len(),
            forall|j: int| from <= j < end ==> p@[j] != 0,
            end < p@.len() ==> p@[end as int] == 0,
        decreases p@.len() - end,
    {
        if p[end] == 0 {
            break;
        }
        end = end + 1;
    }
    proof {
        lemma_first_nul_is(p@, from as int, end as int);
    }
    end
}

/// One parameter definition read from a page: index, name, type code and
/// element count.
pub type PageEntry = (u16, Seq<char>, u8, u16);

/// The definitions from `offset` to the end of a GetParams page, numbered
/// from `index` (wrapping like the 16-bit index).
pub open spec fn page_entries(p: Seq<u8>, offset: int, index: u16) -> Result<
    Seq<PageEntry>,
    DiscoveryError,
>
    decreases p.len() - offset,
{
    if offset < 0 || offset >= p.len() {
        Ok(Seq::empty())
    } else {
        let end = first_nul(p, offset);
        if end >= p.len() {
            Err(DiscoveryError::UnterminatedName)
        } else if end + 5 > p.len() {
            Err(DiscoveryError::TruncatedDefinition)
        } else if !valid_utf8(p.subrange(offset, end)) {
            Err(DiscoveryError::InvalidName)
        } else if element_size(p[end + 1]) * from_le16(p[end + 2], p[end + 3]) == 0 {
            Err(DiscoveryError::UnknownTypeCode)
        } else {
            proof {
                lemma_first_nul_bounds(p, offset);
            }
            let entry = (index, decode_utf8(p.subrange(offset, end)), p[end + 1], from_le16(
                p[end + 2],
                p[end + 3],
            ));
            match page_entries(p, end + 5, ((index + 1) % 65536) as u16) {
                Ok(rest) => Ok(seq![entry] + rest),
                Err(e) => Err(e),
            }
        }
    }
}

/// What a GetParams reply of `message_type` with `p` says for the page
/// asked from `start` of `count` parameters: its definitions and the index
/// of the next page.
pub open spec fn spec_parameter_page(message_type: u8, p: Seq<u8>, start: u16, count: u16) -> Result<
    (Seq<PageEntry>, u16),
    DiscoveryError,
> {
    if message_type != msg_type_code(MsgType::GetParams) || p.len() < 4 {
        Err(DiscoveryError::InvalidPageResponse)
    } else {
        let returned = from_le16(p[0], p[1]);
        let next = from_le16(p[2], p[3]);
        if returned != start || next <= start || next > count {
            Err(DiscoveryError::InvalidPageRange)
        } else {
            match page_entries(p, 4, start) {
                Err(e) => Err(e),
                Ok(entries) => if (start + entries.len()) % 65536 != next {
                    Err(DiscoveryError::PageCountMismatch)
                } else {
                    Ok((entries, next))
                },
            }
        }
    }
}

/// The definitions hold exactly the entries.
pub open spec fn definitions_match(defs: Seq<ParameterDefinition>, entries: Seq<PageEntry>) -> bool {
    &&& defs.len() == entries.len()
    &&& forall|i: int|
        0 <= i < defs.len() ==> {
            &&& #[trigger] defs[i].index == entries[i].0
            &&& defs[i].name@ == entries[i].1
            &&& defs[i].type_code == entries[i].2
            &&& defs[i].count == entries[i].3
        }
}

/// Check one GetParams page reply and read its definitions; returns them
/// and the start of the next page.
pub fn parse_parameter_page(message_type: u8, payload: &[u8], start: u16, count: u16) -> (r: Result<
    (Vec<ParameterDefinition>, u16),
    DiscoveryError,
>)
    ensures
        match (r, spec_parameter_page(message_type, payload@, start, count)) {
            (Ok((defs, next)), Ok((entries, n))) => next == n && definitions_match(defs@, entries),
            (Err(e), Err(f)) => e == f,
            _ => false,
        },
{
    if message_type != MsgType::GetParams.code() || payload.len() < 4 {
        return Err(DiscoveryError::InvalidPageResponse);
    }
    let returned = u16_from_le(payload[0], payload[1]);
    let next = u16_from_le(payload[2], payload[3]);
    if returned != start || next <= start || next > count {
        return Err(DiscoveryError::InvalidPageRange);
    }
    let ghost p = payload@;
    let mut defs: Vec<ParameterDefinition> = Vec::new();
    let ghost mut done: Seq<PageEntry> = Seq::empty();
    let mut offset: usize = 4;
    let mut index: u16 = start;
    while offset < payload.len()
        invariant
            p == payload@,
            message_type == msg_type_code(MsgType::GetParams),
            from_le16(p[0], p[1]) == start,
            from_le16(p[2], p[3]) == next,
            start < next <= count,
            4 <= offset <= p.len(),
            definitions_match(defs@, done),
            index == (start + done.len()) % 65536,
            page_entries(p, 4, start) == match page_entries(p, offset as int, index) {
                Ok(rest) => Ok(done + rest),
                Err(e) => Err(e),
            },
        decreases p.len() - offset,
    {
        let end = find_nul(payload, offset);
        proof {
            lemma_first_nul_bounds(p, offset as int);
        }
        if end == payload.len() {
            assert(page_entries(p, offset as int, index) == Err::<Seq<PageEntry>, DiscoveryError>(
                DiscoveryError::UnterminatedName,
            ));
            assert(page_entries(p, 4, start) == Err::<Seq<PageEntry>, DiscoveryError>(
                DiscoveryError::UnterminatedName,
            ));
            return Err(DiscoveryError::UnterminatedName);
        }
        if end > payload.len() - 5 {
            assert(page_entries(p, offset as int, index) == Err::<Seq<PageEntry>, DiscoveryError>(
                DiscoveryError::TruncatedDefinition,
            ));
            assert(page_entries(p, 4, start) == Err::<Seq<PageEntry>, DiscoveryError>(
                DiscoveryError::TruncatedDefinition,
            ));
            return Err(DiscoveryError::TruncatedDefinition);
        }
        let name = match utf8_text(&payload[offset..end]) {
            Some(name) => name,
            None => {
                assert(page_entries(p, offset as int, index) == Err::<
                    Seq<PageEntry>,
                    DiscoveryError,
                >(DiscoveryError::InvalidName));
                assert(page_entries(p, 4, start) == Err::<Seq<PageEntry>, DiscoveryError>(
                    DiscoveryError::InvalidName,
                ));
                return Err(DiscoveryError::InvalidName);
            },
        };
        let type_code = payload[end + 1];
        let elements = u16_from_le(payload[end + 2], payload[end + 3]);
        let definition = ParameterDefinition { index, name, type_code, count: elements };
        if definition.size() == 0 {
            assert(page_entries(p, offset as int, index) == Err::<Seq<PageEntry>, DiscoveryError>(
                DiscoveryError::UnknownTypeCode,
            ));
            assert(page_entries(p, 4, start) == Err::<Seq<PageEntry>, DiscoveryError>(
                DiscoveryError::UnknownTypeCode,
            ));
            return Err(DiscoveryError::UnknownTypeCode);
        }
        let ghost entry: PageEntry = (index, definition.name@, type_code, elements);
        proof {
            let rest_index = ((index + 1) % 65536) as u16;
            match page_entries(p, end + 5, rest_index) {
                Ok(rest) => {
                    assert(done + (seq![entry] + rest) =~= done.push(entry) + rest);
                },
                Err(_) => {},
            }
            done = done.push(entry);
        }
        defs.push(definition);
        index = index.wrapping_add(1);
        offset = end + 5;
        proof {
            assert(definitions_match(defs@, done)) by {
                assert forall|i: int| 0 <= i < defs@.len() implies {
                    &&& #[trigger] defs@[i].index == done[i].0
                    &&& defs@[i].name@ == done[i].1
                    &&& defs@[i].type_code == done[i].2
                    &&& defs@[i].count == done[i].3
                } by {
                    if i < defs@.len() - 1 {
                    }
                }
            }
        }
    }
    assert(done + Seq::<PageEntry>::empty() =~= done);
    if index != next {
        return Err(DiscoveryError::PageCountMismatch);
    }
    Ok((defs, next))
}

/// Names and units from `offset` to the end of a GetSources reply.
pub open spec fn source_entries(p: Seq<u8>, offset: int) -> Result<
    Seq<(Seq<char>, Seq<char>)>,
    TextError,
>
    decreases p.len() - offset,
{
    if offset < 0 || offset >= p.len() {
        Ok(Seq::empty())
    } else {
        match nul_text(p, offset) {
            Err(e) => Err(e),
            Ok((name, next)) => match nul_text(p, next) {
                Err(e) => Err(e),
                Ok((unit, after)) => {
                    proof {
                        lemma_first_nul_bounds(p, offset);
                        lemma_first_nul_bounds(p, next);
                    }
                    match source_entries(p, after) {
                        Ok(rest) => Ok(seq![(name, unit)] + rest),
                        Err(e) => Err(e),
                    }
                },
            },
        }
    }
}

/// What a GetSources reply of `message_type` with `p` says, for a device
/// that reported `count` sources.
pub open spec fn spec_sources(message_type: u8, p: Seq<u8>, count: int) -> Result<
    Seq<(Seq<char>, Seq<char>)>,
    DiscoveryError,
> {
    if message_type != msg_type_code(MsgType::GetSources) {
        Err(DiscoveryError::InvalidSourcesResponse)
    } else {
        match source_entries(p, 0) {
            Err(e) => Err(DiscoveryError::SourceText(e)),
            Ok(entries) => if entries.len() != count {
                Err(DiscoveryError::SourceCountMismatch)
            } else {
                Ok(entries)
            },
        }
    }
}

/// The source list holds exactly the names and units.
pub open spec fn sources_match(sources: Seq<SourceMetadata>, entries: Seq<(Seq<char>, Seq<char>)>) -> bool {
    &&& sources.len() == entries.len()
    &&& forall|i: int|
        0 <= i < sources.len() ==> #[trigger] sources[i].name@ == entries[i].0
            && sources[i].unit@ == entries[i].1
}

/// Check the GetSources reply and read the name and unit of each source.
pub fn parse_sources(message_type: u8, payload: &[u8], count: usize) -> (r: Result<
    Vec<SourceMetadata>,
    DiscoveryError,
>)
    ensures
        match (r, spec_sources(message_type, payload@, count as int)) {
            (Ok(sources), Ok(entries)) => sources_match(sources@, entries),
            (Err(e), Err(f)) => e == f,
            _ => false,
        },
{
    if message_type != MsgType::GetSources.code() {
        return Err(DiscoveryError::InvalidSourcesResponse);
    }
    let ghost p = payload@;
    let mut sources: Vec<SourceMetadata> = Vec::new();
    let ghost mut done: Seq<(Seq<char>, Seq<char>)> = Seq::empty();
    let mut offset: usize = 0;
    while offset < payload.len()
        invariant
            p == payload@,
            message_type == msg_type_code(MsgType::GetSources),
            offset <= p.len(),
            sources_match(sources@, done),
            source_entries(p, 0) == match source_entries(p, offset as int) {
                Ok(rest) => Ok(done + rest),
                Err(e) => Err(e),
            },
        decreases p.len() - offset,
    {
        let (name, next) = match decode_nul_ascii(payload, offset) {
            Ok(text) => text,
            Err(e) => {
                assert(source_entries(p, offset as int) == Err::<
                    Seq<(Seq<char>, Seq<char>)>,
                    TextError,
                >(e));
                assert(source_entries(p, 0) == Err::<Seq<(Seq<char>, Seq<char>)>, TextError>(e));
                return Err(DiscoveryError::SourceText(e));
            },
        };
        let (unit, after) = match decode_nul_ascii(payload, next) {
            Ok(text) => text,
            Err(e) => {
                assert(source_entries(p, offset as int) == Err::<
                    Seq<(Seq<char>, Seq<char>)>,
                    TextError,
                >(e));
                assert(source_entries(p, 0) == Err::<Seq<(Seq<char>, Seq<char>)>, TextError>(e));
                return Err(DiscoveryError::SourceText(e));
            },
        };
        let ghost entry = (name@, unit@);
        proof {
            match source_entries(p, after as int) {
                Ok(rest) => {
                    assert(done + (seq![entry] + rest) =~= done.push(entry) + rest);
                },
                Err(_) => {},
            }
            done = done.push(entry);
        }
        sources.push(SourceMetadata { name, unit });
        offset = after;
        proof {
            assert(sources_match(sources@, done)) by {
                assert forall|i: int| 0 <= i < sources@.len() implies #[trigger] sources@[i].name@
                    == done[i].0 && sources@[i].unit@ == done[i].1 by {
                    if i < sources@.len() - 1 {
                    }
                }
            }
        }
    }
    assert(done + Seq::<(Seq<char>, Seq<char>)>::empty() =~= done);
    if sources.len() != count {
        return Err(DiscoveryError::SourceCountMismatch);
    }
    Ok(sources)
}

/// `i` is the first definition named `name`.
pub open spec fn is_first_named(parameters: Seq<ParameterDefinition>, name: Seq<char>, i: int) -> bool {
    &&& 0 <= i < parameters.len()
    &&& parameters[i].name@ == name
    &&& forall|j: int| 0 <= j < i ==> #[trigger] parameters[j].name@ != name
}

/// No definition is named `name`.
pub open spec fn none_named(parameters: Seq<ParameterDefinition>, name: Seq<char>) -> bool {
    forall|j: int| 0 <= j < parameters.len() ==> #[trigger] parameters[j].name@ != name
}

/// Position of the first definition named `name`.
pub fn find_parameter(parameters: &[ParameterDefinition], name: &str) -> (r: Option<usize>)
    ensures
        match r {
            Some(i) => is_first_named(parameters@, name@, i as int),
            None => none_named(parameters@, name@),
        },
{
    let wanted = name.to_owned();
    let mut i: usize = 0;
    while i < parameters.len()
        invariant
            wanted@ == name@,
            i <= parameters@.len(),
            forall|j: int| 0 <= j < i ==> #[trigger] parameters@[j].name@ != name@,
        decreases parameters@.len() - i,
    {
        if parameters[i].name == wanted {
            return Some(i);
        }
        i = i + 1;
    }
    None
}

/// Type code of character-array parameters.
pub const CHAR_TYPE: u8 = 0x63;

/// The GetPar index and reply size for reading the text parameter `name`.
pub fn char_parameter_request(parameters: &[ParameterDefinition], name: &str) -> (r: Result<
    (u16, usize),
    DiscoveryError,
>)
    ensures
        none_named(parameters@, name@) <==> r == Err::<(u16, usize), DiscoveryError>(
            DiscoveryError::MissingParameter,
        ),
        r == Err::<(u16, usize), DiscoveryError>(DiscoveryError::NotCharArray) <==> exists|i: int|
            is_first_named(parameters@, name@, i) && parameters@[i].type_code != CHAR_TYPE,
        r matches Ok((index, size)) ==> exists|i: int|
            is_first_named(parameters@, name@, i) && parameters@[i].type_code == CHAR_TYPE
                && index == parameters@[i].index && size == parameters@[i].count,
        r is Err ==> r == Err::<(u16, usize), DiscoveryError>(DiscoveryError::MissingParameter)
            || r == Err::<(u16, usize), DiscoveryError>(DiscoveryError::NotCharArray),
{
    match find_parameter(parameters, name) {
        None => Err(DiscoveryError::MissingParameter),
        Some(i) => {
            proof {
                assert forall|k: int| is_first_named(parameters@, name@, k) implies k == i by {
                    if k < i {
                        assert(parameters@[k].name@ != name@);
                    } else if k > i {
                        assert(parameters@[i as int].name@ != name@);
                    }
                }
            }
            let parameter = &parameters[i];
            if parameter.type_code != CHAR_TYPE {
                Err(DiscoveryError::NotCharArray)
            } else {
                Ok((parameter.index, parameter.size()))
            }
        },
    }
}

/// The text a GetPar reply of `message_type` with `p` holds for a text
/// parameter of `size` bytes: the bytes before the first NUL.
pub open spec fn spec_char_text(message_type: u8, p: Seq<u8>, size: int) -> Result<
    Seq<char>,
    DiscoveryError,
> {
    if message_type != msg_type_code(MsgType::GetPar) || p.len() != size {
        Err(DiscoveryError::InvalidCharResponse)
    } else if !valid_utf8(p.subrange(0, first_nul(p, 0))) {
        Err(DiscoveryError::InvalidCharText)
    } else {
        Ok(decode_utf8(p.subrange(0, first_nul(p, 0))))
    }
}

/// Check the GetPar reply for a text parameter and read its text.
pub fn char_parameter_text(message_type: u8, payload: &[u8], size: usize) -> (r: Result<
    String,
    DiscoveryError,
>)
    ensures
        match (r, spec_char_text(message_type, payload@, size as int)) {
            (Ok(text), Ok(chars)) => text@ == chars,
            (Err(e), Err(f)) => e == f,
            _ => false,
        },
{
    if message_type != MsgType::GetPar.code() || payload.len() != size {
        return Err(DiscoveryError::InvalidCharResponse);
    }
    let end = find_nul(payload, 0);
    proof {
        lemma_first_nul_bounds(payload@, 0);
    }
    match utf8_text(&payload[0..end]) {
        Some(text) => Ok(text),
        None => Err(DiscoveryError::InvalidCharText),
    }
}

/// Index of the parameter named `name`, if the device has one.
pub fn parameter_index(parameters: &[ParameterDefinition], name: &str) -> (r: Option<u16>)
    ensures
        match r {
            Some(index) => exists|i: int|
                is_first_named(parameters@, name@, i) && parameters@[i].index == index,
            None => none_named(parameters@, name@),
        },
{
    match find_parameter(parameters, name) {
        Some(i) => Some(parameters[i].index),
        None => None,
    }
}

/// What the broker knows of the connected device.
#[derive(Clone, Debug)]
pub struct DeviceMetadata {
    /// Bit pattern of the `f32` sample rate in hertz.
    pub sample_rate_bits: u32,
    pub sources: Vec<SourceMetadata>,
    pub experiment: String,
    pub firmware: String,
    /// Index of the `arm` parameter, if the device has one.
    pub arm_index: Option<u16>,
    pub mac: [u8; 6],
}

/// Identity text padded with NULs or truncated to 16 bytes.
pub fn fixed_identity(value: &str) -> (out: [u8; 16])
    ensures
        out@ == fixed16(value.spec_bytes()),
{
    fixed_string(value)
}

} // verus!
