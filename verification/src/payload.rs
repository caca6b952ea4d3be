//! Codecs for variable-length protocol-v3 control payloads.

use vstd::prelude::*;
use vstd::string::StringSliceAdditionalSpecFns;

use crate::bytes::{from_le16, from_le32, le16, put_bytes, put_u16, u16_from_le, u32_from_le};
use crate::{param_type_code, ParamType};

verus! {

pub const MAX_PARAM_NAME_LEN: usize = 23;

pub const MAX_NAME_LEN: usize = 15;

pub const MAX_UNIT_LEN: usize = 7;

/// Bytes preceding the definitions in a paged `GetParams` response.
pub const PARAM_PAGE_HEADER_LEN: usize = 4;

#[derive(Clone, Copy, Debug, PartialEq, Eq, Structural)]
pub enum PayloadError {
    InvalidText,
    InvalidIndex,
    InvalidLength,
    TooLong,
    Truncated,
}

/// Decode the first requested index from a `GetParams` request.
pub fn decode_param_page_request(payload: &[u8]) -> (r: Result<u16, PayloadError>)
    ensures
        payload@.len() == 2 ==> r == Ok::<u16, PayloadError>(from_le16(payload@[0], payload@[1])),
        payload@.len() != 2 ==> r == Err::<u16, PayloadError>(PayloadError::InvalidLength),
{
    if payload.len() != 2 {
        return Err(PayloadError::InvalidLength);
    }
    Ok(u16_from_le(payload[0], payload[1]))
}

/// A parameter name is transmitted when it is ASCII and short enough.
pub open spec fn valid_param_name(name: &str) -> bool {
    name.spec_bytes().len() <= MAX_PARAM_NAME_LEN && vstd::string::is_ascii(name)
}

/// Wire bytes of one parameter definition:
/// name NUL, type code, count u16, writable u8.
pub open spec fn param_entry(name: Seq<u8>, ty: ParamType, count: u16, writable: bool) -> Seq<
    u8,
> {
    name + seq![0u8, param_type_code(ty)] + le16(count) + seq![
        if writable {
            1u8
        } else {
            0u8
        },
    ]
}

/// What `encode_param` writes (or the error it reports).
pub open spec fn spec_encode_param(
    out_len: nat,
    name: &str,
    ty: ParamType,
    count: u16,
    writable: bool,
) -> Result<Seq<u8>, PayloadError> {
    if !valid_param_name(name) {
        Err(PayloadError::InvalidText)
    } else if out_len < name.spec_bytes().len() + 5 {
        Err(PayloadError::TooLong)
    } else {
        Ok(param_entry(name.spec_bytes(), ty, count, writable))
    }
}

fn write_param(
    out: &mut [u8],
    at: usize,
    name: &str,
    ty: ParamType,
    count: u16,
    writable: bool,
) -> (n: usize)
    requires
        valid_param_name(name),
        at + name.spec_bytes().len() + 5 <= old(out).len(),
    ensures
        n == name.spec_bytes().len() + 5,
        final(out)@ == old(out)@.take(at as int) + param_entry(
            name.spec_bytes(),
            ty,
            count,
            writable,
        ) + old(out)@.skip(at + n),
{
    let bytes = name.as_bytes();
    let len = bytes.len();
    put_bytes(out, at, bytes);
    out[at + len] = 0;
    out[at + len + 1] = ty.code();
    put_u16(out, at + len + 2, count);
    out[at + len + 4] = if writable {
        1
    } else {
        0
    };
    assert(out@ =~= old(out)@.take(at as int) + param_entry(bytes@, ty, count, writable)
        + old(out)@.skip(at + len + 5));
    len + 5
}

/// Encode one parameter definition at the start of `out`.
pub fn encode_param(out: &mut [u8], name: &str, ty: ParamType, count: u16, writable: bool) -> (r:
    Result<usize, PayloadError>)
    ensures
        match spec_encode_param(old(out)@.len(), name, ty, count, writable) {
            Ok(entry) => r == Ok::<usize, PayloadError>(entry.len() as usize) && final(out)@
                == entry + old(out)@.skip(entry.len() as int),
            Err(e) => r == Err::<usize, PayloadError>(e) && final(out)@ == old(out)@,
        },
{
    if name.as_bytes().len() > MAX_PARAM_NAME_LEN || !name.is_ascii() {
        return Err(PayloadError::InvalidText);
    }
    let n = name.as_bytes().len() + 5;
    if out.len() < n {
        return Err(PayloadError::TooLong);
    }
    let written = write_param(out, 0, name, ty, count, writable);
    assert(old(out)@.take(0) =~= Seq::<u8>::empty());
    assert(out@ =~= param_entry(name.spec_bytes(), ty, count, writable) + old(out)@.skip(
        written as int,
    ));
    Ok(written)
}

/// A source name and unit are transmitted when both are ASCII and short
/// enough.
pub open spec fn valid_source_text(name: &str, unit: &str) -> bool {
    &&& name.spec_bytes().len() <= MAX_NAME_LEN
    &&& unit.spec_bytes().len() <= MAX_UNIT_LEN
    &&& vstd::string::is_ascii(name)
    &&& vstd::string::is_ascii(unit)
}

/// Wire bytes of one source definition: name NUL, unit NUL.
pub open spec fn source_entry(name: Seq<u8>, unit: Seq<u8>) -> Seq<u8> {
    name + seq![0u8] + unit + seq![0u8]
}

/// Encode one source definition at the start of `out`.
pub fn encode_source(out: &mut [u8], name: &str, unit: &str) -> (r: Result<usize, PayloadError>)
    ensures
        !valid_source_text(name, unit) ==> r == Err::<usize, PayloadError>(
            PayloadError::InvalidText,
        ),
        valid_source_text(name, unit) && old(out)@.len() < name.spec_bytes().len()
            + unit.spec_bytes().len() + 2 ==> r == Err::<usize, PayloadError>(
            PayloadError::TooLong,
        ),
        valid_source_text(name, unit) && old(out)@.len() >= name.spec_bytes().len()
            + unit.spec_bytes().len() + 2 ==> r is Ok,
        r is Err ==> final(out)@ == old(out)@,
        r matches Ok(n) ==> {
            &&& valid_source_text(name, unit)
            &&& n == name.spec_bytes().len() + unit.spec_bytes().len() + 2
            &&& n <= old(out)@.len()
            &&& final(out)@ == source_entry(name.spec_bytes(), unit.spec_bytes()) + old(
                out,
            )@.skip(n as int)
        },
{
    if name.as_bytes().len() > MAX_NAME_LEN || unit.as_bytes().len() > MAX_UNIT_LEN
        || !name.is_ascii() || !unit.is_ascii() {
        return Err(PayloadError::InvalidText);
    }
    let n = name.as_bytes().len() + unit.as_bytes().len() + 2;
    if out.len() < n {
        return Err(PayloadError::TooLong);
    }
    let name_bytes = name.as_bytes();
    let unit_bytes = unit.as_bytes();
    put_bytes(out, 0, name_bytes);
    out[name_bytes.len()] = 0;
    let unit_start = name_bytes.len() + 1;
    put_bytes(out, unit_start, unit_bytes);
    out[n - 1] = 0;
    assert(out@ =~= source_entry(name_bytes@, unit_bytes@) + old(out)@.skip(n as int));
    Ok(n)
}

/// One registry entry: name, type, element count, writable.
pub type ParamDefinition<'a> = (&'a str, ParamType, u16, bool);

/// The entries of a page from index `next` onward, given `space` free bytes:
/// the exclusive end index reached and the definition bytes, or the error.
/// Filling stops at `total` or at the first definition that does not fit.
pub open spec fn spec_page_entries(
    definitions: Seq<ParamDefinition>,
    next: int,
    total: int,
    space: int,
) -> Result<(int, Seq<u8>), PayloadError>
    decreases total - next,
{
    if next >= total {
        Ok((next, Seq::empty()))
    } else if next < 0 || next >= definitions.len() {
        Err(PayloadError::InvalidIndex)
    } else if !valid_param_name(definitions[next].0) {
        Err(PayloadError::InvalidText)
    } else if space < definitions[next].0.spec_bytes().len() + 5 {
        Ok((next, Seq::empty()))
    } else {
        let entry = param_entry(
            definitions[next].0.spec_bytes(),
            definitions[next].1,
            definitions[next].2,
            definitions[next].3,
        );
        match spec_page_entries(definitions, next + 1, total, space - entry.len()) {
            Ok((end, rest)) => Ok((end, entry + rest)),
            Err(e) => Err(e),
        }
    }
}

/// What `encode_param_page` produces: the next index and the page bytes, or
/// the error.
pub open spec fn spec_param_page(
    out_len: nat,
    start: u16,
    total: u16,
    definitions: Seq<ParamDefinition>,
) -> Result<(u16, Seq<u8>), PayloadError> {
    if start > total {
        Err(PayloadError::InvalidIndex)
    } else if out_len < PARAM_PAGE_HEADER_LEN {
        Err(PayloadError::TooLong)
    } else {
        match spec_page_entries(
            definitions,
            start as int,
            total as int,
            out_len - PARAM_PAGE_HEADER_LEN,
        ) {
            Err(e) => Err(e),
            Ok((next, entries)) => if next == start && start < total {
                Err(PayloadError::TooLong)
            } else {
                Ok((next as u16, le16(start) + le16(next as u16) + entries))
            },
        }
    }
}

/// Concatenated wire bytes of the definitions `from..to`.
pub open spec fn definitions_bytes(definitions: Seq<ParamDefinition>, from: int, to: int) -> Seq<
    u8,
>
    decreases to - from,
{
    if from >= to {
        Seq::empty()
    } else {
        param_entry(
            definitions[from].0.spec_bytes(),
            definitions[from].1,
            definitions[from].2,
            definitions[from].3,
        ) + definitions_bytes(definitions, from + 1, to)
    }
}

proof fn lemma_page_entries_content(
    definitions: Seq<ParamDefinition>,
    next: int,
    total: int,
    space: int,
)
    requires
        0 <= next <= total,
    ensures
        spec_page_entries(definitions, next, total, space) matches Ok((end, bytes)) ==> {
            &&& next <= end <= total
            &&& bytes == definitions_bytes(definitions, next, end)
        },
    decreases total - next,
{
    if next < total && 0 <= next < definitions.len() && valid_param_name(definitions[next].0)
        && space >= definitions[next].0.spec_bytes().len() + 5 {
        let entry = param_entry(
            definitions[next].0.spec_bytes(),
            definitions[next].1,
            definitions[next].2,
            definitions[next].3,
        );
        lemma_page_entries_content(definitions, next + 1, total, space - entry.len());
    }
}

/// A successfully encoded page decodes to its echoed start, an end index
/// with `start <= next <= total` that advances whenever `start < total`, and
/// exactly the complete definitions `start..next`.
pub proof fn lemma_param_page_round_trip(
    out_len: nat,
    start: u16,
    total: u16,
    definitions: Seq<ParamDefinition>,
)
    ensures
        spec_param_page(out_len, start, total, definitions) matches Ok((next, page)) ==> {
            &&& start <= next <= total
            &&& start < total ==> start < next
            &&& spec_decode_param_page(page) == Ok::<(u16, u16, Seq<u8>), PayloadError>(
                (start, next, definitions_bytes(definitions, start as int, next as int)),
            )
        },
{
    if start <= total && out_len >= PARAM_PAGE_HEADER_LEN {
        lemma_page_entries_content(
            definitions,
            start as int,
            total as int,
            out_len - PARAM_PAGE_HEADER_LEN,
        );
        if let Ok((next, page)) = spec_param_page(out_len, start, total, definitions) {
            let entries = page.skip(PARAM_PAGE_HEADER_LEN as int);
            assert(page[0] == le16(start)[0] && page[1] == le16(start)[1]);
            assert(page[2] == le16(next)[0] && page[3] == le16(next)[1]);
            crate::bytes::lemma_le16_round_trip(start);
            crate::bytes::lemma_le16_round_trip(next);
            assert(entries =~= definitions_bytes(definitions, start as int, next as int));
        }
    }
}

/// Encode one complete-definition page of a parameter registry.
///
/// The response begins with the echoed start and the exclusive next index.
/// `definitions` holds every registry entry in `0..total`.
pub fn encode_param_page(
    out: &mut [u8],
    start: u16,
    total: u16,
    definitions: &[ParamDefinition],
) -> (r: Result<usize, PayloadError>)
    ensures
        match spec_param_page(old(out)@.len(), start, total, definitions@) {
            Ok((_, page)) => r == Ok::<usize, PayloadError>(page.len() as usize) && page.len()
                <= old(out)@.len() && final(out)@.subrange(0, page.len() as int) == page,
            Err(e) => r == Err::<usize, PayloadError>(e),
        },
{
    if start > total {
        return Err(PayloadError::InvalidIndex);
    }
    if out.len() < PARAM_PAGE_HEADER_LEN {
        return Err(PayloadError::TooLong);
    }
    put_u16(out, 0, start);
    let ghost space0: int = out@.len() - PARAM_PAGE_HEADER_LEN;
    let mut next = start;
    let mut offset = PARAM_PAGE_HEADER_LEN;
    let ghost mut written: Seq<u8> = Seq::empty();
    while next < total
        invariant_except_break
            start <= next <= total,
            PARAM_PAGE_HEADER_LEN <= offset <= out@.len(),
            out@.len() == old(out)@.len(),
            out@.subrange(0, 2) == le16(start),
            out@.subrange(PARAM_PAGE_HEADER_LEN as int, offset as int) == written,
            written.len() == offset - PARAM_PAGE_HEADER_LEN,
            space0 == old(out)@.len() - PARAM_PAGE_HEADER_LEN,
            spec_page_entries(definitions@, start as int, total as int, space0) == match spec_page_entries(
                definitions@,
                next as int,
                total as int,
                out@.len() - offset,
            ) {
                Ok((end, rest)) => Ok((end, written + rest)),
                Err(e) => Err(e),
            },
        ensures
            start <= next <= total,
            PARAM_PAGE_HEADER_LEN <= offset <= out@.len(),
            out@.len() == old(out)@.len(),
            out@.subrange(0, 2) == le16(start),
            out@.subrange(PARAM_PAGE_HEADER_LEN as int, offset as int) == written,
            spec_page_entries(definitions@, start as int, total as int, space0) == Ok::<
                (int, Seq<u8>),
                PayloadError,
            >((next as int, written)),
        decreases total - next,
    {
        if next as usize >= definitions.len() {
            return Err(PayloadError::InvalidIndex);
        }
        let (name, ty, count, writable) = definitions[next as usize];
        if name.as_bytes().len() > MAX_PARAM_NAME_LEN || !name.is_ascii() {
            return Err(PayloadError::InvalidText);
        }
        let encoded_len = name.as_bytes().len() + 5;
        if out.len() - offset < encoded_len {
            break;
        }
        let ghost before = out@;
        let ghost space = out@.len() - offset;
        let n = write_param(out, offset, name, ty, count, writable);
        let ghost entry = param_entry(name.spec_bytes(), ty, count, writable);
        proof {
            assert(entry.len() == n);
            assert(spec_page_entries(definitions@, next as int, total as int, space) == match spec_page_entries(
                definitions@,
                next + 1,
                total as int,
                space - n,
            ) {
                Ok((end, rest)) => Ok((end, entry + rest)),
                Err(e) => Err(e),
            });
            assert forall|rest: Seq<u8>| (written + entry) + rest =~= written + (entry + rest) by {}
            assert(out@.subrange(0, 2) =~= before.subrange(0, 2));
            assert(out@.subrange(PARAM_PAGE_HEADER_LEN as int, offset + n) =~= written + entry);
            written = written + entry;
            assert((written.len()) == offset + n - PARAM_PAGE_HEADER_LEN);
        }
        offset = offset + n;
        next = next + 1;
    }
    if next == start && start < total {
        return Err(PayloadError::TooLong);
    }
    let ghost before = out@;
    put_u16(out, 2, next);
    proof {
        let page = le16(start) + le16(next) + written;
        assert(out@.subrange(0, offset as int) =~= page);
    }
    Ok(offset)
}

/// What `decode_param_page` gives: `(start, next, definitions)` or the error.
pub open spec fn spec_decode_param_page(payload: Seq<u8>) -> Result<(u16, u16, Seq<u8>), PayloadError> {
    if payload.len() < PARAM_PAGE_HEADER_LEN {
        Err(PayloadError::Truncated)
    } else if from_le16(payload[2], payload[3]) < from_le16(payload[0], payload[1]) {
        Err(PayloadError::InvalidIndex)
    } else {
        Ok(
            (
                from_le16(payload[0], payload[1]),
                from_le16(payload[2], payload[3]),
                payload.skip(PARAM_PAGE_HEADER_LEN as int),
            ),
        )
    }
}

/// Decode the indices and definition bytes from a `GetParams` response page.
pub fn decode_param_page(payload: &[u8]) -> (r: Result<(u16, u16, &[u8]), PayloadError>)
    ensures
        match r {
            Ok((s, n, d)) => spec_decode_param_page(payload@) == Ok::<
                (u16, u16, Seq<u8>),
                PayloadError,
            >((s, n, d@)),
            Err(e) => spec_decode_param_page(payload@) == Err::<
                (u16, u16, Seq<u8>),
                PayloadError,
            >(e),
        },
{
    if payload.len() < PARAM_PAGE_HEADER_LEN {
        return Err(PayloadError::Truncated);
    }
    let start = u16_from_le(payload[0], payload[1]);
    let next = u16_from_le(payload[2], payload[3]);
    if next < start {
        return Err(PayloadError::InvalidIndex);
    }
    Ok((start, next, &payload[PARAM_PAGE_HEADER_LEN..payload.len()]))
}

/// Decode `index u16, offset u32, data` of a `SetBlock` request.
pub fn decode_set_block(payload: &[u8]) -> (r: Result<(u16, u32, &[u8]), PayloadError>)
    ensures
        payload@.len() < 6 <==> r == Err::<(u16, u32, &[u8]), PayloadError>(
            PayloadError::Truncated,
        ),
        payload@.len() >= 6 ==> r is Ok,
        r matches Ok((index, offset, data)) ==> {
            &&& index == from_le16(payload@[0], payload@[1])
            &&& offset == from_le32(payload@[2], payload@[3], payload@[4], payload@[5])
            &&& data@ == payload@.skip(6)
        },
{
    if payload.len() < 6 {
        return Err(PayloadError::Truncated);
    }
    Ok(
        (
            u16_from_le(payload[0], payload[1]),
            u32_from_le(payload[2], payload[3], payload[4], payload[5]),
            &payload[6..payload.len()],
        ),
    )
}

/// Decode `index u16, length u32` of a `Commit` request.
pub fn decode_commit(payload: &[u8]) -> (r: Result<(u16, u32), PayloadError>)
    ensures
        payload@.len() != 6 ==> r == Err::<(u16, u32), PayloadError>(PayloadError::Truncated),
        payload@.len() == 6 ==> r == Ok::<(u16, u32), PayloadError>(
            (
                from_le16(payload@[0], payload@[1]),
                from_le32(payload@[2], payload@[3], payload@[4], payload@[5]),
            ),
        ),
{
    if payload.len() != 6 {
        return Err(PayloadError::Truncated);
    }
    Ok(
        (
            u16_from_le(payload[0], payload[1]),
            u32_from_le(payload[2], payload[3], payload[4], payload[5]),
        ),
    )
}

} // verus!
