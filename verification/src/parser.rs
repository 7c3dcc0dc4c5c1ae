//! The format dispatcher: decides from the magic byte which of the two
//! binary wire encodings backs a raw ontology record, and normalizes the
//! decode collaborators' divergent error signalling into one outward shape.
//!
//! The decoding itself is the external collaborators' work and is run by the
//! caller; this module takes their outcomes as values and is verified for
//! every outcome they could hand back.

use vstd::prelude::*;
use vstd::string::StringExecFns;

verus! {

/// The wire encoding detected behind a raw record.
#[derive(Clone, Copy, PartialEq, Eq, Structural, Debug)]
pub enum RawType {
    Cbor,
    Json,
    Msgpack,
    Unknown,
}

/// Why the dispatch entry point failed.
#[derive(Clone, Copy, PartialEq, Eq, Structural, Debug)]
pub enum ParseError {
    /// The raw buffer was empty: no decode path was selected.
    EmptyInput,
    /// The decode collaborator for the selected path failed.
    DecodeError,
}

/// The marker byte of a fixed-size-two-array in the MessagePack encoding,
/// which every record of that encoding opens with.
pub const MSGPACK_MAGIC_HEADER: u8 = 146;

/// A raw record: its bytes and the encoding tag detected for them.
pub struct RawObj {
    pub data: Vec<u8>,
    pub raw_type: RawType,
}

/// The ontology record under construction: its raw side and the URI the
/// decode collaborator extracted for it.
pub struct Individual {
    pub raw: RawObj,
    pub uri: String,
}

/// The encoding a non-empty buffer selects: the MessagePack array marker
/// picks the MessagePack path; every other leading byte falls through to
/// the CBOR path, with no positive CBOR check.
pub open spec fn detected_type(data: Seq<u8>) -> RawType
    recommends
        data.len() > 0,
{
    if data[0] == MSGPACK_MAGIC_HEADER {
        RawType::Msgpack
    } else {
        RawType::Cbor
    }
}

/// Detects the encoding behind the record's raw bytes, tags the record, and
/// records the decode collaborator's outcome. The decode itself is outside
/// work: the caller runs the collaborator for the detected path and hands
/// the outcome in as `decoded` — `Some` with the extracted URI on success,
/// `None` on any failure, whose detail is deliberately dropped here.
pub fn parse_raw(iraw: &mut Individual, decoded: Option<String>) -> (r: Result<(), ParseError>)
    ensures
        old(iraw).raw.data@.len() == 0 ==> r == Err::<(), ParseError>(ParseError::EmptyInput)
            && *final(iraw) == *old(iraw),
        old(iraw).raw.data@.len() > 0 ==> {
            &&& final(iraw).raw.raw_type == detected_type(old(iraw).raw.data@)
            &&& final(iraw).raw.data == old(iraw).raw.data
            &&& match decoded {
                Some(uri) => r == Ok::<(), ParseError>(()) && final(iraw).uri == uri,
                None => r == Err::<(), ParseError>(ParseError::DecodeError) && final(iraw).uri
                    == old(iraw).uri,
            }
        },
{
    if iraw.raw.data.len() == 0 {
        return Err(ParseError::EmptyInput);
    }
    let first = iraw.raw.data[0];
    if first == MSGPACK_MAGIC_HEADER {
        iraw.raw.raw_type = RawType::Msgpack;
    } else {
        iraw.raw.raw_type = RawType::Cbor;
    }
    match decoded {
        Some(uri) => {
            iraw.uri = uri;
            Ok(())
        },
        None => Err(ParseError::DecodeError),
    }
}

/// What the predicate-extraction collaborator of one encoding reported: the
/// MessagePack collaborator answers with `Ok` or an error message — an empty
/// message means "value not present", not an error — while the CBOR
/// collaborator answers with a bare boolean.
pub enum ExtractResult {
    Msgpack(Result<(), String>),
    Cbor(bool),
}

/// Whether the dispatch reports the predicate as found: only a successful
/// answer of the collaborator that matches the record's tag counts.
pub open spec fn predicate_found(tag: RawType, res: ExtractResult) -> bool {
    match res {
        ExtractResult::Msgpack(r) => tag == RawType::Msgpack && r is Ok,
        ExtractResult::Cbor(b) => tag == RawType::Cbor && b,
    }
}

/// The diagnostic line the MessagePack path reports for a failed extraction.
pub open spec fn diagnostic_message(predicate: Seq<char>, err: Seq<char>) -> Seq<char> {
    "parse for ["@ + predicate + "], err="@ + err
}

/// The diagnostic the dispatch hands out: only the MessagePack path reports
/// one, and only when the collaborator's message is non-empty — an empty
/// message is a silent "absent". The CBOR path has no diagnostic layer.
pub open spec fn predicate_diagnostic(
    tag: RawType,
    res: ExtractResult,
    predicate: Seq<char>,
) -> Option<Seq<char>> {
    match res {
        ExtractResult::Msgpack(r) => match r {
            Ok(_) => Option::None,
            Err(e) => if tag == RawType::Msgpack && e@.len() > 0 {
                Some(diagnostic_message(predicate, e@))
            } else {
                Option::None
            },
        },
        ExtractResult::Cbor(_) => Option::None,
    }
}

/// Dispatches one predicate-extraction outcome by the record's encoding tag.
/// The first result is the outward boolean: found or not. The second is the
/// diagnostic to log, if the MessagePack collaborator failed with a
/// non-empty message; extraction failures never raise further than this.
pub fn parse_to_predicate(expect_predicate: &str, iraw: &Individual, res: ExtractResult) -> (r: (
    bool,
    Option<String>,
))
    ensures
        r.0 == predicate_found(iraw.raw.raw_type, res),
        match r.1 {
            Some(d) => predicate_diagnostic(iraw.raw.raw_type, res, expect_predicate@) == Some(d@),
            None => predicate_diagnostic(iraw.raw.raw_type, res, expect_predicate@) is None,
        },
{
    match res {
        ExtractResult::Msgpack(mr) => {
            if iraw.raw.raw_type == RawType::Msgpack {
                match mr {
                    Ok(()) => (true, None),
                    Err(e) => {
                        if e.as_str().is_empty() {
                            (false, None)
                        } else {
                            let mut msg = String::new();
                            msg.append("parse for [");
                            msg.append(expect_predicate);
                            msg.append("], err=");
                            msg.append(e.as_str());
                            proof {
                                assert(msg@ =~= diagnostic_message(expect_predicate@, e@));
                            }
                            (false, Some(msg))
                        }
                    },
                }
            } else {
                (false, None)
            }
        },
        ExtractResult::Cbor(b) => {
            if iraw.raw.raw_type == RawType::Cbor {
                (b, None)
            } else {
                (false, None)
            }
        },
    }
}

} // verus!
