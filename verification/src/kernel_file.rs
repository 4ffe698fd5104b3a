//! The kernel file format: JSON text holding a document with `"type":
//! "explicit"`, an optional `path_check`, and a `moves` array whose entries
//! hold an integer `offset` triple and a numeric `cost`.

use crate::kernel::{KernelMove, KernelPathCheck};
use crate::text::{debug_quote, debug_quoted, decimal, decimal_string, str_eq};
use serde_json::Value;
use vstd::prelude::*;

verus! {

/// One entry of the `moves` array as the format rules read it: the `offset`
/// array (absent when missing or not an array), each of its values as an
/// `i64` (absent when not an integer), and the `cost` as the bit pattern of
/// a binary64 number (absent when missing or not a number).
#[derive(Clone, Debug)]
pub struct KernelMoveDocument {
    pub offset: Option<Vec<Option<i64>>>,
    pub cost_bits: Option<u64>,
}

/// A kernel file as the format rules read it: `type` and `path_check` (each
/// absent when missing or not a string) and the `moves` array (absent when
/// missing or not an array).
#[derive(Clone, Debug)]
pub struct KernelDocument {
    pub kind: Option<String>,
    pub path_check: Option<String>,
    pub moves: Option<Vec<KernelMoveDocument>>,
}

/// Why a kernel document is rejected.
#[derive(Clone, Debug, PartialEq, Eq)]
pub enum KernelLoadError {
    NotExplicit,
    InvalidPathCheck(String),
    MissingMoves,
    MissingOffset(usize),
    OffsetArity(usize),
    OffsetNotInteger(usize),
    OffsetOutOfRange(usize),
    MissingCost(usize),
}

/// The text of each load error.
pub open spec fn load_error_text(e: KernelLoadError) -> Seq<char> {
    match e {
        KernelLoadError::NotExplicit => "kernel JSON must have \"type\": \"explicit\""@,
        KernelLoadError::InvalidPathCheck(v) => "kernel path_check must be endpoint_occupied or swept_occupied, got "@
            + debug_quoted(v@),
        KernelLoadError::MissingMoves => "kernel JSON must contain a moves array"@,
        KernelLoadError::MissingOffset(i) => "kernel move "@ + decimal(i as nat) + " must contain an offset array"@,
        KernelLoadError::OffsetArity(i) => "kernel move "@ + decimal(i as nat) + " offset must have three values"@,
        KernelLoadError::OffsetNotInteger(i) => "kernel move "@ + decimal(i as nat)
            + " offset values must be integers"@,
        KernelLoadError::OffsetOutOfRange(i) => "kernel move "@ + decimal(i as nat)
            + " offset value is out of range"@,
        KernelLoadError::MissingCost(i) => "kernel move "@ + decimal(i as nat) + " must contain a numeric cost"@,
    }
}

fn indexed_message(prefix: &str, index: usize, suffix: &str) -> (r: String)
    ensures
        r@ == prefix@ + decimal(index as nat) + suffix@,
{
    let mut text = String::from_str(prefix);
    text.append(decimal_string(index).as_str());
    text.append(suffix);
    text
}

impl KernelLoadError {
    /// The human-readable description of the error.
    pub fn message(&self) -> (r: String)
        ensures
            r@ == load_error_text(*self),
    {
        match self {
            KernelLoadError::NotExplicit => String::from_str("kernel JSON must have \"type\": \"explicit\""),
            KernelLoadError::InvalidPathCheck(value) => {
                let mut text = String::from_str(
                    "kernel path_check must be endpoint_occupied or swept_occupied, got ",
                );
                text.append(debug_quote(value.as_str()).as_str());
                text
            },
            KernelLoadError::MissingMoves => String::from_str("kernel JSON must contain a moves array"),
            KernelLoadError::MissingOffset(i) => indexed_message("kernel move ", *i, " must contain an offset array"),
            KernelLoadError::OffsetArity(i) => indexed_message("kernel move ", *i, " offset must have three values"),
            KernelLoadError::OffsetNotInteger(i) => indexed_message(
                "kernel move ",
                *i,
                " offset values must be integers",
            ),
            KernelLoadError::OffsetOutOfRange(i) => indexed_message("kernel move ", *i, " offset value is out of range"),
            KernelLoadError::MissingCost(i) => indexed_message("kernel move ", *i, " must contain a numeric cost"),
        }
    }
}

/// An `i64` that fits in `isize`.
pub open spec fn fits_isize(v: i64) -> bool {
    isize::MIN <= v <= isize::MAX
}

/// The error of offset value `a` (of three), if any: values are checked in
/// order, each first for being an integer, then for fitting in `isize`.
pub open spec fn offset_values_error(values: Seq<Option<i64>>, index: usize, a: int) -> Option<KernelLoadError>
    decreases 3 - a,
{
    if a >= 3 {
        None
    } else {
        match values[a] {
            None => Some(KernelLoadError::OffsetNotInteger(index)),
            Some(v) => if fits_isize(v) {
                offset_values_error(values, index, a + 1)
            } else {
                Some(KernelLoadError::OffsetOutOfRange(index))
            },
        }
    }
}

/// The error of move entry `index`, if any.
pub open spec fn move_document_error(m: KernelMoveDocument, index: usize) -> Option<KernelLoadError> {
    match m.offset {
        None => Some(KernelLoadError::MissingOffset(index)),
        Some(values) => if values@.len() != 3 {
            Some(KernelLoadError::OffsetArity(index))
        } else {
            match offset_values_error(values@, index, 0) {
                Some(e) => Some(e),
                None => if m.cost_bits is None {
                    Some(KernelLoadError::MissingCost(index))
                } else {
                    None
                },
            }
        },
    }
}

/// The kernel move that a valid entry describes.
pub open spec fn document_move(m: KernelMoveDocument) -> KernelMove {
    let values = m.offset->0@;
    KernelMove {
        offset: [values[0]->0 as isize, values[1]->0 as isize, values[2]->0 as isize],
        cost_bits: m.cost_bits->0,
    }
}

/// The first error among the move entries from `k` on.
pub open spec fn first_move_error(moves: Seq<KernelMoveDocument>, k: int) -> Option<KernelLoadError>
    decreases moves.len() - k,
{
    if k >= moves.len() {
        None
    } else {
        match move_document_error(moves[k], k as usize) {
            Some(e) => Some(e),
            None => first_move_error(moves, k + 1),
        }
    }
}

/// The path check a document selects: `swept_occupied` when absent.
pub open spec fn document_path_check(p: Option<String>) -> Option<KernelPathCheck> {
    match p {
        None => Some(KernelPathCheck::SweptOccupied),
        Some(s) => if s@ == "endpoint_occupied"@ {
            Some(KernelPathCheck::EndpointOccupied)
        } else if s@ == "swept_occupied"@ {
            Some(KernelPathCheck::SweptOccupied)
        } else {
            None
        },
    }
}

/// The error, if any, with which a document is rejected.
pub open spec fn document_error(doc: KernelDocument) -> Option<KernelLoadError> {
    if !(doc.kind matches Some(k) && k@ == "explicit"@) {
        Some(KernelLoadError::NotExplicit)
    } else if document_path_check(doc.path_check) is None {
        Some(KernelLoadError::InvalidPathCheck(doc.path_check->0))
    } else {
        match doc.moves {
            None => Some(KernelLoadError::MissingMoves),
            Some(ms) => first_move_error(ms@, 0),
        }
    }
}

fn offset_value(value: Option<i64>, index: usize) -> (r: Result<isize, KernelLoadError>)
    ensures
        value is None ==> r == Err::<isize, KernelLoadError>(KernelLoadError::OffsetNotInteger(index)),
        value is Some && !fits_isize(value->0) ==> r == Err::<isize, KernelLoadError>(
            KernelLoadError::OffsetOutOfRange(index),
        ),
        value is Some && fits_isize(value->0) ==> r == Ok::<isize, KernelLoadError>(value->0 as isize),
{
    match value {
        None => Err(KernelLoadError::OffsetNotInteger(index)),
        Some(v) => if v < isize::MIN as i64 || v > isize::MAX as i64 {
            Err(KernelLoadError::OffsetOutOfRange(index))
        } else {
            Ok(v as isize)
        },
    }
}

fn parse_move_document(m: &KernelMoveDocument, index: usize) -> (r: Result<KernelMove, KernelLoadError>)
    ensures
        r matches Err(e) ==> move_document_error(*m, index) == Some(e),
        r matches Ok(km) ==> move_document_error(*m, index) is None && km == document_move(*m),
        move_document_error(*m, index) is Some ==> r is Err,
{
    let values = match &m.offset {
        None => return Err(KernelLoadError::MissingOffset(index)),
        Some(values) => values,
    };
    if values.len() != 3 {
        return Err(KernelLoadError::OffsetArity(index));
    }
    proof {
        reveal_with_fuel(offset_values_error, 4);
    }
    let x = match offset_value(values[0], index) {
        Ok(v) => v,
        Err(e) => return Err(e),
    };
    let y = match offset_value(values[1], index) {
        Ok(v) => v,
        Err(e) => return Err(e),
    };
    let z = match offset_value(values[2], index) {
        Ok(v) => v,
        Err(e) => return Err(e),
    };
    let cost_bits = match m.cost_bits {
        None => return Err(KernelLoadError::MissingCost(index)),
        Some(bits) => bits,
    };
    Ok(KernelMove { offset: [x, y, z], cost_bits })
}

/// Reads the moves and the path check of a kernel document, rejecting it with
/// the first rule it breaks: the type must be `explicit`, `path_check` must be
/// `endpoint_occupied` or `swept_occupied` when present, `moves` must be an
/// array, and every move needs three integer offset values that fit in
/// `isize` and a numeric cost.
pub fn kernel_moves_from_document(doc: &KernelDocument) -> (r: Result<(Vec<KernelMove>, KernelPathCheck), KernelLoadError>)
    ensures
        r matches Err(e) ==> document_error(*doc) == Some(e),
        document_error(*doc) is Some ==> r is Err,
        r matches Ok((moves, check)) ==> {
            &&& document_error(*doc) is None
            &&& document_path_check(doc.path_check) == Some(check)
            &&& moves@ == doc.moves->0@.map_values(|m: KernelMoveDocument| document_move(m))
        },
{
    let explicit = match &doc.kind {
        Some(kind) => str_eq(kind.as_str(), "explicit"),
        None => false,
    };
    if !explicit {
        return Err(KernelLoadError::NotExplicit);
    }
    let path_check = match &doc.path_check {
        None => KernelPathCheck::SweptOccupied,
        Some(value) => {
            if str_eq(value.as_str(), "endpoint_occupied") {
                KernelPathCheck::EndpointOccupied
            } else if str_eq(value.as_str(), "swept_occupied") {
                KernelPathCheck::SweptOccupied
            } else {
                return Err(KernelLoadError::InvalidPathCheck(value.clone()));
            }
        },
    };
    let documents = match &doc.moves {
        None => return Err(KernelLoadError::MissingMoves),
        Some(ms) => ms,
    };
    let mut moves: Vec<KernelMove> = Vec::new();
    let mut k: usize = 0;
    while k < documents.len()
        invariant
            doc.moves == Some(*documents),
            document_error(*doc) == first_move_error(documents@, 0),
            k <= documents@.len(),
            first_move_error(documents@, 0) == first_move_error(documents@, k as int),
            moves@ == documents@.subrange(0, k as int).map_values(|m: KernelMoveDocument| document_move(m)),
        decreases documents@.len() - k,
    {
        let km = match parse_move_document(&documents[k], k) {
            Ok(km) => km,
            Err(e) => return Err(e),
        };
        moves.push(km);
        proof {
            assert(documents@.subrange(0, k + 1).map_values(|m: KernelMoveDocument| document_move(m))
                =~= documents@.subrange(0, k as int).map_values(|m: KernelMoveDocument| document_move(m)).push(km));
        }
        k += 1;
    }
    assert(documents@.subrange(0, documents@.len() as int) =~= documents@);
    Ok((moves, path_check))
}

#[verifier::external_type_specification]
#[verifier::external_body]
pub struct ExJsonError(serde_json::Error);

/// The kernel document that `serde_json` reads from `text`: the JSON value
/// it parses, with the fields that the format rules read taken out of it;
/// absent when `text` is not JSON.
pub uninterp spec fn json_kernel_document(text: Seq<char>) -> Option<KernelDocument>;

/// `serde_json::from_str` into a `serde_json::Value`, with the document's
/// fields taken out by `Value::get`, `as_str`, `as_array`, `as_i64` and
/// `as_f64` (the cost as its bit pattern); the result is named
/// `json_kernel_document`. The parser's error is handed on as it is.
#[verifier::external_body]
fn parse_kernel_document(text: &str) -> (r: Result<KernelDocument, serde_json::Error>)
    ensures
        r is Err <==> json_kernel_document(text@) is None,
        r matches Ok(doc) ==> json_kernel_document(text@) == Some(doc),
{
    let json: Value = serde_json::from_str(text)?;
    let text_of = |value: &Value, key: &str| value.get(key).and_then(Value::as_str).map(str::to_string);
    let moves = json.get("moves").and_then(Value::as_array).map(|moves| moves.iter().map(|entry| KernelMoveDocument {
        offset: entry.get("offset").and_then(Value::as_array).map(|o| o.iter().map(Value::as_i64).collect()),
        cost_bits: entry.get("cost").and_then(Value::as_f64).map(|cost| cost.to_bits()),
    }).collect());
    Ok(KernelDocument { kind: text_of(&json, "type"), path_check: text_of(&json, "path_check"), moves })
}

/// `serde_json::Error`'s `Display` text; nothing is stated of it.
#[verifier::external_body]
fn json_error_text(error: &serde_json::Error) -> String {
    error.to_string()
}

/// Why a kernel file is rejected: its text is not JSON, or its document
/// breaks a rule of the format.
#[derive(Debug)]
pub enum KernelFileError {
    Parse(serde_json::Error),
    Invalid(KernelLoadError),
}

impl KernelFileError {
    /// The human-readable description of the error: the parser's own text,
    /// or the broken rule's.
    pub fn message(&self) -> (r: String)
        ensures
            *self matches KernelFileError::Invalid(e) ==> r@ == load_error_text(e),
    {
        match self {
            KernelFileError::Parse(error) => json_error_text(error),
            KernelFileError::Invalid(error) => error.message(),
        }
    }
}

/// Reads the moves and the path check of a kernel file's text: a parse error
/// when the text is not JSON, and otherwise what `kernel_moves_from_document`
/// gives for the document in it.
pub fn kernel_moves_from_text(text: &str) -> (r: Result<(Vec<KernelMove>, KernelPathCheck), KernelFileError>)
    ensures
        json_kernel_document(text@) is None <==> r matches Err(KernelFileError::Parse(_)),
        json_kernel_document(text@) matches Some(doc) ==> {
            &&& r matches Err(KernelFileError::Invalid(e)) ==> document_error(doc) == Some(e)
            &&& document_error(doc) is Some ==> r is Err
            &&& r matches Ok((moves, check)) ==> {
                &&& document_error(doc) is None
                &&& document_path_check(doc.path_check) == Some(check)
                &&& moves@ == doc.moves->0@.map_values(|m: KernelMoveDocument| document_move(m))
            }
        },
{
    let doc = match parse_kernel_document(text) {
        Ok(doc) => doc,
        Err(error) => return Err(KernelFileError::Parse(error)),
    };
    match kernel_moves_from_document(&doc) {
        Ok(found) => Ok(found),
        Err(error) => Err(KernelFileError::Invalid(error)),
    }
}

} // verus!
