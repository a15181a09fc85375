//! The envelope of a stream message: a header object and a body, both DAG-CBOR.

use ipld_core::ipld::Ipld;
use serde_ipld_dagcbor::DecodeError;
use std::io::Cursor;
use vstd::prelude::*;
use vstd::slice::slice_subrange;
use vstd::slice::slice_to_vec;

verus! {

/// The key of the header under which the kind of frame stands.
pub const HEADER_KIND: &'static str = "op";

/// The key of the header under which the type of a message stands.
pub const HEADER_TYPE: &'static str = "t";

/// The kind of a frame that carries a message.
pub const KIND_MESSAGE: i128 = 1;

/// The kind of a frame that reports an error.
pub const KIND_ERROR: i128 = -1;

/// The body of a message frame: the bytes after the header.
#[derive(Debug, Clone)]
pub struct MessageFrame {
    pub body: Vec<u8>,
}

/// What an error frame carries. Nothing of it is read.
#[derive(Debug, Clone, Copy, PartialEq, Eq, Structural)]
pub struct ErrorFrame {}

/// One message of the stream, taken apart.
#[derive(Debug, Clone)]
pub enum Frame {
    /// A message, with the type its header states, if it states one, and its body.
    Message(Option<String>, MessageFrame),
    /// The upstream's word that the stream is at an end.
    Error(ErrorFrame),
}

/// Mathematical content of a [`Frame`].
pub enum FrameView {
    Message { tag: Option<Seq<char>>, body: Seq<u8> },
    Error,
}

impl View for Frame {
    type V = FrameView;

    open spec fn view(&self) -> FrameView {
        match self {
            Frame::Message(tag, message) => FrameView::Message {
                tag: match tag {
                    Some(t) => Some(t@),
                    None => None,
                },
                body: message.body@,
            },
            Frame::Error(_) => FrameView::Error,
        }
    }
}

/// Why bytes are no frame.
#[derive(Debug, Clone, Copy, PartialEq, Eq, Structural)]
pub enum FrameError {
    /// The bytes are not a header object of a known kind followed by a body.
    MalformedEnvelope,
}

/// The length of the DAG-CBOR object at the front of `bytes`, where
/// `serde_ipld_dagcbor::from_reader` reads one there and finds bytes left behind it.
pub uninterp spec fn leading_object_len(bytes: Seq<u8>) -> Option<nat>;

/// What stands under a key of a DAG-CBOR map, as far as a header is read.
#[derive(Debug, Clone)]
pub enum Field {
    /// An integer.
    Integer(i128),
    /// A text.
    Text(String),
    /// Anything else.
    Other,
}

/// Mathematical content of a [`Field`].
pub enum FieldView {
    Integer(i128),
    Text(Seq<char>),
    Other,
}

impl View for Field {
    type V = FieldView;

    open spec fn view(&self) -> FieldView {
        match self {
            Field::Integer(i) => FieldView::Integer(*i),
            Field::Text(t) => FieldView::Text(t@),
            Field::Other => FieldView::Other,
        }
    }
}

/// What `ipld_core` finds under `key` in the DAG-CBOR object `object`, as
/// `serde_ipld_dagcbor::from_slice` decodes it; `None` where the bytes are no such
/// object, or the object holds nothing under the key.
pub uninterp spec fn field_of(object: Seq<u8>, key: Seq<char>) -> Option<FieldView>;

/// The view of a field that was read.
pub open spec fn field_view(r: Option<Field>) -> Option<FieldView> {
    match r {
        Some(field) => Some(field@),
        None => None,
    }
}

/// Calls `serde_ipld_dagcbor::from_reader` on a cursor over the bytes, for one object of
/// any shape. Where it reads an object and then reports trailing data, the cursor stands
/// at the end of the object: that position is the result, named [`leading_object_len`].
/// It lies behind the first byte, since an object takes one byte at least, and before
/// the end of the bytes, since a byte was seen behind the object. Any other outcome,
/// also an object with nothing behind it, gives `None`.
#[verifier::external_body]
fn read_leading_object_len(bytes: &[u8]) -> (r: Option<usize>)
    ensures
        r matches Some(n) ==> leading_object_len(bytes@) == Some(n as nat) && 0 < n
            < bytes.len(),
        r is None ==> leading_object_len(bytes@) is None,
{
    let mut cursor = Cursor::new(bytes);
    match serde_ipld_dagcbor::from_reader::<Ipld, _>(&mut cursor) {
        Err(DecodeError::TrailingData) => Some(cursor.position() as usize),
        _ => None,
    }
}

/// Calls `serde_ipld_dagcbor::from_slice` for an object of any shape and `Ipld::get`
/// for what it holds under `key`, and copies an integer or a text out of it. Nothing is
/// claimed but that the result is a function of the bytes and the key, named
/// [`field_of`].
#[verifier::external_body]
fn read_field(object: &[u8], key: &str) -> (r: Option<Field>)
    ensures
        field_view(r) == field_of(object@, key@),
{
    let ipld = serde_ipld_dagcbor::from_slice::<Ipld>(object).ok()?;
    Some(match ipld.get(key).ok().flatten()? {
        Ipld::Integer(i) => Field::Integer(*i),
        Ipld::String(text) => Field::Text(text.clone()),
        _ => Field::Other,
    })
}

/// The type that a header states: the text under [`HEADER_TYPE`], if a text stands
/// there.
pub open spec fn header_type(header: Seq<u8>) -> Option<Seq<char>> {
    match field_of(header, HEADER_TYPE@) {
        Some(FieldView::Text(tag)) => Some(tag),
        _ => None,
    }
}

/// The frame that a header and the bytes behind it make: a message where the integer
/// under [`HEADER_KIND`] is 1, with the type the header states; an error frame where it
/// is -1; no frame for any other header.
pub open spec fn frame_from_parts(header: Seq<u8>, body: Seq<u8>) -> Result<
    FrameView,
    FrameError,
> {
    match field_of(header, HEADER_KIND@) {
        Some(FieldView::Integer(kind)) => if kind == KIND_MESSAGE {
            Ok(FrameView::Message { tag: header_type(header), body })
        } else if kind == KIND_ERROR {
            Ok(FrameView::Error)
        } else {
            Err(FrameError::MalformedEnvelope)
        },
        _ => Err(FrameError::MalformedEnvelope),
    }
}

/// The frame that `bytes` hold: the object at their front is the header, all that
/// follows it is the body. Bytes that do not start with an object, or that hold nothing
/// behind it, are no frame.
pub open spec fn frame_of(bytes: Seq<u8>) -> Result<FrameView, FrameError> {
    match leading_object_len(bytes) {
        Some(n) => frame_from_parts(bytes.take(n as int), bytes.skip(n as int)),
        None => Err(FrameError::MalformedEnvelope),
    }
}

/// The view of a decoded frame, or why there is none.
pub open spec fn frame_result_view(r: Result<Frame, FrameError>) -> Result<
    FrameView,
    FrameError,
> {
    match r {
        Ok(frame) => Ok(frame@),
        Err(error) => Err(error),
    }
}

/// Takes a header and the bytes behind it for a frame.
pub fn frame_from(header: &[u8], body: &[u8]) -> (r: Result<Frame, FrameError>)
    ensures
        frame_result_view(r) == frame_from_parts(header@, body@),
{
    match read_field(header, HEADER_KIND) {
        Some(Field::Integer(kind)) => {
            if kind == KIND_MESSAGE {
                let tag = match read_field(header, HEADER_TYPE) {
                    Some(Field::Text(tag)) => Some(tag),
                    _ => None,
                };
                Ok(Frame::Message(tag, MessageFrame { body: slice_to_vec(body) }))
            } else if kind == KIND_ERROR {
                Ok(Frame::Error(ErrorFrame {  }))
            } else {
                Err(FrameError::MalformedEnvelope)
            }
        },
        _ => Err(FrameError::MalformedEnvelope),
    }
}

/// Decodes one message of the stream into its frame. Fewer than two bytes are no
/// frame: a header and a body take one byte each at least.
pub fn decode_frame(bytes: &[u8]) -> (r: Result<Frame, FrameError>)
    ensures
        frame_result_view(r) == frame_of(bytes@),
        bytes@.len() < 2 ==> r is Err,
{
    match read_leading_object_len(bytes) {
        Some(n) => {
            let header = slice_subrange(bytes, 0, n);
            let body = slice_subrange(bytes, n, bytes.len());
            assert(header@ == bytes@.take(n as int));
            assert(body@ == bytes@.skip(n as int));
            frame_from(header, body)
        },
        None => Err(FrameError::MalformedEnvelope),
    }
}

} // verus!
