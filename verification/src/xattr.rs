//! The size protocol of extended attributes.
use crate::errno::{errno, number, Errno};
use vstd::prelude::*;
use vstd::slice::slice_to_vec;

verus! {

/// How to answer a request for a payload against the size that the caller has
/// room for.
#[derive(Clone, Copy, Debug, PartialEq, Eq, Structural)]
pub enum XattrReply {
    /// The caller asks how large the payload is.
    Size,
    /// The payload fits: send it.
    Data,
    /// The payload does not fit.
    Range,
}

/// How to answer a request for `len` bytes by a caller with room for `size`.
pub open spec fn xattr_kind(size: u32, len: nat) -> XattrReply {
    if size == 0 {
        XattrReply::Size
    } else if len <= size {
        XattrReply::Data
    } else {
        XattrReply::Range
    }
}

/// How to answer a request for `len` bytes by a caller with room for `size`.
pub fn xattr_outcome(size: u32, len: usize) -> (outcome: XattrReply)
    ensures
        outcome == xattr_kind(size, len as nat),
        outcome == XattrReply::Size <==> size == 0,
        outcome == XattrReply::Data <==> size != 0 && len <= size,
        outcome == XattrReply::Range <==> size != 0 && len > size,
{
    if size == 0 {
        XattrReply::Size
    } else if len > size as usize {
        XattrReply::Range
    } else {
        XattrReply::Data
    }
}

/// The answer to a request for an extended attribute.
#[derive(Debug, PartialEq)]
pub enum XattrAnswer {
    /// How large the payload is.
    Size(u32),
    /// The payload.
    Data(Vec<u8>),
    /// An error number.
    Error(i32),
}

/// What an `XattrAnswer` says.
pub enum XattrAnswerView {
    Size(u32),
    Data(Seq<u8>),
    Error(i32),
}

impl View for XattrAnswer {
    type V = XattrAnswerView;

    open spec fn view(&self) -> XattrAnswerView {
        match self {
            XattrAnswer::Size(size) => XattrAnswerView::Size(*size),
            XattrAnswer::Data(data) => XattrAnswerView::Data(data@),
            XattrAnswer::Error(n) => XattrAnswerView::Error(*n),
        }
    }
}

/// The answer with the payload `data` to a caller with room for `size`. A size
/// that no 32 bits can hold is told as the largest that they can.
pub open spec fn xattr_answer(size: u32, data: Seq<u8>) -> XattrAnswerView {
    match xattr_kind(size, data.len()) {
        XattrReply::Size => XattrAnswerView::Size(
            if data.len() <= u32::MAX {
                data.len() as u32
            } else {
                u32::MAX
            },
        ),
        XattrReply::Data => XattrAnswerView::Data(data),
        XattrReply::Range => XattrAnswerView::Error(number(Errno::OutOfRange)),
    }
}

/// The answer with the payload `data` to a caller with room for `size`.
pub fn reply_xattr(size: u32, data: &[u8]) -> (answer: XattrAnswer)
    ensures
        answer@ == xattr_answer(size, data@),
        answer matches XattrAnswer::Error(n) ==> n != 0,
        match answer {
            XattrAnswer::Size(told) => size == 0 && (told == data@.len() || told == u32::MAX
                < data@.len()),
            XattrAnswer::Data(sent) => size != 0 && data@.len() <= size && sent@ == data@,
            XattrAnswer::Error(n) => size != 0 && data@.len() > size && n == number(
                Errno::OutOfRange,
            ),
        },
{
    match xattr_outcome(size, data.len()) {
        XattrReply::Size => {
            let len: usize = data.len();
            XattrAnswer::Size(
                if len <= u32::MAX as usize {
                    len as u32
                } else {
                    u32::MAX
                },
            )
        },
        XattrReply::Data => XattrAnswer::Data(slice_to_vec(data)),
        XattrReply::Range => XattrAnswer::Error(errno(Errno::OutOfRange)),
    }
}

/// A caller who asks for the size first and then has room for just that much
/// gets the payload, unless it is empty or too large for its size to be told.
pub proof fn law_told_size_suffices(data: Seq<u8>)
    requires
        0 < data.len() <= u32::MAX,
    ensures
        xattr_answer(0, data) matches XattrAnswerView::Size(size) && xattr_answer(size, data)
            == XattrAnswerView::Data(data),
{
}

/// Whoever gets a payload gets all of it, and it fits.
pub proof fn law_payload_is_whole(size: u32, data: Seq<u8>)
    ensures
        xattr_answer(size, data) matches XattrAnswerView::Data(sent) ==> sent == data && data.len()
            <= size,
        size > 0 && data.len() <= size ==> xattr_answer(size, data) == XattrAnswerView::Data(data),
{
}

/// Who has no room is told the size of the payload, who has enough gets it, and
/// all others an error.
pub proof fn law_size_protocol(size: u32, data: Seq<u8>)
    ensures
        size == 0 && data.len() <= u32::MAX ==> xattr_answer(size, data) == XattrAnswerView::Size(
            data.len() as u32,
        ),
        size == 0 && data.len() > u32::MAX ==> xattr_answer(size, data) == XattrAnswerView::Size(
            u32::MAX,
        ),
        0 < data.len() <= size ==> xattr_answer(size, data) == XattrAnswerView::Data(data),
        0 == data.len() < size ==> xattr_answer(size, data) == XattrAnswerView::Data(data),
        0 < size < data.len() ==> xattr_answer(size, data) == XattrAnswerView::Error(
            number(Errno::OutOfRange),
        ),
{
}

} // verus!
