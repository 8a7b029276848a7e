//! Length-prefixed fields shared by the VIPC services.
use vstd::prelude::*;

use crate::bytes::{push_all, spec_u16_le_bytes, u16_to_le};
use crate::cursor::Cursor;
use crate::error::{err_view, invalid, spec_decimal, FrameError, FrameErrorView};

verus! {

/// A byte that counts `length`, unless `length` does not fit in one.
pub fn u8_len(length: usize, context: &'static str) -> (r: Result<u8, FrameError>)
    ensures
        length <= 255 ==> r == Ok::<u8, FrameError>(length as u8),
        length > 255 ==> err_view(r) == Some(invalid(context@)),
{
    if length <= 255 {
        Ok(length as u8)
    } else {
        Err(FrameError::validation(context))
    }
}

/// Reads `<u8 length><bytes>`.
pub fn read_small_slice<'a>(cursor: &mut Cursor<'a>) -> (r: Result<&'a [u8], FrameError>)
    ensures
        final(cursor).bytes() == old(cursor).bytes(),
        0 <= final(cursor).pos() <= final(cursor).bytes().len(),
        ({
            let d = old(cursor).bytes();
            let p = old(cursor).pos();
            if p + 1 > d.len() || p + 1 + d[p] > d.len() {
                r == Err::<&'a [u8], FrameError>(FrameError::UnexpectedEof)
            } else {
                &&& r matches Ok(v) && v@ == d.subrange(p + 1, p + 1 + d[p])
                &&& final(cursor).pos() == p + 1 + d[p]
            }
        }),
{
    let length = cursor.read_u8()?;
    cursor.read_slice(length as usize)
}

/// Appends `<u8 length><value>`. The length is checked rather than truncated:
/// a silently shortened prefix would desynchronize the client's parser instead
/// of failing here.
pub fn write_u8_slice(dst: &mut Vec<u8>, value: &[u8]) -> (r: Result<(), FrameError>)
    ensures
        value@.len() <= 255 ==> r is Ok && final(dst)@ == old(dst)@ + seq![value@.len() as u8]
            + value@,
        value@.len() > 255 ==> err_view(r) == Some(
            invalid(
                "a slice of "@ + spec_decimal(value@.len()) + " bytes overruns its u8 length prefix"@,
            ),
        ) && final(dst)@ == old(dst)@,
{
    if value.len() > 255 {
        return Err(
            FrameError::validation_with(
                "a slice of ",
                value.len() as u64,
                " bytes overruns its u8 length prefix",
            ),
        );
    }
    let ghost start = dst@;
    dst.push(value.len() as u8);
    push_all(dst, value);
    assert(dst@ =~= start + seq![value@.len() as u8] + value@);
    Ok(())
}

/// Reserves the two bytes of a `u16` length prefix and returns where they are.
/// The body follows; [`close_u16_len`] patches the prefix once it is written,
/// which makes the prefix and the bytes it describes impossible to disagree.
pub fn open_u16_len(dst: &mut Vec<u8>) -> (at: usize)
    ensures
        at == old(dst)@.len(),
        final(dst)@ == old(dst)@ + seq![0u8, 0u8],
{
    let at = dst.len();
    dst.push(0);
    dst.push(0);
    assert(dst@ =~= old(dst)@ + seq![0u8, 0u8]);
    at
}

/// The prefix reserved at `at` lies within `s` and what follows it fits a `u16`.
pub open spec fn spec_u16_block_fits(s: Seq<u8>, at: int) -> bool {
    s.len() >= at + 2 && s.len() - at - 2 <= 0xffff
}

/// `s` with the two bytes at `at` replaced by the length of what follows them.
pub open spec fn spec_patch_u16_len(s: Seq<u8>, at: int) -> Seq<u8> {
    s.subrange(0, at) + spec_u16_le_bytes((s.len() - at - 2) as u16) + s.subrange(at + 2, s.len() as int)
}

/// Patches the prefix reserved at `at` with the length of everything written
/// after it.
pub fn close_u16_len(dst: &mut Vec<u8>, at: usize) -> (r: Result<(), FrameError>)
    ensures
        spec_u16_block_fits(old(dst)@, at as int) ==> r is Ok && final(dst)@ == spec_patch_u16_len(old(dst)@, at as int),
        old(dst)@.len() < at + 2 ==> err_view(r) == Some(
            invalid("the block body consumed its own length prefix"@),
        ),
        old(dst)@.len() >= at + 2 && old(dst)@.len() - at - 2 > 0xffff ==> err_view(r) == Some(
            invalid(
                "a block of "@ + spec_decimal((old(dst)@.len() - at - 2) as nat)
                    + " bytes overruns its u16 length prefix"@,
            ),
        ),
        !spec_u16_block_fits(old(dst)@, at as int) ==> final(dst)@ == old(dst)@,
{
    if dst.len() < 2 || at > dst.len() - 2 {
        return Err(FrameError::validation("the block body consumed its own length prefix"));
    }
    let body_length = dst.len() - at - 2;
    if body_length > 0xffff {
        return Err(
            FrameError::validation_with(
                "a block of ",
                body_length as u64,
                " bytes overruns its u16 length prefix",
            ),
        );
    }
    let le = u16_to_le(body_length as u16);
    dst.set(at, le[0]);
    dst.set(at + 1, le[1]);
    assert(dst@ =~= old(dst)@.subrange(0, at as int) + spec_u16_le_bytes(body_length as u16)
        + old(dst)@.subrange(at + 2, old(dst)@.len() as int));
    Ok(())
}

/// Appends `<u16 length><body>`, or fails with a validation error when `body`
/// is too long for the prefix. On failure `dst` keeps the zeroed prefix and the
/// body that were appended before the length was checked.
pub fn with_u16_len(dst: &mut Vec<u8>, body: &[u8]) -> (r: Result<(), FrameError>)
    ensures
        body@.len() <= 0xffff ==> r is Ok && final(dst)@ == old(dst)@ + spec_u16_le_bytes(body@.len() as u16) + body@,
        body@.len() > 0xffff ==> err_view(r) == Some(
            invalid(
                "a block of "@ + spec_decimal(body@.len()) + " bytes overruns its u16 length prefix"@,
            ),
        ) && final(dst)@ == old(dst)@ + seq![0u8, 0u8] + body@,
{
    let at = open_u16_len(dst);
    push_all(dst, body);
    let r = close_u16_len(dst, at);
    proof {
        if body@.len() <= 0xffff {
            assert(dst@ =~= old(dst)@ + spec_u16_le_bytes(body@.len() as u16) + body@);
        } else {
            assert(dst@ =~= old(dst)@ + seq![0u8, 0u8] + body@);
        }
    }
    r
}

} // verus!
