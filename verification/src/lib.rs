//! Allocation-light text output planning for raw POSIX-style streams.
//!
//! The heart of the crate is the write loop of [`transfer`]: it drives a byte
//! buffer through repeated partial writes to a raw output handle, always
//! targeting the suffix of the buffer that has not yet been confirmed, until
//! the buffer is flushed or the operating system reports an error. The
//! convenience layer below plans the writes that `print`-style helpers make:
//! which handle gets which bytes, in which separate calls.

use vstd::prelude::*;

pub mod transfer;

verus! {

use vstd::string::StringSliceAdditionalSpecFns;

/// POSIX file descriptor number of the standard output stream.
pub const STDOUT_HANDLE: i32 = 1;

/// POSIX file descriptor number of the standard error stream.
pub const STDERR_HANDLE: i32 = 2;

/// One planned write: `bytes` is to be pushed whole to the stream behind
/// `handle` by a single run of the write loop. The helpers below only plan
/// writes; a driver that owns real streams performs each call in order, and
/// treats any failure as fatal to the operation it was printing for.
#[derive(Debug)]
pub struct WriteCall {
    pub handle: i32,
    pub bytes: Vec<u8>,
}

/// The one planned write of a `print`-style helper: the UTF-8 bytes of
/// `txt`, destined for `handle`.
fn print_to(handle: i32, txt: &str) -> (call: WriteCall)
    ensures
        call.handle == handle,
        call.bytes@ == txt.spec_bytes(),
{
    WriteCall { handle, bytes: vstd::slice::slice_to_vec(txt.as_bytes()) }
}

/// Plan of `print`: one write of the UTF-8 bytes of `txt` to standard
/// output — nothing more, in particular no trailing newline.
pub fn print(txt: &str) -> (plan: Vec<WriteCall>)
    ensures
        plan@.len() == 1,
        plan@[0].handle == STDOUT_HANDLE,
        plan@[0].bytes@ == txt.spec_bytes(),
{
    let mut plan: Vec<WriteCall> = Vec::new();
    plan.push(print_to(STDOUT_HANDLE, txt));
    plan
}

/// Plan of `println`: the UTF-8 bytes of `txt` to standard output, then a
/// single newline byte to standard output, as two separate writes that are
/// never coalesced — so another writer to the same stream may interleave
/// between them.
pub fn println(txt: &str) -> (plan: Vec<WriteCall>)
    ensures
        plan@.len() == 2,
        plan@[0].handle == STDOUT_HANDLE,
        plan@[0].bytes@ == txt.spec_bytes(),
        plan@[1].handle == STDOUT_HANDLE,
        plan@[1].bytes@ == seq![10u8],
{
    let mut plan = print(txt);
    let newline = print_to(STDOUT_HANDLE, "\n");
    proof {
        reveal_strlit("\n");
        assert(("\n")@ =~= seq!['\n']);
        lemma_newline_encoding(("\n")@);
    }
    plan.push(newline);
    plan
}

/// Plan of `eprint`: one write of the UTF-8 bytes of `txt` to standard
/// error — nothing more, in particular no trailing newline.
pub fn eprint(txt: &str) -> (plan: Vec<WriteCall>)
    ensures
        plan@.len() == 1,
        plan@[0].handle == STDERR_HANDLE,
        plan@[0].bytes@ == txt.spec_bytes(),
{
    let mut plan: Vec<WriteCall> = Vec::new();
    plan.push(print_to(STDERR_HANDLE, txt));
    plan
}

/// Plan of `eprintln`: the UTF-8 bytes of `txt` to standard error, then a
/// single newline byte — to standard output, not to standard error. That
/// mismatch of streams is this helper's actual behavior, kept deliberately
/// and pinned down here and in a dedicated regression test rather than
/// silently changed; callers who need the newline on standard error should
/// send it through `eprint` themselves.
pub fn eprintln(txt: &str) -> (plan: Vec<WriteCall>)
    ensures
        plan@.len() == 2,
        plan@[0].handle == STDERR_HANDLE,
        plan@[0].bytes@ == txt.spec_bytes(),
        plan@[1].handle == STDOUT_HANDLE,
        plan@[1].bytes@ == seq![10u8],
{
    let mut plan = eprint(txt);
    let newline = print_to(STDOUT_HANDLE, "\n");
    proof {
        reveal_strlit("\n");
        assert(("\n")@ =~= seq!['\n']);
        lemma_newline_encoding(("\n")@);
    }
    plan.push(newline);
    plan
}

/// The UTF-8 encoding of the one-character newline sequence is the single
/// byte 10.
proof fn lemma_newline_encoding(chars: Seq<char>)
    requires
        chars == seq!['\n'],
    ensures
        vstd::utf8::encode_utf8(chars) == seq![10u8],
{
    assert(chars[0] == '\n');
    assert(vstd::utf8::is_ascii_chars(chars));
    vstd::utf8::is_ascii_chars_encode_utf8(chars);
    assert(vstd::utf8::encode_utf8(chars) =~= seq![10u8]);
}

} // verus!
