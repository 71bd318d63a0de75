//! The error numbers that requests are answered with.
use vstd::prelude::*;

verus! {

/// An error that a request can be answered with.
#[derive(Clone, Copy, Debug, PartialEq, Eq, Structural)]
pub enum Errno {
    /// No such file or directory.
    NoEntry,
    /// Input/output error.
    Io,
    /// Permission denied.
    Access,
    /// Not a directory.
    NotDirectory,
    /// Invalid argument.
    Invalid,
    /// Result too large.
    OutOfRange,
    /// No data available.
    NoData,
    /// Network is unreachable.
    NetworkUnreachable,
    /// Connection timed out.
    TimedOut,
}

/// The number that the C library of the target gives to `e`.
pub uninterp spec fn number(e: Errno) -> i32;

/// The constants `ENOENT`, `EIO`, `EACCES`, `ENOTDIR`, `EINVAL`, `ERANGE`,
/// `ENODATA`, `ENETUNREACH` and `ETIMEDOUT` of `libc`. The target fixes their
/// values; on every target none of them is zero and no two are equal.
#[verifier::external_body]
pub(crate) fn errno(e: Errno) -> (n: i32)
    ensures
        n == number(e),
        n != 0,
        forall|other: Errno| #[trigger] number(other) == n ==> other == e,
{
    match e {
        Errno::NoEntry => libc::ENOENT,
        Errno::Io => libc::EIO,
        Errno::Access => libc::EACCES,
        Errno::NotDirectory => libc::ENOTDIR,
        Errno::Invalid => libc::EINVAL,
        Errno::OutOfRange => libc::ERANGE,
        Errno::NoData => libc::ENODATA,
        Errno::NetworkUnreachable => libc::ENETUNREACH,
        Errno::TimedOut => libc::ETIMEDOUT,
    }
}

} // verus!
