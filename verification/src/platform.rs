//! What the library expects of the platform that it runs on.
use vstd::prelude::*;

verus! {

/// Possible errors from reading standard input.
#[non_exhaustive]
#[derive(Clone, Copy, Debug, PartialEq, Eq, Structural)]
pub enum StdioReadError {
    /// The stream is closed.
    Closed,
}

/// Possible errors from writing to an output stream.
#[non_exhaustive]
#[derive(Clone, Copy, Debug, PartialEq, Eq, Structural)]
pub enum StdioWriteError {
    /// The stream is closed.
    Closed,
}

/// The standard output streams.
#[derive(Clone, Copy, Debug, PartialEq, Eq, Structural)]
pub enum StdioOutStream {
    Stdout,
    Stderr,
}

/// A provider of standard input, output and error streams.
pub trait StdioProvider {
    /// The outcomes that reading into a buffer with the contents `before` may have: any, unless
    /// the provider says more.
    open spec fn stdin_outcome(
        &self,
        before: Seq<u8>,
        after: Seq<u8>,
        r: Result<usize, StdioReadError>,
    ) -> bool {
        true
    }

    /// The outcomes that writing `data` to `stream` may have: any, unless the provider says more.
    open spec fn write_outcome(
        &self,
        stream: StdioOutStream,
        data: Seq<u8>,
        r: Result<usize, StdioWriteError>,
    ) -> bool {
        true
    }

    /// Read from standard input. Returns the number of bytes read.
    fn read_from_stdin(&self, buf: &mut [u8]) -> (r: Result<usize, StdioReadError>)
        ensures
            self.stdin_outcome(old(buf)@, final(buf)@, r),
            final(buf)@.len() == old(buf)@.len(),
    ;

    /// Write to stdout or stderr. Returns the number of bytes written.
    fn write_to(&self, stream: StdioOutStream, buf: &[u8]) -> (r: Result<usize, StdioWriteError>)
        ensures
            self.write_outcome(stream, buf@, r),
    ;
}

/// A provider of cryptographically secure random bytes.
pub trait CrngProvider {
    /// The outcomes that filling a buffer with the contents `before` may have: any, unless the
    /// provider says more.
    open spec fn crng_outcome(&self, before: Seq<u8>, after: Seq<u8>) -> bool {
        true
    }

    /// Fill a buffer with random bytes.
    fn fill_bytes_crng(&self, buf: &mut [u8])
        ensures
            self.crng_outcome(old(buf)@, final(buf)@),
            final(buf)@.len() == old(buf)@.len(),
    ;
}

/// A pointer to the memory of a program, as the platform has it, to be read through.
pub trait RawConstPointer<T>: Sized {
    /// Whether the pointer stands for an address: for any, unless the platform says more.
    open spec fn stands_for(&self, addr: usize) -> bool {
        true
    }

    /// The outcomes that reading the value `count` values away may have: any, unless the platform
    /// says more.
    open spec fn read_outcome(&self, count: isize, r: Option<T>) -> bool {
        true
    }

    /// The outcomes that reading `len` values may have: any, unless the platform says more.
    open spec fn slice_outcome(&self, len: usize, r: Option<Vec<T>>) -> bool {
        true
    }

    /// A pointer to an address.
    fn from_usize(addr: usize) -> (r: Self)
        ensures
            r.stands_for(addr),
    ;

    /// The address that the pointer stands for.
    fn as_usize(&self) -> (r: usize)
        ensures
            self.stands_for(r),
    ;

    /// Read the value `count` values away. There is none where reading it faults.
    fn read_at_offset(self, count: isize) -> (r: Option<T>)
        ensures
            self.read_outcome(count, r),
    ;

    /// Read `len` values. There are none where reading them faults.
    fn to_owned_slice(self, len: usize) -> (r: Option<Vec<T>>)
        ensures
            self.slice_outcome(len, r),
            r is Some ==> r->Some_0@.len() == len,
    ;

    /// The outcomes that reading a string may have: any, unless the platform says more.
    open spec fn string_outcome(&self, r: Option<Vec<u8>>) -> bool {
        true
    }

    /// Read the bytes of a string that ends before its first zero byte. There are none where
    /// reading them faults.
    fn to_cstring(self) -> (r: Option<Vec<u8>>)
        ensures
            self.string_outcome(r),
            r is Some ==> !r->Some_0@.contains(0),
    ;
}

/// A pointer to the memory of a program, as the platform has it, to be read and written through.
pub trait RawMutPointer<T>: RawConstPointer<T> {
    /// The outcomes that writing values from `count` values away on may have: any, unless the
    /// platform says more.
    open spec fn write_outcome(&self, count: isize, values: Seq<T>, r: Option<()>) -> bool {
        true
    }

    /// Write the value `count` values away. There is no result where writing it faults.
    fn write_at_offset(self, count: isize, value: T) -> (r: Option<()>)
        ensures
            self.write_outcome(count, seq![value], r),
    ;

    /// Write values from `count` values away on. There is no result where writing them faults.
    fn write_slice_at_offset(self, count: isize, values: &[T]) -> (r: Option<()>)
        ensures
            self.write_outcome(count, values@, r),
    ;

    /// The outcomes that copying values may have: any, unless the platform says more.
    open spec fn copy_outcome(&self, start_offset: usize, values: Seq<T>, r: Option<()>) -> bool {
        true
    }

    /// Copy values to where the pointer points, from `start_offset` values on. There is no result
    /// where writing them faults.
    fn copy_from_slice(self, start_offset: usize, buf: &[T]) -> (r: Option<()>)
        ensures
            self.copy_outcome(start_offset, buf@, r),
    ;
}

} // verus!
