//! The quote and collateral structures, and the reader they are parsed with.

pub mod collateral;
pub mod qe_identity;
pub mod quote;
pub mod report;
pub mod tcb_info;

use vstd::prelude::*;
use vstd::slice::slice_subrange;
use vstd::string::StringExecFns;

use crate::error::{self, ErrorCategory, Rejection, VerifyError};
use crate::text::{self, decimal_u64};

verus! {

/// The unsigned number that `bytes` hold, least significant byte first.
pub open spec fn little_endian(bytes: Seq<u8>) -> nat
    decreases bytes.len(),
{
    if bytes.len() == 0 {
        0
    } else {
        bytes[0] as nat + 256 * little_endian(bytes.drop_first())
    }
}

/// The rejection of a field that does not fit in what is left of the input.
pub open spec fn short_field(what: Seq<char>, size: int, left: int) -> Rejection {
    error::rejection(
        ErrorCategory::QuoteParse,
        what + " needs "@ + text::decimal(size) + " bytes but only "@ + text::decimal(left)
            + " remain"@,
    )
}

/// A cursor over bytes not yet consumed.
pub struct ByteReader<'a> {
    rest: &'a [u8],
}

impl<'a> View for ByteReader<'a> {
    type V = Seq<u8>;

    closed spec fn view(&self) -> Seq<u8> {
        self.rest@
    }
}

proof fn lemma_little_endian_pair(bytes: Seq<u8>)
    requires
        bytes.len() == 2,
    ensures
        little_endian(bytes) == bytes[0] + 256 * bytes[1],
{
    reveal_with_fuel(little_endian, 3);
}

proof fn lemma_little_endian_quad(bytes: Seq<u8>)
    requires
        bytes.len() == 4,
    ensures
        little_endian(bytes) == bytes[0] + 256 * bytes[1] + 65536 * bytes[2] + 16777216 * bytes[3],
{
    reveal_with_fuel(little_endian, 5);
}

/// What is read after `at` bytes were consumed stands `at` bytes into the input.
pub broadcast proof fn lemma_read_after(input: Seq<u8>, at: int, n: int)
    requires
        0 <= at,
        0 <= n,
        at + n <= input.len(),
    ensures
        #[trigger] input.skip(at).subrange(0, n) == input.subrange(at, at + n),
{
    assert(input.skip(at).subrange(0, n) =~= input.subrange(at, at + n));
}

/// Consuming `n` bytes after `at` leaves what stands behind both.
pub broadcast proof fn lemma_rest_after(input: Seq<u8>, at: int, n: int)
    requires
        0 <= at,
        0 <= n,
        at + n <= input.len(),
    ensures
        #[trigger] input.skip(at).skip(n) == input.skip(at + n),
{
    assert(input.skip(at).skip(n) =~= input.skip(at + n));
}

impl<'a> ByteReader<'a> {
    pub fn new(data: &'a [u8]) -> (reader: Self)
        ensures
            reader@ == data@,
    {
        ByteReader { rest: data }
    }

    /// The bytes not consumed yet.
    pub fn rest(&self) -> (rest: &'a [u8])
        ensures
            rest@ == self@,
    {
        self.rest
    }

    /// Consumes `n` bytes, naming `what` they are when fewer remain.
    pub fn take(&mut self, n: usize, what: &str) -> (taken: Result<&'a [u8], VerifyError>)
        ensures
            taken is Ok <==> n <= old(self)@.len(),
            taken matches Ok(head) ==> {
                &&& head@ == old(self)@.subrange(0, n as int)
                &&& final(self)@ == old(self)@.skip(n as int)
            },
            taken matches Err(e) ==> {
                &&& e@ == short_field(what@, n as int, old(self)@.len() as int)
                &&& final(self)@ == old(self)@
            },
    {
        let left: usize = self.rest.len();
        if n > left {
            return Err(
                VerifyError::new(
                    ErrorCategory::QuoteParse,
                    what.to_owned().concat(" needs ").concat(
                        decimal_u64(n as u64).as_str(),
                    ).concat(" bytes but only ").concat(decimal_u64(left as u64).as_str()).concat(
                        " remain",
                    ),
                ),
            );
        }
        let head = slice_subrange(self.rest, 0, n);
        self.rest = slice_subrange(self.rest, n, left);
        Ok(head)
    }

    /// Consumes `N` bytes into an array.
    pub fn array<const N: usize>(&mut self, what: &str) -> (taken: Result<[u8; N], VerifyError>)
        ensures
            taken is Ok <==> N <= old(self)@.len(),
            taken matches Ok(head) ==> {
                &&& head@ == old(self)@.subrange(0, N as int)
                &&& final(self)@ == old(self)@.skip(N as int)
            },
            taken matches Err(e) ==> {
                &&& e@ == short_field(what@, N as int, old(self)@.len() as int)
                &&& final(self)@ == old(self)@
            },
    {
        match self.take(N, what) {
            Err(e) => Err(e),
            Ok(bytes) => {
                let mut out = [0u8;N];
                let mut i: usize = 0;
                while i < N
                    invariant
                        i <= N,
                        bytes@.len() == N,
                        out@.subrange(0, i as int) == bytes@.subrange(0, i as int),
                    decreases N - i,
                {
                    out[i] = bytes[i];
                    assert(bytes@.subrange(0, i + 1) == bytes@.subrange(0, i as int).push(
                        bytes@[i as int],
                    ));
                    assert(out@.subrange(0, i + 1) == out@.subrange(0, i as int).push(
                        out@[i as int],
                    ));
                    i += 1;
                }
                assert(out@ == out@.subrange(0, N as int));
                assert(bytes@ == bytes@.subrange(0, N as int));
                Ok(out)
            },
        }
    }

    /// Consumes a little-endian 16-bit number.
    pub fn u16_le(&mut self, what: &str) -> (taken: Result<u16, VerifyError>)
        ensures
            taken is Ok <==> 2 <= old(self)@.len(),
            taken matches Ok(value) ==> {
                &&& value == little_endian(old(self)@.subrange(0, 2))
                &&& final(self)@ == old(self)@.skip(2)
            },
            taken matches Err(e) ==> {
                &&& e@ == short_field(what@, 2, old(self)@.len() as int)
                &&& final(self)@ == old(self)@
            },
    {
        match self.array::<2>(what) {
            Err(e) => Err(e),
            Ok(b) => {
                proof {
                    lemma_little_endian_pair(b@);
                }
                Ok(b[0] as u16 + 256 * (b[1] as u16))
            },
        }
    }

    /// Consumes a little-endian 32-bit number.
    pub fn u32_le(&mut self, what: &str) -> (taken: Result<u32, VerifyError>)
        ensures
            taken is Ok <==> 4 <= old(self)@.len(),
            taken matches Ok(value) ==> {
                &&& value == little_endian(old(self)@.subrange(0, 4))
                &&& final(self)@ == old(self)@.skip(4)
            },
            taken matches Err(e) ==> {
                &&& e@ == short_field(what@, 4, old(self)@.len() as int)
                &&& final(self)@ == old(self)@
            },
    {
        match self.array::<4>(what) {
            Err(e) => Err(e),
            Ok(b) => {
                proof {
                    lemma_little_endian_quad(b@);
                }
                Ok(
                    b[0] as u32 + 256 * (b[1] as u32) + 65536 * (b[2] as u32) + 16777216 * (
                    b[3] as u32),
                )
            },
        }
    }
}

/// Numbers of two, four and eight bytes are read from the least significant byte on.
pub proof fn numbers_start_with_their_least_byte(bytes: Seq<u8>)
    ensures
        bytes.len() == 2 ==> little_endian(bytes) == bytes[0] + 0x100 * bytes[1],
        bytes.len() == 4 ==> little_endian(bytes) == bytes[0] + 0x100 * bytes[1] + 0x1_0000
            * bytes[2] + 0x100_0000 * bytes[3],
        bytes.len() == 8 ==> little_endian(bytes) == bytes[0] + 0x100 * bytes[1] + 0x1_0000
            * bytes[2] + 0x100_0000 * bytes[3] + 0x1_0000_0000 * bytes[4] + 0x100_0000_0000
            * bytes[5] + 0x1_0000_0000_0000 * bytes[6] + 0x100_0000_0000_0000 * bytes[7],
{
    reveal_with_fuel(little_endian, 9);
}

} // verus!
