//! The byte store that the codecs read: a buffer with a cursor.
//!
//! A read copies what is left of the buffer, at most as much as was asked
//! for, and moves the cursor by that count. A seek may put the cursor past
//! the end; reads there get nothing. A seek to a negative or overflowing
//! position fails and leaves the cursor where it was.
use vstd::prelude::*;
use crate::Error;
use crate::ErrorView;

verus! {

/// A byte buffer and a read position in it.
pub struct Store {
    pub data: Vec<u8>,
    pub pos: u64,
}

/// How many bytes a read of `want` bytes gets at `pos` in a buffer of `len` bytes.
pub open spec fn avail(len: int, pos: int, want: int) -> int {
    if pos >= len || want <= 0 {
        0
    } else if len - pos < want {
        len - pos
    } else {
        want
    }
}

/// The buffer `buf` after a read at `pos` of `data` into `buf[from..]`.
pub open spec fn read_over(buf: Seq<u8>, from: int, data: Seq<u8>, pos: int) -> Seq<u8> {
    Seq::new(
        buf.len(),
        |i: int|
            if from <= i < from + avail(data.len() as int, pos, buf.len() - from) {
                data[pos + i - from]
            } else {
                buf[i]
            },
    )
}

/// A buffer of `len` bytes `fill` after a read at `pos` of `data` into it.
pub open spec fn read_filled(data: Seq<u8>, pos: int, len: int, fill: u8) -> Seq<u8> {
    Seq::new(
        len as nat,
        |i: int|
            if pos + i < data.len() {
                data[pos + i]
            } else {
                fill
            },
    )
}

/// Where a seek by `offset` from `base` lands, if it is a position.
pub open spec fn seek_target(base: int, offset: int) -> Option<u64> {
    if 0 <= base + offset <= u64::MAX {
        Some((base + offset) as u64)
    } else {
        None
    }
}

/// Where the cursor stands after a skip of `n` bytes from `pos`: a skip
/// that would overflow leaves it where it was.
pub open spec fn skipped(pos: int, n: int) -> int {
    match seek_target(pos, n) {
        Some(p) => p as int,
        None => pos,
    }
}

/// The error of a seek to a negative or overflowing position, as std's
/// cursor reports it; `std::io::Error::new`.
#[verifier::external_body]
fn invalid_seek() -> std::io::Error {
    std::io::Error::new(
        std::io::ErrorKind::InvalidInput,
        "invalid seek to a negative or overflowing position",
    )
}

impl Store {
    /// A store over `data`, with the cursor at the start.
    pub fn new(data: Vec<u8>) -> (s: Store)
        ensures
            s.data == data,
            s.pos == 0,
    {
        Store { data, pos: 0 }
    }

    /// The cursor.
    pub fn position(&self) -> (p: u64)
        ensures
            p == self.pos,
    {
        self.pos
    }

    /// Reads into `buf[from..]`; returns how many bytes were read.
    pub fn read_at(&mut self, buf: &mut Vec<u8>, from: usize) -> (n: usize)
        requires
            from <= old(buf)@.len(),
        ensures
            n == avail(old(self).data@.len() as int, old(self).pos as int, old(buf)@.len() - from),
            final(buf)@ == read_over(old(buf)@, from as int, old(self).data@, old(self).pos as int),
            final(self).data == old(self).data,
            final(self).pos == old(self).pos + n,
    {
        let want: usize = buf.len() - from;
        let len: usize = self.data.len();
        if want == 0 || self.pos >= len as u64 {
            proof {
                assert(buf@ =~= read_over(buf@, from as int, self.data@, self.pos as int));
            }
            return 0;
        }
        let start: usize = self.pos as usize;
        let n: usize = if len - start < want {
            len - start
        } else {
            want
        };
        let mut i: usize = 0;
        while i < n
            invariant
                i <= n,
                from + n <= buf.len(),
                start + n <= self.data.len(),
                buf@.len() == old(buf)@.len(),
                self.data == old(self).data,
                self.pos == old(self).pos,
                forall|k: int|
                    0 <= k < buf@.len() ==> buf@[k] == (if from <= k < from + i {
                        self.data@[start + k - from]
                    } else {
                        old(buf)@[k]
                    }),
            decreases n - i,
        {
            buf[from + i] = self.data[start + i];
            i = i + 1;
        }
        self.pos = self.pos + n as u64;
        proof {
            assert(buf@ =~= read_over(old(buf)@, from as int, self.data@, old(self).pos as int));
        }
        n
    }

    /// Reads into `buf`; returns how many bytes were read.
    pub fn read(&mut self, buf: &mut Vec<u8>) -> (n: usize)
        ensures
            n == avail(old(self).data@.len() as int, old(self).pos as int, old(buf)@.len() as int),
            final(buf)@ == read_over(old(buf)@, 0, old(self).data@, old(self).pos as int),
            final(self).data == old(self).data,
            final(self).pos == old(self).pos + n,
    {
        self.read_at(buf, 0)
    }

    /// Reads into a new buffer of `len` bytes `fill`.
    pub fn read_filled(&mut self, len: usize, fill: u8) -> (buf: Vec<u8>)
        ensures
            buf@ == read_filled(old(self).data@, old(self).pos as int, len as int, fill),
            final(self).data == old(self).data,
            final(self).pos == old(self).pos + avail(
                old(self).data@.len() as int,
                old(self).pos as int,
                len as int,
            ),
    {
        let mut buf: Vec<u8> = vec![fill; len];
        let ghost before = buf@;
        self.read_at(&mut buf, 0);
        proof {
            assert(buf@ =~= read_filled(old(self).data@, old(self).pos as int, len as int, fill));
        }
        buf
    }

    /// Moves the cursor to `pos`.
    pub fn seek_start(&mut self, pos: u64) -> (p: u64)
        ensures
            p == pos,
            final(self).pos == pos,
            final(self).data == old(self).data,
    {
        self.pos = pos;
        pos
    }

    /// Moves the cursor by `offset`.
    pub fn seek_current(&mut self, offset: i64) -> (r: Result<u64, Error>)
        ensures
            final(self).data == old(self).data,
            match seek_target(old(self).pos as int, offset as int) {
                Some(p) => r == Ok::<u64, Error>(p) && final(self).pos == p,
                None => r is Err && r->Err_0@ is IOError && final(self).pos == old(self).pos,
            },
    {
        match self.pos.checked_add_signed(offset) {
            Some(p) => {
                self.pos = p;
                Ok(p)
            },
            None => Err(Error::IOError(invalid_seek())),
        }
    }

    /// Moves the cursor by `n`, or leaves it where it is if that is no
    /// position; says whether it moved.
    pub fn skip(&mut self, n: i64) -> (moved: bool)
        ensures
            final(self).data == old(self).data,
            final(self).pos == skipped(old(self).pos as int, n as int),
            moved == (seek_target(old(self).pos as int, n as int) is Some),
    {
        self.seek_current(n).is_ok()
    }

    /// Moves the cursor to `offset` from the end of the data.
    pub fn seek_end(&mut self, offset: i64) -> (r: Result<u64, Error>)
        ensures
            final(self).data == old(self).data,
            old(self).data.len() == old(self).data@.len(),
            match seek_target(old(self).data.len() as int, offset as int) {
                Some(p) => r == Ok::<u64, Error>(p) && final(self).pos == p,
                None => r is Err && r->Err_0@ is IOError && final(self).pos == old(self).pos,
            },
    {
        let len: u64 = self.data.len() as u64;
        match len.checked_add_signed(offset) {
            Some(p) => {
                self.pos = p;
                Ok(p)
            },
            None => Err(Error::IOError(invalid_seek())),
        }
    }

    /// Appends what is left of the data to `output` and moves the cursor to
    /// the end of it.
    pub fn copy_rest(&mut self, output: &mut Vec<u8>)
        ensures
            final(self).data == old(self).data,
            final(output)@ == old(output)@ + rest(old(self).data@, old(self).pos as int),
            final(self).pos == (if old(self).pos < old(self).data@.len() {
                old(self).data@.len() as u64
            } else {
                old(self).pos
            }),
    {
        let len: usize = self.data.len();
        if self.pos >= len as u64 {
            proof {
                assert(output@ =~= output@ + rest(self.data@, self.pos as int));
            }
            return ;
        }
        let mut i: usize = self.pos as usize;
        while i < len
            invariant
                old(self).pos <= i <= len,
                len == self.data@.len(),
                self.data == old(self).data,
                self.pos == old(self).pos,
                output@ == old(output)@ + self.data@.subrange(old(self).pos as int, i as int),
            decreases len - i,
        {
            output.push(self.data[i]);
            i = i + 1;
            proof {
                assert(self.data@.subrange(old(self).pos as int, i as int) =~= self.data@.subrange(
                    old(self).pos as int,
                    i - 1,
                ).push(self.data@[i - 1]));
            }
        }
        self.pos = len as u64;
    }
}

/// What a store holds from `pos` on.
pub open spec fn rest(data: Seq<u8>, pos: int) -> Seq<u8> {
    if 0 <= pos < data.len() {
        data.subrange(pos, data.len() as int)
    } else {
        Seq::empty()
    }
}

} // verus!
