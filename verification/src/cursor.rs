//! The byte cursor: a buffer and a single read position, advanced by
//! whichever decoder currently holds it. Each read is proved to
//! return exactly what the corresponding specification read says.
use crate::error::ParseError;
use crate::model::spec_read_byte;
use crate::model::spec_read_bytes;
use crate::model::spec_read_i32;
use crate::model::spec_read_i64;
use crate::model::spec_read_string;
use crate::model::spec_read_u32;
use crate::model::spec_read_u64;
use crate::model::i32_from_u32;
use crate::model::i64_from_u64;
use crate::model::u32_from_le;
use crate::model::u64_from_le;
use crate::text::string_from_utf8;
use vstd::prelude::*;

verus! {

/// A sequential reader over an in-memory byte buffer.
pub struct Cursor {
    pub data: Vec<u8>,
    pub pos: usize,
}

impl Cursor {
    pub open spec fn wf(self) -> bool {
        self.pos <= self.data.len()
    }

    pub fn new(data: Vec<u8>) -> (c: Cursor)
        ensures
            c.wf(),
            c.data == data,
            c.pos == 0,
    {
        Cursor { data, pos: 0 }
    }

    /// The next byte, if any, without consuming it; `None` means the
    /// cursor is exhausted.
    pub fn peek_next_byte(&self) -> (r: Option<u8>)
        requires
            self.wf(),
        ensures
            match r {
                Some(b) => self.pos < self.data.len() && b == self.data@[self.pos as int],
                None => self.pos == self.data.len(),
            },
    {
        if self.pos < self.data.len() {
            Some(self.data[self.pos])
        } else {
            None
        }
    }

    pub fn read_byte(&mut self) -> (r: Result<u8, ParseError>)
        requires
            old(self).wf(),
        ensures
            final(self).wf(),
            final(self).data == old(self).data,
            match r {
                Ok(b) => spec_read_byte(old(self).data@, old(self).pos as int) == Ok::<
                    _,
                    crate::model::ErrVal,
                >((b, final(self).pos as int)),
                Err(e) => spec_read_byte(old(self).data@, old(self).pos as int) == Err::<
                    (u8, int),
                    _,
                >(e@) && final(self).pos == old(self).pos,
            },
    {
        if self.pos < self.data.len() {
            let b = self.data[self.pos];
            self.pos = self.pos + 1;
            Ok(b)
        } else {
            Err(ParseError::CursorExhausted)
        }
    }

    pub fn read_u32_le(&mut self) -> (r: Result<u32, ParseError>)
        requires
            old(self).wf(),
        ensures
            final(self).wf(),
            final(self).data == old(self).data,
            match r {
                Ok(v) => spec_read_u32(old(self).data@, old(self).pos as int) == Ok::<
                    _,
                    crate::model::ErrVal,
                >((v, final(self).pos as int)),
                Err(e) => spec_read_u32(old(self).data@, old(self).pos as int) == Err::<
                    (u32, int),
                    _,
                >(e@) && final(self).pos == old(self).pos,
            },
    {
        if self.data.len() - self.pos >= 4 {
            let b0 = self.data[self.pos];
            let b1 = self.data[self.pos + 1];
            let b2 = self.data[self.pos + 2];
            let b3 = self.data[self.pos + 3];
            self.pos = self.pos + 4;
            Ok(
                (b0 as u32) | ((b1 as u32) << 8u32) | ((b2 as u32) << 16u32) | ((b3
                    as u32) << 24u32),
            )
        } else {
            Err(ParseError::CursorExhausted)
        }
    }

    pub fn read_i32_le(&mut self) -> (r: Result<i32, ParseError>)
        requires
            old(self).wf(),
        ensures
            final(self).wf(),
            final(self).data == old(self).data,
            match r {
                Ok(v) => spec_read_i32(old(self).data@, old(self).pos as int) == Ok::<
                    _,
                    crate::model::ErrVal,
                >((v, final(self).pos as int)),
                Err(e) => spec_read_i32(old(self).data@, old(self).pos as int) == Err::<
                    (i32, int),
                    _,
                >(e@) && final(self).pos == old(self).pos,
            },
    {
        match self.read_u32_le() {
            Err(e) => Err(e),
            Ok(u) => {
                let v: i32 = if u < 0x8000_0000 {
                    u as i32
                } else {
                    -((0xffff_ffffu32 - u) as i32) - 1
                };
                proof {
                    assert(v == i32_from_u32(u));
                }
                Ok(v)
            },
        }
    }

    pub fn read_u64_le(&mut self) -> (r: Result<u64, ParseError>)
        requires
            old(self).wf(),
        ensures
            final(self).wf(),
            final(self).data == old(self).data,
            match r {
                Ok(v) => spec_read_u64(old(self).data@, old(self).pos as int) == Ok::<
                    _,
                    crate::model::ErrVal,
                >((v, final(self).pos as int)),
                Err(e) => spec_read_u64(old(self).data@, old(self).pos as int) == Err::<
                    (u64, int),
                    _,
                >(e@) && final(self).pos == old(self).pos,
            },
    {
        if self.data.len() - self.pos >= 8 {
            let ghost span = self.data@.subrange(self.pos as int, self.pos as int + 8);
            let b0 = self.data[self.pos];
            let b1 = self.data[self.pos + 1];
            let b2 = self.data[self.pos + 2];
            let b3 = self.data[self.pos + 3];
            let b4 = self.data[self.pos + 4];
            let b5 = self.data[self.pos + 5];
            let b6 = self.data[self.pos + 6];
            let b7 = self.data[self.pos + 7];
            self.pos = self.pos + 8;
            let v = (b0 as u64) | ((b1 as u64) << 8u64) | ((b2 as u64) << 16u64) | ((b3
                as u64) << 24u64) | ((b4 as u64) << 32u64) | ((b5 as u64) << 40u64) | ((b6
                as u64) << 48u64) | ((b7 as u64) << 56u64);
            proof {
                assert(v == u64_from_le(span));
            }
            Ok(v)
        } else {
            Err(ParseError::CursorExhausted)
        }
    }

    pub fn read_i64_le(&mut self) -> (r: Result<i64, ParseError>)
        requires
            old(self).wf(),
        ensures
            final(self).wf(),
            final(self).data == old(self).data,
            match r {
                Ok(v) => spec_read_i64(old(self).data@, old(self).pos as int) == Ok::<
                    _,
                    crate::model::ErrVal,
                >((v, final(self).pos as int)),
                Err(e) => spec_read_i64(old(self).data@, old(self).pos as int) == Err::<
                    (i64, int),
                    _,
                >(e@) && final(self).pos == old(self).pos,
            },
    {
        match self.read_u64_le() {
            Err(e) => Err(e),
            Ok(u) => {
                let v: i64 = if u < 0x8000_0000_0000_0000 {
                    u as i64
                } else {
                    -((0xffff_ffff_ffff_ffffu64 - u) as i64) - 1
                };
                proof {
                    assert(v == i64_from_u64(u));
                }
                Ok(v)
            },
        }
    }

    pub fn read_bytes(&mut self, n: usize) -> (r: Result<Vec<u8>, ParseError>)
        requires
            old(self).wf(),
        ensures
            final(self).wf(),
            final(self).data == old(self).data,
            match r {
                Ok(v) => spec_read_bytes(old(self).data@, old(self).pos as int, n as int) == Ok::<
                    _,
                    crate::model::ErrVal,
                >((v@, final(self).pos as int)),
                Err(e) => spec_read_bytes(old(self).data@, old(self).pos as int, n as int)
                    == Err::<(Seq<u8>, int), _>(e@) && final(self).pos == old(self).pos,
            },
    {
        if self.data.len() - self.pos >= n {
            let mut v: Vec<u8> = Vec::new();
            let mut i: usize = 0;
            while i < n
                invariant
                    self.wf(),
                    self.pos + n <= self.data.len(),
                    i <= n,
                    v@ == self.data@.subrange(self.pos as int, self.pos as int + i as int),
                decreases n - i,
            {
                v.push(self.data[self.pos + i]);
                i = i + 1;
                proof {
                    assert(v@ =~= self.data@.subrange(
                        self.pos as int,
                        self.pos as int + i as int,
                    ));
                }
            }
            self.pos = self.pos + n;
            Ok(v)
        } else {
            Err(ParseError::CursorExhausted)
        }
    }

    /// Consume `n` bytes without looking at them.
    pub fn skip(&mut self, n: usize) -> (r: Result<(), ParseError>)
        requires
            old(self).wf(),
        ensures
            final(self).wf(),
            final(self).data == old(self).data,
            match r {
                Ok(_) => spec_read_bytes(old(self).data@, old(self).pos as int, n as int)
                    matches Ok(p) && p.1 == final(self).pos as int,
                Err(e) => spec_read_bytes(old(self).data@, old(self).pos as int, n as int)
                    == Err::<(Seq<u8>, int), _>(e@) && final(self).pos == old(self).pos,
            },
    {
        if self.data.len() - self.pos >= n {
            self.pos = self.pos + n;
            Ok(())
        } else {
            Err(ParseError::CursorExhausted)
        }
    }

    /// A length-prefixed string: a 4-byte signed length, that many
    /// bytes, of which the last is a terminator that is discarded.
    pub fn read_string(&mut self) -> (r: Result<String, ParseError>)
        requires
            old(self).wf(),
        ensures
            final(self).wf(),
            final(self).data == old(self).data,
            match r {
                Ok(s) => spec_read_string(old(self).data@, old(self).pos as int) == Ok::<
                    _,
                    crate::model::ErrVal,
                >((s@, final(self).pos as int)) && old(self).pos < final(self).pos,
                Err(e) => spec_read_string(old(self).data@, old(self).pos as int) == Err::<
                    (Seq<char>, int),
                    _,
                >(e@),
            },
    {
        let ghost data0 = self.data@;
        let ghost pos0 = self.pos as int;
        let len = match self.read_i32_le() {
            Ok(l) => l,
            Err(e) => {
                return Err(e);
            },
        };
        if len < 1 {
            return Err(ParseError::InvalidString);
        }
        let body_len = (len - 1) as usize;
        if self.data.len() - self.pos < len as usize {
            return Err(ParseError::CursorExhausted);
        }
        let body = match self.read_bytes(body_len) {
            Ok(b) => b,
            Err(e) => {
                return Err(e);
            },
        };
        match self.skip(1) {
            Ok(_) => (),
            Err(e) => {
                return Err(e);
            },
        };
        match string_from_utf8(body) {
            Some(s) => Ok(s),
            None => Err(ParseError::InvalidString),
        }
    }
}

} // verus!
