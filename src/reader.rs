use vstd::prelude::*;
use crate::error::FontError;

verus! {

/// Seconds between the HFS epoch (1904-01-01) and the Unix epoch (1970-01-01).
pub const HFS_UNIX_EPOCH_DIFF: i64 = 2082844800;

/// The byte at `i`, or zero past either end of `s`.
pub open spec fn byte_or_zero(s: Seq<u8>, i: int) -> u8 {
    if 0 <= i < s.len() { s[i] } else { 0 }
}

/// Big-endian unsigned 16-bit value at `p`.
pub open spec fn u16_at(s: Seq<u8>, p: int) -> u16 {
    (byte_or_zero(s, p) as int * 256 + byte_or_zero(s, p + 1) as int) as u16
}

/// Big-endian unsigned 32-bit value at `p`.
pub open spec fn u32_at(s: Seq<u8>, p: int) -> u32 {
    (u16_at(s, p) as int * 65536 + u16_at(s, p + 2) as int) as u32
}

/// Big-endian unsigned 64-bit value at `p`.
pub open spec fn u64_at(s: Seq<u8>, p: int) -> u64 {
    (u32_at(s, p) as int * 0x1_0000_0000 + u32_at(s, p + 4) as int) as u64
}

/// Two's-complement reinterpretation of `u16_at`.
pub open spec fn i16_at(s: Seq<u8>, p: int) -> i16 {
    u16_at(s, p) as i16
}

/// Two's-complement reinterpretation of `u32_at`.
pub open spec fn i32_at(s: Seq<u8>, p: int) -> i32 {
    u32_at(s, p) as i32
}

/// Unix seconds for an HFS timestamp (signed 64-bit, wrapping at the extremes).
pub open spec fn hfs_to_unix(hfs: u64) -> i64 {
    (hfs as i64).wrapping_sub(HFS_UNIX_EPOCH_DIFF)
}

/// The UTC calendar date and time of day (year, month, day, hour, minute,
/// second) that chrono gives for a Unix timestamp, `None` outside its range.
pub uninterp spec fn civil_time_of(seconds: i64) -> Option<(i32, u32, u32, u32, u32, u32)>;

/// Relies on chrono's `DateTime::from_timestamp` (UTC, no nanoseconds) and its
/// `Datelike` / `Timelike` accessors: the calendar fields of a Unix timestamp,
/// or `None` when the seconds are out of chrono's range. The result depends on
/// the seconds alone.
#[verifier::external_body]
fn civil_time(seconds: i64) -> (r: Option<(i32, u32, u32, u32, u32, u32)>)
    ensures
        r == civil_time_of(seconds),
{
    match chrono::DateTime::from_timestamp(seconds, 0) {
        Some(d) => Some((
            chrono::Datelike::year(&d),
            chrono::Datelike::month(&d),
            chrono::Datelike::day(&d),
            chrono::Timelike::hour(&d),
            chrono::Timelike::minute(&d),
            chrono::Timelike::second(&d),
        )),
        None => None,
    }
}

/// A calendar date and time of day, in UTC.
#[derive(Clone, Copy, Debug, PartialEq, Eq, Structural)]
pub struct CalendarTime {
    pub year: i32,
    pub month: u32,
    pub day: u32,
    pub hour: u32,
    pub minute: u32,
    pub second: u32,
}

/// The calendar date and time of day of a Unix timestamp such as `get_date`
/// gives, `None` when it lies outside the dates that can be represented.
pub fn calendar_time(unix_seconds: i64) -> (r: Option<CalendarTime>)
    ensures
        match r {
            Some(c) => civil_time_of(unix_seconds) == Some((c.year, c.month, c.day, c.hour, c.minute, c.second)),
            None => civil_time_of(unix_seconds) is None,
        },
{
    match civil_time(unix_seconds) {
        Some((year, month, day, hour, minute, second)) => Some(CalendarTime { year, month, day, hour, minute, second }),
        None => None,
    }
}

/// The characters of `n` bytes at `p`, one per byte.
pub open spec fn chars_at(s: Seq<u8>, p: int, n: nat) -> Seq<char> {
    Seq::new(n, |i: int| s[p + i] as char)
}

/// The `n` unsigned 16-bit values at `p`.
pub open spec fn u16s_at(s: Seq<u8>, p: int, n: nat) -> Seq<u16> {
    Seq::new(n, |i: int| u16_at(s, p + 2 * i))
}

/// The `n` unsigned 32-bit values at `p`.
pub open spec fn u32s_at(s: Seq<u8>, p: int, n: nat) -> Seq<u32> {
    Seq::new(n, |i: int| u32_at(s, p + 4 * i))
}

/// The `n` bytes at `p`.
pub open spec fn u8s_at(s: Seq<u8>, p: int, n: nat) -> Seq<u8> {
    Seq::new(n, |i: int| s[p + i])
}

/// A signed 16.16 fixed-point number, kept as its raw bits: the value is `raw / 65536`.
#[derive(Clone, Copy, Debug, PartialEq, Eq, Structural)]
pub struct Fixed {
    pub raw: i32,
}

/// A signed 2.14 fixed-point number, kept as its raw bits: the value is `raw / 16384`.
#[derive(Clone, Copy, Debug, PartialEq, Eq, Structural)]
pub struct F2Dot14 {
    pub raw: i16,
}

/// A read cursor over a whole font file.
#[derive(Debug)]
pub struct FontReader {
    pub pos: usize,
    pub data: Vec<u8>,
}

/// Relies on String::push: the character is appended at the end.
#[verifier::external_body]
fn push_char(s: &mut String, c: char)
    ensures
        final(s)@ == old(s)@.push(c),
{
    s.push(c);
}

impl FontReader {
    /// Whether `n` more bytes can be read at the current position.
    pub open spec fn has(&self, n: int) -> bool {
        self.pos + n <= self.data@.len()
    }

    /// A cursor at position 0 over `data`.
    pub fn new(data: Vec<u8>) -> (r: FontReader)
        ensures
            r.pos == 0,
            r.data@ == data@,
    {
        FontReader { pos: 0, data }
    }

    /// Moves to `pos` and returns the previous position.
    pub fn seek(&mut self, pos: usize) -> (r: usize)
        requires
            pos <= old(self).data@.len(),
        ensures
            r == old(self).pos,
            final(self).pos == pos,
            final(self).data@ == old(self).data@,
    {
        let oldpos = self.pos;
        self.pos = pos;
        oldpos
    }

    /// Moves to `pos`, failing when `pos` lies past the end of the buffer.
    pub fn seek_checked(&mut self, pos: u64) -> (r: Result<usize, FontError>)
        ensures
            final(self).data@ == old(self).data@,
            match r {
                Ok(prev) => pos <= old(self).data@.len() && prev == old(self).pos
                    && final(self).pos == pos,
                Err(e) => pos > old(self).data@.len() && e == FontError::UnexpectedEndOfFile
                    && final(self).pos == old(self).pos,
            },
    {
        if pos > self.data.len() as u64 {
            return Err(FontError::UnexpectedEndOfFile);
        }
        Ok(self.seek(pos as usize))
    }

    pub fn get_uint8(&mut self) -> (r: Result<u8, FontError>)
        ensures
            final(self).data@ == old(self).data@,
            match r {
                Ok(v) => old(self).has(1) && v == old(self).data@[old(self).pos as int]
                    && final(self).pos == old(self).pos + 1,
                Err(e) => !old(self).has(1) && e == FontError::UnexpectedEndOfFile,
            },
    {
        if self.pos >= self.data.len() {
            return Err(FontError::UnexpectedEndOfFile);
        }
        let byte = self.data[self.pos];
        self.pos = self.pos + 1;
        Ok(byte)
    }

    pub fn get_uint16(&mut self) -> (r: Result<u16, FontError>)
        ensures
            final(self).data@ == old(self).data@,
            match r {
                Ok(v) => old(self).has(2) && v == u16_at(old(self).data@, old(self).pos as int)
                    && final(self).pos == old(self).pos + 2,
                Err(e) => !old(self).has(2) && e == FontError::UnexpectedEndOfFile,
            },
    {
        let byte1 = self.get_uint8()?;
        let byte2 = self.get_uint8()?;
        Ok((byte1 as u16) * 256 + byte2 as u16)
    }

    pub fn get_uint32(&mut self) -> (r: Result<u32, FontError>)
        ensures
            final(self).data@ == old(self).data@,
            match r {
                Ok(v) => old(self).has(4) && v == u32_at(old(self).data@, old(self).pos as int)
                    && final(self).pos == old(self).pos + 4,
                Err(e) => !old(self).has(4) && e == FontError::UnexpectedEndOfFile,
            },
    {
        let high = self.get_uint16()?;
        let low = self.get_uint16()?;
        Ok((high as u32) * 65536 + low as u32)
    }

    pub fn get_int16(&mut self) -> (r: Result<i16, FontError>)
        ensures
            final(self).data@ == old(self).data@,
            match r {
                Ok(v) => old(self).has(2) && v == i16_at(old(self).data@, old(self).pos as int)
                    && final(self).pos == old(self).pos + 2,
                Err(e) => !old(self).has(2) && e == FontError::UnexpectedEndOfFile,
            },
    {
        let v = self.get_uint16()?;
        Ok(v as i16)
    }

    pub fn get_int32(&mut self) -> (r: Result<i32, FontError>)
        ensures
            final(self).data@ == old(self).data@,
            match r {
                Ok(v) => old(self).has(4) && v == i32_at(old(self).data@, old(self).pos as int)
                    && final(self).pos == old(self).pos + 4,
                Err(e) => !old(self).has(4) && e == FontError::UnexpectedEndOfFile,
            },
    {
        let v = self.get_uint32()?;
        Ok(v as i32)
    }

    /// A 16.16 fixed-point number.
    pub fn get_float32(&mut self) -> (r: Result<Fixed, FontError>)
        ensures
            final(self).data@ == old(self).data@,
            match r {
                Ok(v) => old(self).has(4) && v.raw == i32_at(old(self).data@, old(self).pos as int)
                    && final(self).pos == old(self).pos + 4,
                Err(e) => !old(self).has(4) && e == FontError::UnexpectedEndOfFile,
            },
    {
        let raw = self.get_int32()?;
        Ok(Fixed { raw })
    }

    /// A 2.14 fixed-point number.
    pub fn get_f2dot14(&mut self) -> (r: Result<F2Dot14, FontError>)
        ensures
            final(self).data@ == old(self).data@,
            match r {
                Ok(v) => old(self).has(2) && v.raw == i16_at(old(self).data@, old(self).pos as int)
                    && final(self).pos == old(self).pos + 2,
                Err(e) => !old(self).has(2) && e == FontError::UnexpectedEndOfFile,
            },
    {
        let raw = self.get_int16()?;
        Ok(F2Dot14 { raw })
    }

    /// `length` bytes read as characters, each byte kept verbatim.
    pub fn get_string(&mut self, length: usize) -> (r: Result<String, FontError>)
        ensures
            final(self).data@ == old(self).data@,
            match r {
                Ok(s) => (length > 0 ==> old(self).has(length as int))
                    && s@ == chars_at(old(self).data@, old(self).pos as int, length as nat)
                    && final(self).pos == old(self).pos + length,
                Err(e) => length > 0 && !old(self).has(length as int)
                    && e == FontError::UnexpectedEndOfFile,
            },
    {
        let mut result = String::new();
        let mut i: usize = 0;
        while i < length
            invariant
                i <= length,
                self.data@ == old(self).data@,
                self.pos == old(self).pos + i,
                i > 0 ==> old(self).has(i as int),
                result@ == chars_at(old(self).data@, old(self).pos as int, i as nat),
            decreases length - i,
        {
            let b = self.get_uint8()?;
            push_char(&mut result, b as char);
            assert(result@ =~= chars_at(old(self).data@, old(self).pos as int, (i + 1) as nat));
            i = i + 1;
        }
        Ok(result)
    }

    /// An HFS timestamp (64-bit big-endian seconds since 1904-01-01), as Unix seconds.
    pub fn get_date(&mut self) -> (r: Result<i64, FontError>)
        ensures
            final(self).data@ == old(self).data@,
            match r {
                Ok(v) => old(self).has(8)
                    && v == hfs_to_unix(u64_at(old(self).data@, old(self).pos as int))
                    && final(self).pos == old(self).pos + 8,
                Err(e) => !old(self).has(8) && e == FontError::UnexpectedEndOfFile,
            },
    {
        let high = self.get_uint32()?;
        let low = self.get_uint32()?;
        let hfs: u64 = (high as u64) * 0x1_0000_0000 + low as u64;
        Ok((hfs as i64).wrapping_sub(HFS_UNIX_EPOCH_DIFF))
    }

    /// Reads `n` unsigned 8-bit values at the cursor.
    pub fn get_uint8_array(&mut self, n: u32) -> (res: Result<Vec<u8>, FontError>)
        ensures
            final(self).data@ == old(self).data@,
            match res {
                Ok(v) => (n > 0 ==> old(self).pos + n <= old(self).data@.len())
                    && v@ == u8s_at(old(self).data@, old(self).pos as int, n as nat)
                    && final(self).pos == old(self).pos + n,
                Err(e) => n > 0 && old(self).pos + n > old(self).data@.len()
                    && e == FontError::UnexpectedEndOfFile,
            },
    {
        let ghost s = self.data@;
        let ghost p = self.pos as int;
        let mut v: Vec<u8> = Vec::new();
        let mut i: u32 = 0;
        while i < n
            invariant
                s == old(self).data@,
                p == old(self).pos,
                self.data@ == s,
                i <= n,
                self.pos == p + i,
                i > 0 ==> p + i <= s.len(),
                v@ == u8s_at(s, p, i as nat),
            decreases n - i,
        {
            let x = self.get_uint8()?;
            v.push(x);
            assert(v@ =~= u8s_at(s, p, (i + 1) as nat));
            i = i + 1;
        }
        Ok(v)
    }

    /// Reads `n` unsigned 16-bit values at the cursor.
    pub fn get_uint16_array(&mut self, n: u32) -> (res: Result<Vec<u16>, FontError>)
        ensures
            final(self).data@ == old(self).data@,
            match res {
                Ok(v) => (n > 0 ==> old(self).pos + 2 * n <= old(self).data@.len())
                    && v@ == u16s_at(old(self).data@, old(self).pos as int, n as nat)
                    && final(self).pos == old(self).pos + 2 * n,
                Err(e) => n > 0 && old(self).pos + 2 * n > old(self).data@.len()
                    && e == FontError::UnexpectedEndOfFile,
            },
    {
        let ghost s = self.data@;
        let ghost p = self.pos as int;
        let mut v: Vec<u16> = Vec::new();
        let mut i: u32 = 0;
        while i < n
            invariant
                s == old(self).data@,
                p == old(self).pos,
                self.data@ == s,
                i <= n,
                self.pos == p + 2 * i,
                i > 0 ==> p + 2 * i <= s.len(),
                v@ == u16s_at(s, p, i as nat),
            decreases n - i,
        {
            let x = self.get_uint16()?;
            v.push(x);
            assert(v@ =~= u16s_at(s, p, (i + 1) as nat));
            i = i + 1;
        }
        Ok(v)
    }

    /// Reads `n` unsigned 32-bit values at the cursor.
    pub fn get_uint32_array(&mut self, n: u32) -> (res: Result<Vec<u32>, FontError>)
        ensures
            final(self).data@ == old(self).data@,
            match res {
                Ok(v) => (n > 0 ==> old(self).pos + 4 * n <= old(self).data@.len())
                    && v@ == u32s_at(old(self).data@, old(self).pos as int, n as nat)
                    && final(self).pos == old(self).pos + 4 * n,
                Err(e) => n > 0 && old(self).pos + 4 * n > old(self).data@.len()
                    && e == FontError::UnexpectedEndOfFile,
            },
    {
        let ghost s = self.data@;
        let ghost p = self.pos as int;
        let mut v: Vec<u32> = Vec::new();
        let mut i: u32 = 0;
        while i < n
            invariant
                s == old(self).data@,
                p == old(self).pos,
                self.data@ == s,
                i <= n,
                self.pos == p + 4 * i,
                i > 0 ==> p + 4 * i <= s.len(),
                v@ == u32s_at(s, p, i as nat),
            decreases n - i,
        {
            let x = self.get_uint32()?;
            v.push(x);
            assert(v@ =~= u32s_at(s, p, (i + 1) as nat));
            i = i + 1;
        }
        Ok(v)
    }
}

} // verus!
