use vstd::prelude::*;
use vstd::utf8::decode_utf8;
use vstd::utf8::valid_utf8;
use std::io::Read;
use crate::abstract_file_info::CompressionMethod;
use crate::error::Error;

verus! {

/// Whether `n` bytes can be read from `data` at `pos`. A read of no bytes succeeds anywhere.
pub open spec fn available(data: Seq<u8>, pos: int, n: int) -> bool {
    n == 0 || pos + n <= data.len()
}

/// The `n` bytes of `data` that start at `pos`.
pub open spec fn bytes_at(data: Seq<u8>, pos: int, n: int) -> Seq<u8> {
    if n == 0 {
        Seq::empty()
    } else {
        data.subrange(pos, pos + n)
    }
}

/// The little-endian `u16` stored at `pos`.
pub open spec fn le_u16(data: Seq<u8>, pos: int) -> u16 {
    (data[pos] as int + data[pos + 1] as int * 0x100) as u16
}

/// The little-endian `u32` stored at `pos`.
pub open spec fn le_u32(data: Seq<u8>, pos: int) -> u32 {
    (data[pos] as int + data[pos + 1] as int * 0x100 + data[pos + 2] as int * 0x1_0000 + data[pos
        + 3] as int * 0x100_0000) as u32
}

/// The little-endian `u64` stored at `pos`.
pub open spec fn le_u64(data: Seq<u8>, pos: int) -> u64 {
    (le_u32(data, pos) as int + le_u32(data, pos + 4) as int * 0x1_0000_0000) as u64
}

/// The signed reading of a byte in two's complement.
pub open spec fn as_i8(x: u8) -> i8 {
    if x < 0x80 {
        x as i8
    } else {
        (x - 0x100) as i8
    }
}

/// The signed reading of 16 bits in two's complement.
pub open spec fn as_i16(x: u16) -> i16 {
    if x < 0x8000 {
        x as i16
    } else {
        (x - 0x1_0000) as i16
    }
}

/// The signed reading of 32 bits in two's complement.
pub open spec fn as_i32(x: u32) -> i32 {
    if x < 0x8000_0000 {
        x as i32
    } else {
        (x - 0x1_0000_0000) as i32
    }
}

/// The signed reading of 64 bits in two's complement.
pub open spec fn as_i64(x: u64) -> i64 {
    if x < 0x8000_0000_0000_0000 {
        x as i64
    } else {
        (x - 0x1_0000_0000_0000_0000) as i64
    }
}

/// The unsigned reading of a 32-bit two's complement number.
pub open spec fn as_u32(x: i32) -> u32 {
    if x >= 0 {
        x as u32
    } else {
        (x + 0x1_0000_0000) as u32
    }
}

/// The unsigned reading of a 64-bit two's complement number.
pub open spec fn as_u64(x: i64) -> u64 {
    if x >= 0 {
        x as u64
    } else {
        (x + 0x1_0000_0000_0000_0000) as u64
    }
}

/// `N` consecutive little-endian `u32` words starting at `pos`.
pub open spec fn le_u32_seq(data: Seq<u8>, pos: int, n: int) -> Seq<u32> {
    Seq::new(n as nat, |i: int| le_u32(data, pos + 4 * i))
}

/// `N` consecutive little-endian `i32` words starting at `pos`.
pub open spec fn le_i32_seq(data: Seq<u8>, pos: int, n: int) -> Seq<i32> {
    Seq::new(n as nat, |i: int| as_i32(le_u32(data, pos + 4 * i)))
}

/// A row-major matrix of little-endian `u32` words starting at `pos`.
pub open spec fn le_u32_mat(data: Seq<u8>, pos: int, rows: int, cols: int) -> Seq<Seq<u32>> {
    Seq::new(rows as nat, |r: int| le_u32_seq(data, pos + 4 * cols * r, cols))
}

/// The view of a matrix: its rows, each as a sequence.
pub open spec fn mat_view<const COLS: usize, const ROWS: usize>(m: [[u32; COLS]; ROWS]) -> Seq<
    Seq<u32>,
> {
    Seq::new(ROWS as nat, |r: int| m@[r]@)
}

/// Reads a byte as a signed number in two's complement.
pub fn u8_to_i8(x: u8) -> (r: i8)
    ensures
        r == as_i8(x),
{
    if x < 0x80 {
        x as i8
    } else {
        ((x - 0x80) as i8) + i8::MIN
    }
}

/// Reads 16 bits as a signed number in two's complement.
pub fn u16_to_i16(x: u16) -> (r: i16)
    ensures
        r == as_i16(x),
{
    if x < 0x8000 {
        x as i16
    } else {
        ((x - 0x8000) as i16) + i16::MIN
    }
}

/// Reads 32 bits as a signed number in two's complement.
pub fn u32_to_i32(x: u32) -> (r: i32)
    ensures
        r == as_i32(x),
{
    if x < 0x8000_0000 {
        x as i32
    } else {
        ((x - 0x8000_0000) as i32) + i32::MIN
    }
}

/// Reads 64 bits as a signed number in two's complement.
pub fn u64_to_i64(x: u64) -> (r: i64)
    ensures
        r == as_i64(x),
{
    if x < 0x8000_0000_0000_0000 {
        x as i64
    } else {
        ((x - 0x8000_0000_0000_0000) as i64) + i64::MIN
    }
}

/// The 32 bits of a signed number in two's complement.
pub fn i32_to_u32(x: i32) -> (r: u32)
    ensures
        r == as_u32(x),
        as_i32(r) == x,
{
    if x >= 0 {
        x as u32
    } else {
        ((x - i32::MIN) as u32) + 0x8000_0000
    }
}

/// The 64 bits of a signed number in two's complement.
pub fn i64_to_u64(x: i64) -> (r: u64)
    ensures
        r == as_u64(x),
        as_i64(r) == x,
{
    if x >= 0 {
        x as u64
    } else {
        ((x - i64::MIN) as u64) + 0x8000_0000_0000_0000
    }
}

/// The `u16` at `pos`, which must lie inside `data`.
pub fn u16_at(data: &[u8], pos: usize) -> (r: u16)
    requires
        pos + 2 <= data@.len(),
    ensures
        r == le_u16(data@, pos as int),
{
    data[pos] as u16 + data[pos + 1] as u16 * 0x100
}

/// The `u32` at `pos`, which must lie inside `data`.
pub fn u32_at(data: &[u8], pos: usize) -> (r: u32)
    requires
        pos + 4 <= data@.len(),
    ensures
        r == le_u32(data@, pos as int),
{
    data[pos] as u32 + data[pos + 1] as u32 * 0x100 + data[pos + 2] as u32 * 0x1_0000 + data[pos
        + 3] as u32 * 0x100_0000
}

/// The `u64` at `pos`, which must lie inside `data`.
pub fn u64_at(data: &[u8], pos: usize) -> (r: u64)
    requires
        pos + 8 <= data@.len(),
    ensures
        r == le_u64(data@, pos as int),
{
    let len = data.len();
    u32_at(data, pos) as u64 + u32_at(data, pos + 4) as u64 * 0x1_0000_0000
}

/// The `N` bytes at `pos`, which must lie inside `data`, as an array.
pub fn array_at<const N: usize>(data: &[u8], pos: usize) -> (value: [u8; N])
    requires
        pos + N <= data@.len(),
    ensures
        value@ == data@.subrange(pos as int, pos + N),
{
    let len = data.len();
    let mut value: [u8; N] = [0u8;N];
    let mut i: usize = 0;
    while i < N
        invariant
            i <= N,
            pos + N <= data@.len() == len,
            forall|k: int| 0 <= k < i ==> value@[k] == data@[pos + k],
        decreases N - i,
    {
        value[i] = data[pos + i];
        i += 1;
    }
    assert(value@ =~= data@.subrange(pos as int, pos + N));
    value
}

/// A copy of the `n` bytes at `pos`, which must lie inside `data`.
pub fn copy_bytes(data: &[u8], pos: usize, n: usize) -> (out: Vec<u8>)
    requires
        available(data@, pos as int, n as int),
    ensures
        out@ == bytes_at(data@, pos as int, n as int),
{
    let mut out: Vec<u8> = Vec::new();
    if n == 0 {
        return out;
    }
    let len = data.len();
    let mut i: usize = 0;
    while i < n
        invariant
            i <= n,
            pos + n <= data@.len() == len,
            out@ == data@.subrange(pos as int, pos + i),
        decreases n - i,
    {
        out.push(data[pos + i]);
        i += 1;
    }
    out
}

/// Rows `i` and `i + 1` of a matrix of `cols` columns lie inside its first `rows` rows.
proof fn lemma_row_span(cols: int, i: int, rows: int)
    requires
        0 <= cols,
        0 <= i <= rows,
    ensures
        4 * cols * i <= 4 * cols * rows,
        4 * cols * (i + 1) == 4 * cols * i + 4 * cols,
        i < rows ==> 4 * cols * (i + 1) <= 4 * cols * rows,
        cols > 0 && i > 0 ==> 4 * cols * i > 0,
{
    assert(4 * cols * i <= 4 * cols * rows) by (nonlinear_arith)
        requires
            0 <= cols,
            0 <= i <= rows,
    ;
    assert(4 * cols * (i + 1) == 4 * cols * i + 4 * cols) by (nonlinear_arith);
    if i < rows {
        assert(4 * cols * (i + 1) <= 4 * cols * rows) by (nonlinear_arith)
            requires
                0 <= cols,
                0 <= i + 1 <= rows,
        ;
    }
    if cols > 0 && i > 0 {
        assert(4 * cols * i > 0) by (nonlinear_arith)
            requires
                cols > 0,
                i > 0,
        ;
    }
}

/// A read cursor over bytes held in memory.
pub struct ByteReader<'a> {
    pub data: &'a [u8],
    pub pos: usize,
}

impl<'a> ByteReader<'a> {
    /// A reader at the start of `data`.
    pub fn new(data: &'a [u8]) -> (r: Self)
        ensures
            r.data@ == data@,
            r.pos == 0,
    {
        ByteReader { data, pos: 0 }
    }

    /// What a read of `n` bytes that yields `value` leaves behind: the value and a cursor
    /// moved by `n` where the bytes are there, `ShortRead` where they are not.
    pub open spec fn reads<T>(
        before: Self,
        after: Self,
        n: int,
        value: T,
        r: Result<T, Error>,
    ) -> bool {
        &&& after.data@ == before.data@
        &&& if available(before.data@, before.pos as int, n) {
            r == Ok::<T, Error>(value) && after.pos == before.pos + n
        } else {
            r == Err::<T, Error>(Error::ShortRead)
        }
    }

    /// Whether `n` bytes are left at the cursor.
    pub fn has(&self, n: usize) -> (b: bool)
        ensures
            b == available(self.data@, self.pos as int, n as int),
            b && n > 0 ==> self.pos + n <= usize::MAX,
    {
        n == 0 || (self.pos <= self.data.len() && n <= self.data.len() - self.pos)
    }

    /// Moves the cursor to `pos`, which may lie past the end.
    pub fn seek(&mut self, pos: usize)
        ensures
            final(self).data@ == old(self).data@,
            final(self).pos == pos,
    {
        self.pos = pos;
    }

    /// The number of bytes in the source.
    pub fn len(&self) -> (n: usize)
        ensures
            n == self.data@.len(),
    {
        self.data.len()
    }

    /// Reads one byte.
    pub fn read_u8(&mut self) -> (r: Result<u8, Error>)
        ensures
            Self::reads(*old(self), *final(self), 1, old(self).data@[old(self).pos as int], r),
    {
        if !self.has(1) {
            return Err(Error::ShortRead);
        }
        let v = self.data[self.pos];
        self.pos = self.pos + 1;
        Ok(v)
    }

    /// Reads one byte as a signed number.
    pub fn read_i8(&mut self) -> (r: Result<i8, Error>)
        ensures
            Self::reads(
                *old(self),
                *final(self),
                1,
                as_i8(old(self).data@[old(self).pos as int]),
                r,
            ),
    {
        if !self.has(1) {
            return Err(Error::ShortRead);
        }
        let v = u8_to_i8(self.data[self.pos]);
        self.pos = self.pos + 1;
        Ok(v)
    }

    /// Reads a little-endian `u16`.
    pub fn read_u16(&mut self) -> (r: Result<u16, Error>)
        ensures
            Self::reads(*old(self), *final(self), 2, le_u16(old(self).data@, old(self).pos as int), r),
    {
        if !self.has(2) {
            return Err(Error::ShortRead);
        }
        let v = u16_at(self.data, self.pos);
        self.pos = self.pos + 2;
        Ok(v)
    }

    /// Reads a little-endian `i16`.
    pub fn read_i16(&mut self) -> (r: Result<i16, Error>)
        ensures
            Self::reads(
                *old(self),
                *final(self),
                2,
                as_i16(le_u16(old(self).data@, old(self).pos as int)),
                r,
            ),
    {
        if !self.has(2) {
            return Err(Error::ShortRead);
        }
        let v = u16_to_i16(u16_at(self.data, self.pos));
        self.pos = self.pos + 2;
        Ok(v)
    }

    /// Reads a little-endian `u32`.
    pub fn read_u32(&mut self) -> (r: Result<u32, Error>)
        ensures
            Self::reads(*old(self), *final(self), 4, le_u32(old(self).data@, old(self).pos as int), r),
    {
        if !self.has(4) {
            return Err(Error::ShortRead);
        }
        let v = u32_at(self.data, self.pos);
        self.pos = self.pos + 4;
        Ok(v)
    }

    /// Reads a little-endian `i32`.
    pub fn read_i32(&mut self) -> (r: Result<i32, Error>)
        ensures
            Self::reads(
                *old(self),
                *final(self),
                4,
                as_i32(le_u32(old(self).data@, old(self).pos as int)),
                r,
            ),
    {
        if !self.has(4) {
            return Err(Error::ShortRead);
        }
        let v = u32_to_i32(u32_at(self.data, self.pos));
        self.pos = self.pos + 4;
        Ok(v)
    }

    /// Reads a little-endian `u64`.
    pub fn read_u64(&mut self) -> (r: Result<u64, Error>)
        ensures
            Self::reads(*old(self), *final(self), 8, le_u64(old(self).data@, old(self).pos as int), r),
    {
        if !self.has(8) {
            return Err(Error::ShortRead);
        }
        let v = u64_at(self.data, self.pos);
        self.pos = self.pos + 8;
        Ok(v)
    }

    /// Reads a little-endian `i64`.
    pub fn read_i64(&mut self) -> (r: Result<i64, Error>)
        ensures
            Self::reads(
                *old(self),
                *final(self),
                8,
                as_i64(le_u64(old(self).data@, old(self).pos as int)),
                r,
            ),
    {
        if !self.has(8) {
            return Err(Error::ShortRead);
        }
        let v = u64_to_i64(u64_at(self.data, self.pos));
        self.pos = self.pos + 8;
        Ok(v)
    }

    /// Reads a single-precision number and returns its IEEE 754 bit pattern.
    pub fn read_f32(&mut self) -> (r: Result<u32, Error>)
        ensures
            Self::reads(*old(self), *final(self), 4, le_u32(old(self).data@, old(self).pos as int), r),
    {
        self.read_u32()
    }

    /// Reads a double-precision number and returns its IEEE 754 bit pattern.
    pub fn read_f64(&mut self) -> (r: Result<u64, Error>)
        ensures
            Self::reads(*old(self), *final(self), 8, le_u64(old(self).data@, old(self).pos as int), r),
    {
        self.read_u64()
    }

    /// Reads `N` consecutive `i32` values.
    pub fn read_i32_vec<const N: usize>(&mut self) -> (r: Result<[i32; N], Error>)
        ensures
            final(self).data@ == old(self).data@,
            available(old(self).data@, old(self).pos as int, 4 * N) ==> r is Ok && r->Ok_0@
                == le_i32_seq(old(self).data@, old(self).pos as int, N as int) && final(self).pos
                == old(self).pos + 4 * N,
            !available(old(self).data@, old(self).pos as int, 4 * N) ==> r == Err::<
                [i32; N],
                Error,
            >(Error::ShortRead),
    {
        let mut value: [i32; N] = [0i32;N];
        let mut i: usize = 0;
        while i < N
            invariant
                i <= N,
                self.data@ == old(self).data@,
                self.pos == old(self).pos + 4 * i,
                i > 0 ==> old(self).pos + 4 * i <= self.data@.len(),
                forall|k: int| 0 <= k < i ==> value@[k] == as_i32(#[trigger] le_u32(self.data@, old(self).pos + 4 * k)),
            decreases N - i,
        {
            match self.read_i32() {
                Ok(v) => {
                    value[i] = v;
                },
                Err(e) => {
                    return Err(e);
                },
            }
            i += 1;
        }
        assert(value@ =~= le_i32_seq(old(self).data@, old(self).pos as int, N as int));
        Ok(value)
    }

    /// Reads `N` consecutive single-precision numbers as bit patterns.
    pub fn read_f32_vec<const N: usize>(&mut self) -> (r: Result<[u32; N], Error>)
        ensures
            final(self).data@ == old(self).data@,
            available(old(self).data@, old(self).pos as int, 4 * N) ==> r is Ok && r->Ok_0@
                == le_u32_seq(old(self).data@, old(self).pos as int, N as int) && final(self).pos
                == old(self).pos + 4 * N,
            !available(old(self).data@, old(self).pos as int, 4 * N) ==> r == Err::<
                [u32; N],
                Error,
            >(Error::ShortRead),
    {
        let mut value: [u32; N] = [0u32;N];
        let mut i: usize = 0;
        while i < N
            invariant
                i <= N,
                self.data@ == old(self).data@,
                self.pos == old(self).pos + 4 * i,
                i > 0 ==> old(self).pos + 4 * i <= self.data@.len(),
                forall|k: int| 0 <= k < i ==> value@[k] == #[trigger] le_u32(self.data@, old(self).pos + 4 * k),
            decreases N - i,
        {
            match self.read_f32() {
                Ok(v) => {
                    value[i] = v;
                },
                Err(e) => {
                    return Err(e);
                },
            }
            i += 1;
        }
        assert(value@ =~= le_u32_seq(old(self).data@, old(self).pos as int, N as int));
        Ok(value)
    }

    /// Reads a row-major matrix of `ROWS` rows and `COLS` columns of single-precision
    /// numbers as bit patterns.
    pub fn read_f32_mat<const COLS: usize, const ROWS: usize>(&mut self) -> (r: Result<
        [[u32; COLS]; ROWS],
        Error,
    >)
        ensures
            final(self).data@ == old(self).data@,
            available(old(self).data@, old(self).pos as int, 4 * COLS * ROWS) ==> r is Ok
                && mat_view(r->Ok_0) == le_u32_mat(
                old(self).data@,
                old(self).pos as int,
                ROWS as int,
                COLS as int,
            ) && final(self).pos == old(self).pos + 4 * COLS * ROWS,
            !available(old(self).data@, old(self).pos as int, 4 * COLS * ROWS) ==> r == Err::<
                [[u32; COLS]; ROWS],
                Error,
            >(Error::ShortRead),
    {
        let mut mat: [[u32; COLS]; ROWS] = [[0u32;COLS];ROWS];
        let mut i: usize = 0;
        while i < ROWS
            invariant
                i <= ROWS,
                self.data@ == old(self).data@,
                self.pos == old(self).pos + 4 * COLS * i,
                i > 0 && COLS > 0 ==> old(self).pos + 4 * COLS * i <= self.data@.len(),
                forall|k: int| 0 <= k < i ==> (#[trigger] mat@[k])@ == le_u32_seq(self.data@, old(self).pos + 4 * COLS * k, COLS as int),
            decreases ROWS - i,
        {
            proof {
                lemma_row_span(COLS as int, i as int, ROWS as int);
            }
            match self.read_f32_vec::<COLS>() {
                Ok(row) => {
                    mat[i] = row;
                },
                Err(e) => {
                    return Err(e);
                },
            }
            i += 1;
        }
        proof {
            lemma_row_span(COLS as int, ROWS as int, ROWS as int);
            assert(mat_view(mat) =~= le_u32_mat(
                old(self).data@,
                old(self).pos as int,
                ROWS as int,
                COLS as int,
            ));
        }
        Ok(mat)
    }

    /// Reads `N` bytes into an array.
    pub fn read_array<const N: usize>(&mut self) -> (r: Result<[u8; N], Error>)
        ensures
            final(self).data@ == old(self).data@,
            available(old(self).data@, old(self).pos as int, N as int) ==> r is Ok && r->Ok_0@
                == bytes_at(old(self).data@, old(self).pos as int, N as int) && final(self).pos
                == old(self).pos + N,
            !available(old(self).data@, old(self).pos as int, N as int) ==> r == Err::<[u8; N], Error>(
                Error::ShortRead,
            ),
    {
        if !self.has(N) {
            return Err(Error::ShortRead);
        }
        if N == 0 {
            let value: [u8; N] = [0u8;N];
            assert(value@ =~= bytes_at(self.data@, self.pos as int, 0));
            return Ok(value);
        }
        let value = array_at::<N>(self.data, self.pos);
        self.pos = self.pos + N;
        Ok(value)
    }

    /// Reads the 16 bytes of a UUID verbatim.
    pub fn read_uuid(&mut self) -> (r: Result<[u8; 16], Error>)
        ensures
            final(self).data@ == old(self).data@,
            available(old(self).data@, old(self).pos as int, 16) ==> r is Ok && r->Ok_0@
                == bytes_at(old(self).data@, old(self).pos as int, 16) && final(self).pos
                == old(self).pos + 16,
            !available(old(self).data@, old(self).pos as int, 16) ==> r == Err::<[u8; 16], Error>(
                Error::ShortRead,
            ),
    {
        self.read_array::<16>()
    }

    /// Reads `n` bytes verbatim.
    pub fn read_bytes(&mut self, n: usize) -> (r: Result<Vec<u8>, Error>)
        ensures
            final(self).data@ == old(self).data@,
            available(old(self).data@, old(self).pos as int, n as int) ==> r is Ok && r->Ok_0@
                == bytes_at(old(self).data@, old(self).pos as int, n as int) && final(self).pos
                == old(self).pos + n,
            !available(old(self).data@, old(self).pos as int, n as int) ==> r == Err::<
                Vec<u8>,
                Error,
            >(Error::ShortRead),
    {
        if !self.has(n) {
            return Err(Error::ShortRead);
        }
        let out = copy_bytes(self.data, self.pos, n);
        if n > 0 {
            self.pos = self.pos + n;
        }
        Ok(out)
    }
}

/// The error of `lz4_flex`'s block decoder.
#[verifier::external_type_specification]
#[verifier::external_body]
pub struct ExDecompressError(lz4_flex::block::DecompressError);

/// The error of `std::io`.
#[verifier::external_type_specification]
#[verifier::external_body]
pub struct ExIoError(std::io::Error);

/// What `lz4_flex::block::decompress` makes of `input` when given room for `capacity`
/// bytes: the decoded bytes, or nothing where it reports an error.
pub uninterp spec fn lz4_block_decoded(input: Seq<u8>, capacity: usize) -> Option<Seq<u8>>;

/// The first `len` bytes that `lz4_flex::frame::FrameDecoder` yields for `input`, or
/// nothing where the stream is corrupt or ends before them.
pub uninterp spec fn lz4_frame_decoded(input: Seq<u8>, len: usize) -> Option<Seq<u8>>;

/// The first `len` bytes that `flate2::bufread::ZlibDecoder` yields for `input`, or
/// nothing where the stream is corrupt or ends before them.
pub uninterp spec fn zlib_decoded(input: Seq<u8>, len: usize) -> Option<Seq<u8>>;

/// Calls `lz4_flex::block::decompress`. Trusted: the result is a function of the two
/// arguments alone, named by `lz4_block_decoded`. The buffer of `capacity` bytes that the
/// decoder allocates must be one that a `Vec` can hold.
#[verifier::external_body]
fn lz4_block(input: &[u8], capacity: usize) -> (r: Result<
    Vec<u8>,
    lz4_flex::block::DecompressError,
>)
    requires
        capacity <= isize::MAX,
    ensures
        r matches Ok(v) ==> lz4_block_decoded(input@, capacity) == Some(v@),
        r is Err ==> lz4_block_decoded(input@, capacity) is None,
{
    lz4_flex::block::decompress(input, capacity)
}

/// Reads exactly `len` bytes from an `lz4_flex::frame::FrameDecoder` over `input`.
/// Trusted: the result is a function of the two arguments alone, named by
/// `lz4_frame_decoded`.
#[verifier::external_body]
fn lz4_frame(input: &[u8], len: usize) -> (r: Result<Vec<u8>, std::io::Error>)
    requires
        len <= isize::MAX,
    ensures
        r matches Ok(v) ==> lz4_frame_decoded(input@, len) == Some(v@),
        r is Err ==> lz4_frame_decoded(input@, len) is None,
{
    let mut buf = vec![0u8; len];
    lz4_flex::frame::FrameDecoder::new(std::io::Cursor::new(input)).read_exact(&mut buf)?;
    Ok(buf)
}

/// Reads exactly `len` bytes from a `flate2::bufread::ZlibDecoder` over `input`.
/// Trusted: the result is a function of the two arguments alone, named by `zlib_decoded`.
#[verifier::external_body]
fn zlib(input: &[u8], len: usize) -> (r: Result<Vec<u8>, std::io::Error>)
    requires
        len <= isize::MAX,
    ensures
        r matches Ok(v) ==> zlib_decoded(input@, len) == Some(v@),
        r is Err ==> zlib_decoded(input@, len) is None,
{
    let mut buf = vec![0u8; len];
    flate2::bufread::ZlibDecoder::new(input).read_exact(&mut buf)?;
    Ok(buf)
}

/// What is made of a codec's output: it must be there, and of the declared size.
pub open spec fn spec_check_decoded(out: Option<Seq<u8>>, size: usize) -> Result<Seq<u8>, Error> {
    match out {
        None => Err(Error::DecompressFailed),
        Some(bytes) => if bytes.len() == size {
            Ok(bytes)
        } else {
            Err(Error::SizeMismatch)
        },
    }
}

/// The raw bytes that a compressed blob stands for. The low nibble of `flags` selects the
/// codec; `chunked` selects the LZ4 frame format over the LZ4 block format.
pub open spec fn spec_decompress(
    compressed: Seq<u8>,
    size: usize,
    flags: u8,
    chunked: bool,
) -> Result<Seq<u8>, Error> {
    match CompressionMethod::spec_get(flags) {
        Some(CompressionMethod::Stored) => spec_check_decoded(Some(compressed), size),
        Some(CompressionMethod::Zlib) => if size > isize::MAX {
            Err(Error::SizeMismatch)
        } else {
            spec_check_decoded(zlib_decoded(compressed, size), size)
        },
        Some(CompressionMethod::LZ4) => if size > isize::MAX {
            Err(Error::SizeMismatch)
        } else if chunked {
            spec_check_decoded(lz4_frame_decoded(compressed, size), size)
        } else {
            spec_lz4_block(compressed, size)
        },
        _ => Err(Error::UnsupportedCompression),
    }
}

/// Whether a result that holds bytes in a `Vec` is the given result over a sequence.
pub open spec fn bytes_result(r: Result<Vec<u8>, Error>, expected: Result<Seq<u8>, Error>) -> bool {
    match r {
        Ok(v) => expected == Ok::<Seq<u8>, Error>(v@),
        Err(e) => expected == Err::<Seq<u8>, Error>(e),
    }
}

/// Accepts a codec's output where there is one and it has the declared size.
pub fn check_decoded(out: Option<Vec<u8>>, size: usize) -> (r: Result<Vec<u8>, Error>)
    ensures
        bytes_result(
            r,
            spec_check_decoded(
                match out {
                    Some(v) => Some(v@),
                    None => None,
                },
                size,
            ),
        ),
{
    match out {
        None => Err(Error::DecompressFailed),
        Some(bytes) => {
            if bytes.len() == size {
                Ok(bytes)
            } else {
                Err(Error::SizeMismatch)
            }
        },
    }
}

/// The bytes that an LZ4 block of declared size `size` stands for.
pub open spec fn spec_lz4_block(compressed: Seq<u8>, size: usize) -> Result<Seq<u8>, Error> {
    if size > isize::MAX {
        Err(Error::SizeMismatch)
    } else {
        spec_check_decoded(lz4_block_decoded(compressed, size), size)
    }
}

/// Decodes an LZ4 block of declared size `size`.
pub fn decompress_lz4_block(compressed: &[u8], size: usize) -> (r: Result<Vec<u8>, Error>)
    ensures
        bytes_result(r, spec_lz4_block(compressed@, size)),
{
    if size > isize::MAX as usize {
        return Err(Error::SizeMismatch);
    }
    let out = match lz4_block(compressed, size) {
        Ok(v) => Some(v),
        Err(_) => None,
    };
    check_decoded(out, size)
}

/// Turns a compressed blob into the raw bytes it stands for.
pub fn decompress(compressed: &[u8], decompressed_size: usize, compression_flags: u8, chunked: bool) -> (r:
    Result<Vec<u8>, Error>)
    ensures
        bytes_result(r, spec_decompress(compressed@, decompressed_size, compression_flags, chunked)),
{
    match CompressionMethod::get(compression_flags) {
        Some(CompressionMethod::Stored) => {
            let n = compressed.len();
            let copy = copy_bytes(compressed, 0, n);
            assert(copy@ =~= compressed@);
            check_decoded(Some(copy), decompressed_size)
        },
        Some(CompressionMethod::Zlib) => {
            if decompressed_size > isize::MAX as usize {
                return Err(Error::SizeMismatch);
            }
            let out = match zlib(compressed, decompressed_size) {
                Ok(v) => Some(v),
                Err(_) => None,
            };
            check_decoded(out, decompressed_size)
        },
        Some(CompressionMethod::LZ4) => {
            if decompressed_size > isize::MAX as usize {
                return Err(Error::SizeMismatch);
            }
            if chunked {
                let out = match lz4_frame(compressed, decompressed_size) {
                    Ok(v) => Some(v),
                    Err(_) => None,
                };
                check_decoded(out, decompressed_size)
            } else {
                decompress_lz4_block(compressed, decompressed_size)
            }
        },
        _ => Err(Error::UnsupportedCompression),
    }
}

/// The text that `String::from_utf8_lossy` makes of `bytes`: their UTF-8 decoding, with
/// U+FFFD in place of each invalid sequence.
pub uninterp spec fn utf8_lossy(bytes: Seq<u8>) -> Seq<char>;

/// Calls `String::from_utf8_lossy`. Trusted: the result is a function of the bytes alone,
/// named by `utf8_lossy`, and valid UTF-8 decodes to the text it encodes.
#[verifier::external_body]
pub(crate) fn decode_lossy(bytes: &[u8]) -> (text: String)
    ensures
        text@ == utf8_lossy(bytes@),
        valid_utf8(bytes@) ==> text@ == decode_utf8(bytes@),
{
    String::from_utf8_lossy(bytes).into_owned()
}

/// Whether a decoder's result and the cursor it left are what `expected` names: on
/// success the value by its view and the end of what was read, else the same error.
pub open spec fn parsed<T: View>(
    r: Result<T, Error>,
    end: int,
    expected: Result<(T::V, int), Error>,
) -> bool {
    match expected {
        Ok((value, stop)) => r is Ok && r->Ok_0@ == value && end == stop,
        Err(e) => r == Err::<T, Error>(e),
    }
}

/// Whether the items decoded so far, `done`, followed by what `rest` names make up
/// `whole`: the same error, or `done` and then the items of `rest`, ending where it ends.
pub open spec fn continues<T>(
    whole: Result<(Seq<T>, int), Error>,
    done: Seq<T>,
    rest: Result<(Seq<T>, int), Error>,
) -> bool {
    whole == match rest {
        Ok((tail, end)) => Ok::<(Seq<T>, int), Error>((done + tail, end)),
        Err(e) => Err(e),
    }
}

/// The lower-case form of an ASCII upper-case letter; any other character itself.
pub open spec fn ascii_lower(c: char) -> char {
    if 'A' <= c && c <= 'Z' {
        ((c as u32) + 32) as char
    } else {
        c
    }
}

/// Whether two texts are the same, letter case of ASCII letters aside.
pub open spec fn spec_eq_ignore_case(a: Seq<char>, b: Seq<char>) -> bool {
    a.map_values(|c: char| ascii_lower(c)) == b.map_values(|c: char| ascii_lower(c))
}

/// Calls `str::eq_ignore_ascii_case`. Trusted: it says whether the two texts are equal
/// once each ASCII upper-case letter is replaced by its lower-case form.
#[verifier::external_body]
pub(crate) fn eq_ignore_case(a: &str, b: &str) -> (same: bool)
    ensures
        same == spec_eq_ignore_case(a@, b@),
{
    a.eq_ignore_ascii_case(b)
}

} // verus!
