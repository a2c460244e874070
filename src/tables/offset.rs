use vstd::prelude::*;
use crate::error::FontError;
use crate::reader::{FontReader, byte_or_zero, u16_at, u32_at};

verus! {

/// The tag `head`, as its four bytes read big-endian.
pub const TAG_HEAD: u32 = 0x68656164;
/// The tag `maxp`.
pub const TAG_MAXP: u32 = 0x6d617870;
/// The tag `cmap`.
pub const TAG_CMAP: u32 = 0x636d6170;
/// The tag `hhea`.
pub const TAG_HHEA: u32 = 0x68686561;
/// The tag `hmtx`.
pub const TAG_HMTX: u32 = 0x686d7478;
/// The tag `loca`.
pub const TAG_LOCA: u32 = 0x6c6f6361;
/// The tag `glyf`.
pub const TAG_GLYF: u32 = 0x676c7966;
/// The tag `name`.
pub const TAG_NAME: u32 = 0x6e616d65;

/// Where a table lies in the file, and its stored checksum.
#[derive(Clone, Copy, Debug, PartialEq, Eq, Structural)]
pub struct OffsetTable {
    pub checksum: u32,
    pub offset: u32,
    pub length: u32,
}

/// One record of the table directory: a tag and where its table lies.
#[derive(Clone, Copy, Debug, PartialEq, Eq, Structural)]
pub struct TableEntry {
    pub tag: u32,
    pub table: OffsetTable,
}

/// The table directory, in file order.
#[derive(Clone, Debug)]
pub struct TableDirectory {
    pub entries: Vec<TableEntry>,
}

/// The directory record whose 16 bytes start at `p`.
pub open spec fn entry_at(s: Seq<u8>, p: int) -> TableEntry {
    TableEntry {
        tag: u32_at(s, p),
        table: OffsetTable {
            checksum: u32_at(s, p + 4),
            offset: u32_at(s, p + 8),
            length: u32_at(s, p + 12),
        },
    }
}

/// Number of 32-bit words that cover `length` bytes.
pub open spec fn word_count(length: u32) -> nat {
    ((length as nat + 3) / 4) as nat
}

/// Wrapping sum of the first `n` big-endian words at `off`, bytes past the end read as zero.
pub open spec fn table_sum(s: Seq<u8>, off: int, n: nat) -> u32
    decreases n,
{
    if n == 0 {
        0
    } else {
        ((table_sum(s, off, (n - 1) as nat) as int + u32_at(s, off + 4 * (n - 1))) % 0x1_0000_0000) as u32
    }
}

/// The checksum of a table region of `length` bytes at `off`.
pub open spec fn region_checksum(s: Seq<u8>, off: u32, length: u32) -> u32 {
    table_sum(s, off as int, word_count(length))
}

/// Whether the stored checksum of `e` is honoured, `head` being exempt.
#[verifier::opaque]
pub open spec fn entry_checks(s: Seq<u8>, e: TableEntry) -> bool {
    e.tag == TAG_HEAD || region_checksum(s, e.table.offset, e.table.length) == e.table.checksum
}

/// The first `k` records of a directory at `p`, or the first failure met while reading them.
pub open spec fn directory_prefix(s: Seq<u8>, p: int, k: nat) -> Result<Seq<TableEntry>, FontError>
    decreases k,
{
    if k == 0 {
        Ok(Seq::empty())
    } else {
        match directory_prefix(s, p, (k - 1) as nat) {
            Err(e) => Err(e),
            Ok(es) => {
                if p + 16 * k > s.len() {
                    Err(FontError::UnexpectedEndOfFile)
                } else {
                    let e = entry_at(s, p + 16 * (k - 1));
                    if entry_checks(s, e) {
                        Ok(es.push(e))
                    } else {
                        Err(FontError::ChecksumMismatch { tag: e.tag })
                    }
                }
            },
        }
    }
}

/// The last entry of `es` with tag `tag`, if any.
pub open spec fn lookup(es: Seq<TableEntry>, tag: u32) -> Option<OffsetTable>
    decreases es.len(),
{
    if es.len() == 0 {
        None
    } else if es.last().tag == tag {
        Some(es.last().table)
    } else {
        lookup(es.drop_last(), tag)
    }
}

/// Byte `i` of the buffer, or zero past its end.
fn byte_at(data: &Vec<u8>, i: u64) -> (b: u8)
    ensures
        b == byte_or_zero(data@, i as int),
{
    if i < data.len() as u64 {
        data[i as usize]
    } else {
        0
    }
}

/// The big-endian word at `i`, bytes past the end of the buffer read as zero.
fn padded_word_at(data: &Vec<u8>, i: u64) -> (w: u32)
    requires
        i + 3 <= u64::MAX,
    ensures
        w == u32_at(data@, i as int),
{
    let b0 = byte_at(data, i) as u32;
    let b1 = byte_at(data, i + 1) as u32;
    let b2 = byte_at(data, i + 2) as u32;
    let b3 = byte_at(data, i + 3) as u32;
    (b0 * 256 + b1) * 65536 + (b2 * 256 + b3)
}

/// The checksum of the table region of `length` bytes at `offset`: the wrapping
/// sum of its big-endian words, the last one padded with zeros. The cursor does
/// not move.
pub fn table_cs(r: &mut FontReader, offset: u32, length: u32) -> (sum: u32)
    ensures
        final(r).pos == old(r).pos,
        final(r).data@ == old(r).data@,
        sum == region_checksum(old(r).data@, offset, length),
{
    let words: u64 = (length as u64 + 3) / 4;
    let mut sum: u32 = 0;
    let mut i: u64 = 0;
    while i < words
        invariant
            i <= words,
            words == word_count(length),
            sum == table_sum(r.data@, offset as int, i as nat),
        decreases words - i,
    {
        let word = padded_word_at(&r.data, offset as u64 + 4 * i);
        sum = sum.wrapping_add(word);
        i = i + 1;
    }
    sum
}

impl TableDirectory {
    /// The table registered under `tag`; on duplicates the last record wins.
    pub fn get(&self, tag: u32) -> (r: Option<OffsetTable>)
        ensures
            r == lookup(self.entries@, tag),
    {
        let mut i: usize = self.entries.len();
        assert(self.entries@.take(i as int) =~= self.entries@);
        while i > 0
            invariant
                i <= self.entries@.len(),
                lookup(self.entries@, tag) == lookup(self.entries@.take(i as int), tag),
            decreases i,
        {
            let e = self.entries[i - 1];
            assert(self.entries@.take(i as int).drop_last() =~= self.entries@.take(i - 1));
            if e.tag == tag {
                return Some(e.table);
            }
            i = i - 1;
        }
        None
    }
}

/// Once reading the directory has failed, reading more records fails the same way.
pub proof fn lemma_directory_error_persists(s: Seq<u8>, p: int, k: nat, n: nat)
    requires
        k <= n,
        directory_prefix(s, p, k) is Err,
    ensures
        directory_prefix(s, p, n) == directory_prefix(s, p, k),
    decreases n - k,
{
    if k < n {
        lemma_directory_error_persists(s, p, k, (n - 1) as nat);
    }
}

/// Reads one 16-byte directory record at the cursor.
fn read_entry(r: &mut FontReader) -> (res: Result<TableEntry, FontError>)
    ensures
        final(r).data@ == old(r).data@,
        match res {
            Ok(e) => old(r).has(16) && e == entry_at(old(r).data@, old(r).pos as int)
                && final(r).pos == old(r).pos + 16,
            Err(e) => !old(r).has(16) && e == FontError::UnexpectedEndOfFile,
        },
{
    let tag = r.get_uint32()?;
    let checksum = r.get_uint32()?;
    let offset = r.get_uint32()?;
    let length = r.get_uint32()?;
    Ok(TableEntry { tag, table: OffsetTable { checksum, offset, length } })
}

/// Reads `numtables` directory records at the cursor, verifying the checksum of
/// each table but `head` as soon as its record is read.
pub fn read(r: &mut FontReader, numtables: u16) -> (res: Result<TableDirectory, FontError>)
    ensures
        final(r).data@ == old(r).data@,
        match res {
            Ok(d) => directory_prefix(old(r).data@, old(r).pos as int, numtables as nat)
                == Ok::<Seq<TableEntry>, FontError>(d.entries@)
                && final(r).pos == old(r).pos + 16 * numtables,
            Err(e) => directory_prefix(old(r).data@, old(r).pos as int, numtables as nat)
                == Err::<Seq<TableEntry>, FontError>(e),
        },
{
    let ghost s = r.data@;
    let ghost p = r.pos as int;
    let mut entries: Vec<TableEntry> = Vec::new();
    let mut k: u16 = 0;
    while k < numtables
        invariant
            k <= numtables,
            s == old(r).data@,
            p == old(r).pos,
            r.data@ == s,
            r.pos == p + 16 * k,
            directory_prefix(s, p, k as nat) == Ok::<Seq<TableEntry>, FontError>(entries@),
        decreases numtables - k,
    {
        let ghost pre = entries@;
        let entry = match read_entry(r) {
            Ok(e) => e,
            Err(e) => {
                proof {
                    assert(p + 16 * (k + 1) > s.len());
                    assert(directory_prefix(s, p, (k + 1) as nat) == Err::<Seq<TableEntry>, FontError>(e));
                    lemma_directory_error_persists(s, p, (k + 1) as nat, numtables as nat);
                }
                return Err(e);
            },
        };
        let tag = entry.tag;
        assert(p + 16 * (k + 1) <= s.len());
        assert(entry == entry_at(s, p + 16 * k));
        entries.push(entry);
        let ok = tag == TAG_HEAD || table_cs(r, entry.table.offset, entry.table.length) == entry.table.checksum;
        assert(ok == entry_checks(s, entry)) by {
            reveal(entry_checks);
        }
        if !ok {
            proof {
                assert(directory_prefix(s, p, (k + 1) as nat) == Err::<Seq<TableEntry>, FontError>(FontError::ChecksumMismatch { tag }));
                lemma_directory_error_persists(s, p, (k + 1) as nat, numtables as nat);
            }
            return Err(FontError::ChecksumMismatch { tag });
        }
        assert(directory_prefix(s, p, (k + 1) as nat) == Ok::<Seq<TableEntry>, FontError>(entries@));
        k = k + 1;
    }
    Ok(TableDirectory { entries })
}

/// Every record that the directory reader accepts honours its checksum.
pub proof fn lemma_directory_checksums(s: Seq<u8>, p: int, n: nat)
    ensures
        directory_prefix(s, p, n) is Ok ==> forall|i: int| 0 <= i < directory_prefix(s, p, n)->Ok_0.len()
            ==> entry_checks(s, #[trigger] directory_prefix(s, p, n)->Ok_0[i]),
    decreases n,
{
    if n > 0 {
        lemma_directory_checksums(s, p, (n - 1) as nat);
    }
}

/// Whether `s` and `t` read alike (bytes past the end as zero) on `[lo, hi)`.
pub open spec fn same_bytes(s: Seq<u8>, t: Seq<u8>, lo: int, hi: int) -> bool {
    forall|i: int| lo <= i < hi ==> byte_or_zero(s, i) == byte_or_zero(t, i)
}

/// The bytes covered by the checksum of a table region.
pub open spec fn region_end(e: TableEntry) -> int {
    e.table.offset + 4 * word_count(e.table.length)
}

/// `u32_at` spelled out byte by byte.
pub proof fn lemma_u32_at_bytes(s: Seq<u8>, q: int)
    ensures
        u32_at(s, q) == byte_or_zero(s, q) * 0x100_0000 + byte_or_zero(s, q + 1) * 0x1_0000
            + byte_or_zero(s, q + 2) * 0x100 + byte_or_zero(s, q + 3),
{
    assert(0 <= byte_or_zero(s, q) * 256 + byte_or_zero(s, q + 1) < 0x1_0000);
    assert(0 <= byte_or_zero(s, q + 2) * 256 + byte_or_zero(s, q + 3) < 0x1_0000);
    assert(u16_at(s, q) == byte_or_zero(s, q) * 256 + byte_or_zero(s, q + 1));
    assert(u16_at(s, q + 2) == byte_or_zero(s, q + 2) * 256 + byte_or_zero(s, q + 3));
}

/// A word reads alike wherever its four bytes do.
pub proof fn lemma_u32_at_frame(s: Seq<u8>, t: Seq<u8>, q: int)
    requires
        same_bytes(s, t, q, q + 4),
    ensures
        u32_at(s, q) == u32_at(t, q),
{
    assert(byte_or_zero(s, q + 1) == byte_or_zero(t, q + 1));
    assert(byte_or_zero(s, q + 2) == byte_or_zero(t, q + 2));
    assert(byte_or_zero(s, q + 3) == byte_or_zero(t, q + 3));
    lemma_u32_at_bytes(s, q);
    lemma_u32_at_bytes(t, q);
}

/// A word reads differently when exactly one of its bytes differs.
pub proof fn lemma_u32_at_sees_byte(s: Seq<u8>, t: Seq<u8>, q: int, j: int)
    requires
        q <= j < q + 4,
        byte_or_zero(s, j) != byte_or_zero(t, j),
        forall|i: int| q <= i < q + 4 && i != j ==> byte_or_zero(s, i) == byte_or_zero(t, i),
    ensures
        u32_at(s, q) != u32_at(t, q),
{
    lemma_u32_at_bytes(s, q);
    lemma_u32_at_bytes(t, q);
    assert(q == j || byte_or_zero(s, q) == byte_or_zero(t, q));
    assert(q + 1 == j || byte_or_zero(s, q + 1) == byte_or_zero(t, q + 1));
    assert(q + 2 == j || byte_or_zero(s, q + 2) == byte_or_zero(t, q + 2));
    assert(q + 3 == j || byte_or_zero(s, q + 3) == byte_or_zero(t, q + 3));
}

/// A region sums alike wherever its bytes read alike.
pub proof fn lemma_table_sum_frame(s: Seq<u8>, t: Seq<u8>, off: int, n: nat)
    requires
        same_bytes(s, t, off, off + 4 * n),
    ensures
        table_sum(s, off, n) == table_sum(t, off, n),
    decreases n,
{
    if n > 0 {
        lemma_table_sum_frame(s, t, off, (n - 1) as nat);
        lemma_u32_at_frame(s, t, off + 4 * (n - 1));
    }
}

/// The directory reads alike in `t` when its records read alike and so does
/// the checked region of every table but `head` that it lists.
pub proof fn lemma_directory_frame(s: Seq<u8>, t: Seq<u8>, p: int, k: nat)
    requires
        s.len() == t.len(),
        same_bytes(s, t, p, p + 16 * k),
        directory_prefix(s, p, k) is Ok,
        forall|i: int| 0 <= i < directory_prefix(s, p, k)->Ok_0.len()
            && (#[trigger] directory_prefix(s, p, k)->Ok_0[i]).tag != TAG_HEAD
            ==> same_bytes(s, t, directory_prefix(s, p, k)->Ok_0[i].table.offset as int,
                region_end(directory_prefix(s, p, k)->Ok_0[i])),
    ensures
        directory_prefix(t, p, k) == directory_prefix(s, p, k),
    decreases k,
{
    if k > 0 {
        let es = directory_prefix(s, p, k)->Ok_0;
        let prev = directory_prefix(s, p, (k - 1) as nat)->Ok_0;
        assert(es.drop_last() =~= prev);
        assert forall|i: int| 0 <= i < prev.len() && (#[trigger] prev[i]).tag != TAG_HEAD implies
            same_bytes(s, t, prev[i].table.offset as int, region_end(prev[i])) by {
            assert(prev[i] == es[i]);
        }
        lemma_directory_frame(s, t, p, (k - 1) as nat);
        let q = p + 16 * (k - 1);
        lemma_u32_at_frame(s, t, q);
        lemma_u32_at_frame(s, t, q + 4);
        lemma_u32_at_frame(s, t, q + 8);
        lemma_u32_at_frame(s, t, q + 12);
        let e = entry_at(s, q);
        assert(entry_at(t, q) == e);
        assert(es.last() == e);
        if e.tag != TAG_HEAD {
            lemma_table_sum_frame(s, t, e.table.offset as int, word_count(e.table.length));
        }
        assert(entry_checks(t, e) == entry_checks(s, e)) by {
            reveal(entry_checks);
        }
    }
}

/// A successful directory read of `n` records holds its shorter reads as prefixes.
pub proof fn lemma_directory_prefixes(s: Seq<u8>, p: int, k: nat, n: nat)
    requires
        k <= n,
        directory_prefix(s, p, n) is Ok,
    ensures
        directory_prefix(s, p, k) is Ok,
        directory_prefix(s, p, n)->Ok_0.len() == n,
        directory_prefix(s, p, k)->Ok_0 == directory_prefix(s, p, n)->Ok_0.take(k as int),
    decreases n,
{
    if n > 0 {
        if directory_prefix(s, p, (n - 1) as nat) is Err {
            assert(directory_prefix(s, p, n) is Err);
        }
        lemma_directory_prefixes(s, p, (n - 1) as nat, (n - 1) as nat);
        let es = directory_prefix(s, p, n)->Ok_0;
        assert(es.take((n - 1) as int) =~= directory_prefix(s, p, (n - 1) as nat)->Ok_0);
        if k < n {
            lemma_directory_prefixes(s, p, k, (n - 1) as nat);
            assert(es.take((n - 1) as int).take(k as int) =~= es.take(k as int));
        } else {
            assert(es.take(n as int) =~= es);
        }
    }
}

/// The wrapping sum of a region changes when exactly one of its bytes does.
pub proof fn lemma_table_sum_sees_byte(s: Seq<u8>, t: Seq<u8>, off: int, n: nat, j: int)
    requires
        off <= j < off + 4 * n,
        byte_or_zero(s, j) != byte_or_zero(t, j),
        forall|i: int| off <= i < off + 4 * n && i != j ==> byte_or_zero(s, i) == byte_or_zero(t, i),
    ensures
        table_sum(s, off, n) != table_sum(t, off, n),
{
    let w = (j - off) / 4;
    let q = off + 4 * w;
    assert forall|i: int| q <= i < q + 4 && i != j implies byte_or_zero(s, i) == byte_or_zero(t, i) by {}
    lemma_u32_at_sees_byte(s, t, q, j);
    let delta = u32_at(t, q) - u32_at(s, q) + 0x1_0000_0000;
    lemma_table_sum_shift(s, t, off, n, j, delta);
    let ss = table_sum(s, off, n) as int;
    assert((ss + delta) % 0x1_0000_0000 != ss);
}

/// Adding `y` instead of `x` to a running sum moves it by `y - x` modulo 2^32.
proof fn lemma_mod_swap_word(a: int, x: int, y: int, delta: int)
    requires
        0 <= a < 0x1_0000_0000,
        0 <= x < 0x1_0000_0000,
        0 <= y < 0x1_0000_0000,
        delta == y - x + 0x1_0000_0000,
    ensures
        (a + y) % 0x1_0000_0000 == ((a + x) % 0x1_0000_0000 + delta) % 0x1_0000_0000,
{
}

/// A shift by `delta` modulo 2^32 survives adding the same word to both sums.
proof fn lemma_mod_carry_shift(a: int, b: int, x: int, delta: int)
    requires
        0 <= a < 0x1_0000_0000,
        0 <= x < 0x1_0000_0000,
        0 < delta < 0x2_0000_0000,
        b == (a + delta) % 0x1_0000_0000,
    ensures
        (b + x) % 0x1_0000_0000 == ((a + x) % 0x1_0000_0000 + delta) % 0x1_0000_0000,
{
}

/// Beyond the word holding byte `j`, the two sums differ by `delta` modulo 2^32.
proof fn lemma_table_sum_shift(s: Seq<u8>, t: Seq<u8>, off: int, m: nat, j: int, delta: int)
    requires
        off <= j,
        delta == u32_at(t, off + 4 * ((j - off) / 4)) - u32_at(s, off + 4 * ((j - off) / 4)) + 0x1_0000_0000,
        forall|i: int| off <= i < off + 4 * m && i != j ==> byte_or_zero(s, i) == byte_or_zero(t, i),
    ensures
        m > (j - off) / 4 ==> table_sum(t, off, m) == (table_sum(s, off, m) + delta) % 0x1_0000_0000,
        m <= (j - off) / 4 ==> table_sum(t, off, m) == table_sum(s, off, m),
    decreases m,
{
    let w = (j - off) / 4;
    if m > 0 {
        lemma_table_sum_shift(s, t, off, (m - 1) as nat, j, delta);
        let q = off + 4 * (m - 1);
        let a = table_sum(s, off, (m - 1) as nat) as int;
        let b = table_sum(t, off, (m - 1) as nat) as int;
        if m - 1 != w {
            assert(j < q || j >= q + 4);
            lemma_u32_at_frame(s, t, q);
        }
        if m - 1 == w {
            lemma_mod_swap_word(a, u32_at(s, q) as int, u32_at(t, q) as int, delta);
        } else if m - 1 > w {
            lemma_mod_carry_shift(a, b, u32_at(s, q) as int, delta);
        }
    }
}

} // verus!
