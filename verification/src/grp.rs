//! Reader for the GRP flat archive format of the Build engine.
//!
//! A GRP archive is a 16-byte header (12-byte magic constant, then a
//! little-endian `u32` member count `n`), followed by `n` fixed 16-byte
//! directory records (12-byte name field, little-endian `u32` size),
//! followed by the members' raw bytes concatenated in directory order.

use crate::lebytes::{le32_at, read_u32_at};
use vstd::prelude::*;
use vstd::string::StrSliceExecFns;

verus! {

/// The 12-byte magic constant that opens every GRP archive: the bytes of
/// `"KenSilverman"`.
pub open spec fn grp_magic() -> Seq<u8> {
    seq![75u8, 101u8, 110u8, 83u8, 105u8, 108u8, 118u8, 101u8, 114u8, 109u8, 97u8, 110u8]
}

/// How a GRP operation failed.
///
/// `BadMagic`, `OffsetOverflow`: the source is structurally invalid.
/// The `Truncated` variants: the source ended before a fixed-size field
/// that the format requires.
#[derive(Clone, Copy, Debug, PartialEq, Eq, Structural)]
pub enum GrpError {
    /// The source ends before the 16-byte archive header is complete.
    TruncatedHeader,
    /// The first 12 bytes are not the magic constant.
    BadMagic,
    /// The source ends before the directory's `16 * n` bytes are complete.
    TruncatedDirectory,
    /// The declared member sizes add up past what any byte offset can address.
    OffsetOverflow,
    /// The source ends before a member's declared bytes are complete.
    TruncatedPayload,
}

impl GrpError {
    /// A single-line diagnostic cause for the failure.
    pub fn message(&self) -> (r: &'static str)
        ensures
            self is TruncatedHeader ==> r@ == "truncated header"@,
            self is BadMagic ==> r@ == "bad magic"@,
            self is TruncatedDirectory ==> r@ == "truncated directory entry"@,
            self is OffsetOverflow ==> r@ == "member offsets overflow"@,
            self is TruncatedPayload ==> r@ == "truncated member payload"@,
    {
        match self {
            GrpError::TruncatedHeader => "truncated header",
            GrpError::BadMagic => "bad magic",
            GrpError::TruncatedDirectory => "truncated directory entry",
            GrpError::OffsetOverflow => "member offsets overflow",
            GrpError::TruncatedPayload => "truncated member payload",
        }
    }
}

/// Where the directory of an archive with `n` members ends: the 16-byte
/// header plus `n` fixed 16-byte directory records.
pub open spec fn dir_end(n: int) -> int {
    16 + 16 * n
}

/// The raw 12-byte name field of directory record `i`.
pub open spec fn entry_name_at(s: Seq<u8>, i: int) -> Seq<u8>
    recommends
        0 <= i,
        dir_end(i + 1) <= s.len(),
{
    s.subrange(16 + 16 * i, 16 + 16 * i + 12)
}

/// The declared size of directory record `i`.
pub open spec fn entry_size_at(s: Seq<u8>, i: int) -> u32
    recommends
        0 <= i,
        dir_end(i + 1) <= s.len(),
{
    le32_at(s, 16 + 16 * i + 12)
}

/// The declared sizes of the first `i` directory records, added up.
pub open spec fn sizes_sum(s: Seq<u8>, i: int) -> int
    decreases i,
{
    if i <= 0 {
        0
    } else {
        sizes_sum(s, i - 1) + entry_size_at(s, i - 1)
    }
}

/// The derived payload offset of member `i` in an archive of `n` members:
/// the directory's end plus every earlier member's declared size. It is not
/// stored in the archive.
pub open spec fn entry_offset(s: Seq<u8>, n: int, i: int) -> int {
    dir_end(n) + sizes_sum(s, i)
}

/// `e` is directory record `i` of the `n`-member archive `s`, with its
/// derived offset.
pub open spec fn entry_matches(s: Seq<u8>, n: int, i: int, e: GrpFileEntry) -> bool {
    &&& e.name@ == entry_name_at(s, i)
    &&& e.size == entry_size_at(s, i)
    &&& e.offset == entry_offset(s, n, i)
}

/// Running size sums never shrink as more records are counted.
pub proof fn lemma_sizes_sum_monotone(s: Seq<u8>, i: int, j: int)
    requires
        0 <= i <= j,
    ensures
        sizes_sum(s, i) <= sizes_sum(s, j),
    decreases j - i,
{
    if i < j {
        lemma_sizes_sum_monotone(s, i, j - 1);
    }
}

/// The payload layout law: the first member's payload starts right at the
/// directory's end, each member's payload is followed immediately by the
/// next member's, and altogether exactly the sum of the declared sizes
/// follows the directory.
pub proof fn lemma_payload_layout(s: Seq<u8>, n: int)
    requires
        0 <= n,
    ensures
        entry_offset(s, n, 0) == dir_end(n),
        forall|i: int|
            0 <= i < n ==> #[trigger] entry_offset(s, n, i + 1) == entry_offset(s, n, i)
                + entry_size_at(s, i),
        entry_offset(s, n, n) == dir_end(n) + sizes_sum(s, n),
{
}

/// One directory record of a GRP archive, with its derived payload offset.
#[derive(Clone, Copy, Debug, PartialEq, Eq)]
pub struct GrpFileEntry {
    /// The raw 12-byte name field; a trailing run of zero bytes ends the
    /// logical name.
    pub name: [u8; 12],
    /// Derived, not stored: where the member's payload starts in the source.
    pub offset: u64,
    /// The member's declared payload size in bytes.
    pub size: u32,
}

/// Reader over the bytes of one GRP archive.
#[derive(Debug)]
pub struct GrpFileReader {
    /// The member count read from the archive header.
    pub file_count: u32,
    /// The archive's bytes.
    pub data: Vec<u8>,
}

impl GrpFileReader {
    /// The archive's bytes, as the model every contract speaks of.
    pub open spec fn src(&self) -> Seq<u8> {
        self.data@
    }

    /// A constructed reader holds a source with a valid 16-byte header whose
    /// member count it carries.
    pub open spec fn wf(&self) -> bool {
        &&& self.src().len() >= 16
        &&& self.src().subrange(0, 12) == grp_magic()
        &&& self.file_count == le32_at(self.src(), 12)
    }

    /// Validates the archive header of `data` and carries its member count;
    /// the directory is not read yet.
    ///
    /// Fails with `TruncatedHeader` if the source is shorter than the
    /// 16-byte header, and with `BadMagic` if its first 12 bytes are not
    /// `"KenSilverman"` (checked before the member count is read).
    pub fn new(data: Vec<u8>) -> (r: Result<GrpFileReader, GrpError>)
        ensures
            data@.len() < 12 ==> r == Err::<GrpFileReader, GrpError>(GrpError::TruncatedHeader),
            data@.len() >= 12 && data@.subrange(0, 12) != grp_magic() ==> r == Err::<
                GrpFileReader,
                GrpError,
            >(GrpError::BadMagic),
            data@.len() >= 12 && data@.subrange(0, 12) == grp_magic() && data@.len() < 16 ==> r
                == Err::<GrpFileReader, GrpError>(GrpError::TruncatedHeader),
            data@.len() >= 16 && data@.subrange(0, 12) == grp_magic() ==> (r matches Ok(g)
                && g.src() == data@ && g.file_count == le32_at(data@, 12) && g.wf()),
    {
        if data.len() < 12 {
            return Err(GrpError::TruncatedHeader);
        }
        let magic_ok = data[0] == 75 && data[1] == 101 && data[2] == 110 && data[3] == 83
            && data[4] == 105 && data[5] == 108 && data[6] == 118 && data[7] == 101 && data[8]
            == 114 && data[9] == 109 && data[10] == 97 && data[11] == 110;
        proof {
            assert(magic_ok <==> data@.subrange(0, 12) =~= grp_magic());
        }
        if !magic_ok {
            return Err(GrpError::BadMagic);
        }
        if data.len() < 16 {
            return Err(GrpError::TruncatedHeader);
        }
        let file_count = read_u32_at(&data, 12);
        Ok(GrpFileReader { file_count, data })
    }

    /// Reads the whole directory afresh and returns its records in directory
    /// order, each with its derived payload offset.
    ///
    /// Fails with `TruncatedDirectory` if the source ends before the last
    /// directory record, and with `OffsetOverflow` if the declared sizes add
    /// up past `u64::MAX`; no partial sequence is returned. Adjacent records'
    /// offsets differ by exactly the earlier record's declared size.
    pub fn get_file_entries(&self) -> (r: Result<Vec<GrpFileEntry>, GrpError>)
        ensures
            self.src().len() < dir_end(self.file_count as int) ==> r == Err::<
                Vec<GrpFileEntry>,
                GrpError,
            >(GrpError::TruncatedDirectory),
            self.src().len() >= dir_end(self.file_count as int) && entry_offset(
                self.src(),
                self.file_count as int,
                self.file_count as int,
            ) > u64::MAX ==> r == Err::<Vec<GrpFileEntry>, GrpError>(GrpError::OffsetOverflow),
            self.src().len() >= dir_end(self.file_count as int) && entry_offset(
                self.src(),
                self.file_count as int,
                self.file_count as int,
            ) <= u64::MAX ==> (r matches Ok(v) && v@.len() == self.file_count && (forall|i: int|
                0 <= i < self.file_count ==> entry_matches(
                    self.src(),
                    self.file_count as int,
                    i,
                    #[trigger] v@[i],
                )) && (forall|i: int|
                0 <= i && i + 1 < self.file_count ==> #[trigger] v@[i + 1].offset == v@[i].offset
                    + v@[i].size)),
    {
        let ghost s = self.src();
        let ghost n_int = self.file_count as int;
        let n = self.file_count;
        let len_us: usize = self.data.len();
        let len: u64 = len_us as u64;
        let dir_end_64: u64 = 16 + 16 * (n as u64);
        if len < dir_end_64 {
            return Err(GrpError::TruncatedDirectory);
        }
        let mut files: Vec<GrpFileEntry> = Vec::new();
        let mut cur: u64 = dir_end_64;
        let mut i: u32 = 0;
        while i < n
            invariant
                i <= n,
                s == self.src(),
                n == self.file_count,
                n_int == n as int,
                s.len() >= dir_end(n_int),
                len_us as int == s.len(),
                dir_end_64 as int == dir_end(n_int),
                cur == entry_offset(s, n_int, i as int),
                files@.len() == i,
                forall|j: int| 0 <= j < i ==> entry_matches(s, n_int, j, #[trigger] files@[j]),
            decreases n - i,
        {
            let base64: u64 = 16 + 16 * (i as u64);
            proof {
                assert(base64 + 16 <= dir_end_64);
                assert(base64 <= len_us as u64);
            }
            let base: usize = base64 as usize;
            let name_buf: [u8; 12] = [
                self.data[base],
                self.data[base + 1],
                self.data[base + 2],
                self.data[base + 3],
                self.data[base + 4],
                self.data[base + 5],
                self.data[base + 6],
                self.data[base + 7],
                self.data[base + 8],
                self.data[base + 9],
                self.data[base + 10],
                self.data[base + 11],
            ];
            proof {
                assert(name_buf@ =~= entry_name_at(s, i as int));
            }
            let size = read_u32_at(&self.data, base + 12);
            if (size as u64) > u64::MAX - cur {
                proof {
                    lemma_sizes_sum_monotone(s, i as int + 1, n_int);
                }
                return Err(GrpError::OffsetOverflow);
            }
            files.push(GrpFileEntry { name: name_buf, offset: cur, size });
            cur = cur + size as u64;
            i = i + 1;
        }
        proof {
            assert forall|k: int| 0 <= k && k + 1 < n implies #[trigger] files@[k + 1].offset
                == files@[k].offset + files@[k].size by {
                assert(entry_matches(s, n_int, k, files@[k]));
                assert(entry_matches(s, n_int, k + 1, files@[k + 1]));
            }
        }
        Ok(files)
    }

    /// Reads the raw bytes of the member that `entry` describes: exactly
    /// `entry.size` bytes starting at `entry.offset`.
    ///
    /// Fails with `TruncatedPayload` if the source ends before those bytes
    /// do; no checksum or content validation is applied.
    pub fn read_file(&self, entry: &GrpFileEntry) -> (r: Result<Vec<u8>, GrpError>)
        ensures
            entry.offset + entry.size <= self.src().len() ==> (r matches Ok(v) && v@
                == self.src().subrange(
                entry.offset as int,
                entry.offset + entry.size,
            ) && v@.len() == entry.size),
            entry.offset + entry.size > self.src().len() ==> r == Err::<Vec<u8>, GrpError>(
                GrpError::TruncatedPayload,
            ),
    {
        let ghost s = self.src();
        let len_us: usize = self.data.len();
        if entry.offset > len_us as u64 || entry.size as u64 > len_us as u64 - entry.offset {
            return Err(GrpError::TruncatedPayload);
        }
        let off: usize = entry.offset as usize;
        let sz: usize = entry.size as usize;
        let mut out: Vec<u8> = Vec::new();
        let mut j: usize = 0;
        while j < sz
            invariant
                j <= sz,
                s == self.src(),
                len_us as int == s.len(),
                off + sz <= s.len(),
                off as int == entry.offset as int,
                sz == entry.size,
                out@.len() == j,
                forall|k: int| 0 <= k < j ==> out@[k] == s[off + k],
            decreases sz - j,
        {
            out.push(self.data[off + j]);
            j = j + 1;
        }
        proof {
            assert(out@ =~= s.subrange(entry.offset as int, entry.offset + entry.size));
        }
        Ok(out)
    }

    /// Reads the directory and returns the first record in directory order
    /// whose decoded, zero-terminated name equals `file_name`, or `None` if
    /// no record's name does; repeated names keep their first occurrence.
    pub fn find_file_entry(&self, file_name: &str) -> (r: Result<
        Option<GrpFileEntry>,
        GrpError,
    >)
        ensures
            self.src().len() < dir_end(self.file_count as int) ==> r == Err::<
                Option<GrpFileEntry>,
                GrpError,
            >(GrpError::TruncatedDirectory),
            self.src().len() >= dir_end(self.file_count as int) && entry_offset(
                self.src(),
                self.file_count as int,
                self.file_count as int,
            ) > u64::MAX ==> r == Err::<Option<GrpFileEntry>, GrpError>(GrpError::OffsetOverflow),
            self.src().len() >= dir_end(self.file_count as int) && entry_offset(
                self.src(),
                self.file_count as int,
                self.file_count as int,
            ) <= u64::MAX ==> (r matches Ok(o) && (o matches Some(e) ==> exists|i: int|
                #![auto]
                0 <= i < self.file_count && name_match_at(self.src(), i, file_name@) && (
                forall|j: int|
                    0 <= j < i ==> !name_match_at(self.src(), j, file_name@)) && entry_matches(
                    self.src(),
                    self.file_count as int,
                    i,
                    e,
                )) && (o is None ==> forall|i: int|
                0 <= i < self.file_count ==> !name_match_at(self.src(), i, file_name@))),
    {
        let ghost s = self.src();
        let ghost n_int = self.file_count as int;
        let ghost nm = file_name@;
        let entries = match self.get_file_entries() {
            Ok(v) => v,
            Err(e) => {
                return Err(e);
            },
        };
        let count = entries.len();
        let mut t: usize = 0;
        while t < count
            invariant
                s == self.src(),
                n_int == self.file_count as int,
                nm == file_name@,
                s.len() >= dir_end(n_int),
                entry_offset(s, n_int, n_int) <= u64::MAX,
                count == entries@.len(),
                entries@.len() == n_int,
                forall|i: int| 0 <= i < n_int ==> entry_matches(s, n_int, i, #[trigger] entries@[i]),
                0 <= t <= count,
                forall|j: int| 0 <= j < t ==> !name_match_at(s, j, nm),
            decreases count - t,
        {
            let e = entries[t];
            if name_matches(&e.name, file_name) {
                proof {
                    assert(entry_matches(s, n_int, t as int, e));
                    assert(name_match_at(s, t as int, nm));
                    assert(exists|i: int|
                        #![auto]
                        0 <= i < n_int && name_match_at(s, i, nm) && (forall|j: int|
                            0 <= j < i ==> !name_match_at(s, j, nm)) && entry_matches(
                            s,
                            n_int,
                            i,
                            e,
                        ));
                }
                return Ok(Some(e));
            }
            t = t + 1;
        }
        Ok(None)
    }
}

/// `s` spells the decoded, zero-terminated name held in `raw`.
fn name_matches(raw: &[u8; 12], s: &str) -> (b: bool)
    ensures
        b == (decode_name(raw@) == s@),
{
    let mut l: usize = 0;
    while l < 12 && raw[l] != 0
        invariant
            0 <= l <= 12,
            raw@.len() == 12,
            forall|j: int| 0 <= j < l ==> raw@[j] != 0,
        decreases 12 - l,
    {
        l = l + 1;
    }
    proof {
        lemma_zero_term_len(raw@);
        assert(zero_term_len(raw@) == l);
    }
    let slen = s.unicode_len();
    if slen != l {
        return false;
    }
    let mut j: usize = 0;
    while j < l
        invariant
            0 <= j <= l,
            l <= 12,
            raw@.len() == 12,
            l == zero_term_len(raw@),
            s@.len() == l,
            forall|k: int| 0 <= k < j ==> s@[k] == (raw@[k] as char),
        decreases l - j,
    {
        let c = s.get_char(j);
        if c != raw[j] as char {
            proof {
                assert(decode_name(raw@)[j as int] != s@[j as int]);
            }
            return false;
        }
        j = j + 1;
    }
    proof {
        assert(decode_name(raw@) =~= s@);
    }
    true
}

/// Directory record `i`'s decoded, zero-terminated name equals `name`.
pub open spec fn name_match_at(s: Seq<u8>, i: int, name: Seq<char>) -> bool {
    decode_name(entry_name_at(s, i)) == name
}

/// The length of the logical name inside a raw name field: the count of
/// bytes before the first zero byte, or the whole field if none is zero.
pub open spec fn zero_term_len(raw: Seq<u8>) -> int
    decreases raw.len(),
{
    if raw.len() == 0 {
        0
    } else if raw[0] == 0 {
        0
    } else {
        1 + zero_term_len(raw.drop_first())
    }
}

/// What characterizes `zero_term_len`: every byte before it is nonzero, and
/// the byte at it (if any) is zero.
pub proof fn lemma_zero_term_len(raw: Seq<u8>)
    ensures
        0 <= zero_term_len(raw) <= raw.len(),
        forall|j: int| 0 <= j < zero_term_len(raw) ==> raw[j] != 0,
        zero_term_len(raw) < raw.len() ==> raw[zero_term_len(raw)] == 0,
    decreases raw.len(),
{
    if raw.len() > 0 && raw[0] != 0 {
        let t = raw.drop_first();
        lemma_zero_term_len(t);
        assert forall|j: int| 0 <= j < zero_term_len(raw) implies raw[j] != 0 by {
            if j > 0 {
                assert(t[j - 1] != 0);
            }
        }
    }
}

/// The decoded, zero-terminated form of a raw name field: each byte before
/// the first zero byte read as the single-byte character of the same value.
pub open spec fn decode_name(raw: Seq<u8>) -> Seq<char> {
    Seq::new(zero_term_len(raw) as nat, |i: int| raw[i] as char)
}

/// Relies on `String::push`: appends exactly the one character.
#[verifier::external_body]
fn push_char(s: &mut String, c: char)
    ensures
        final(s)@ == old(s)@.push(c),
{
    s.push(c);
}

impl GrpFileEntry {
    /// The member's logical name: the name field decoded byte-for-byte up
    /// to (not including) its first zero byte.
    pub fn name(&self) -> (r: String)
        ensures
            r@ == decode_name(self.name@),
    {
        let mut out = String::new();
        let mut i: usize = 0;
        while i < 12 && self.name[i] != 0
            invariant
                0 <= i <= 12,
                self.name@.len() == 12,
                forall|j: int| 0 <= j < i ==> self.name@[j] != 0,
                out@.len() == i,
                forall|j: int| 0 <= j < i ==> out@[j] == (self.name@[j] as char),
            decreases 12 - i,
        {
            push_char(&mut out, self.name[i] as char);
            i = i + 1;
        }
        proof {
            lemma_zero_term_len(self.name@);
            assert(zero_term_len(self.name@) == i);
            assert(out@ =~= decode_name(self.name@));
        }
        out
    }
}

} // verus!
