//! Minimal BTF parser for resolving struct field byte offsets from the kernel's
//! `/sys/kernel/btf/vmlinux`. Only supports `BTF_KIND_STRUCT` member lookups —
//! just enough to read `task_struct`, `cred`, `signal_struct`, and `tty_struct`
//! field positions at runtime.
//!
//! BTF is written in the kernel's byte order; this parser reads it as the
//! little-endian hosts the recorder runs on do, so data of the other byte
//! order is refused by its magic number.

use vstd::prelude::*;
use vstd::utf8::{decode_utf8, valid_utf8};

use crate::bytes::{le_u32, read_u32};
use crate::common::offsets::TaskFieldOffsets;
use crate::text::{dec, hex, owned, push_hex, push_str, push_u64, str_eq};
use crate::utf8::from_utf8;

verus! {

// BTF format constants (from include/uapi/linux/btf.h).
/// The magic number at the start of BTF data.
pub const BTF_MAGIC: u16 = 0xEB9F;

/// The kind of a struct type.
pub const BTF_KIND_STRUCT: u32 = 4;

/// Why BTF data could not be read or did not hold what was looked up.
#[derive(Debug, Clone)]
pub enum BtfError {
    /// Shorter than a header.
    TooShort,
    /// The magic number is not `0xEB9F`.
    BadMagic { magic: u16 },
    /// The header length is below 24 or beyond the data.
    BadHeaderLength { hdr_len: u32 },
    /// The end of the type section is not addressable.
    TypeSectionOverflow,
    /// The start of the string section is not addressable.
    StringSectionOverflow,
    /// The end of the string section is not addressable.
    StringTableOverflow,
    /// A section lies beyond the data, or the strings start inside the types.
    SectionsOutOfBounds,
    /// A name offset points past the string table.
    StringOffsetOutOfRange { offset: u32 },
    /// A name is not valid UTF-8.
    InvalidUtf8,
    /// A struct's member list runs past the type section.
    TruncatedMembers { struct_name: String },
    /// The struct has no member of that name.
    FieldNotFound { field_name: String, struct_name: String },
    /// No struct of that name.
    StructNotFound { struct_name: String },
    /// The type walk's position is not addressable.
    WalkOverflow,
}

/// What a `BtfError` says, with names as text.
pub enum BtfFailure {
    TooShort,
    BadMagic(u16),
    BadHeaderLength(u32),
    TypeSectionOverflow,
    StringSectionOverflow,
    StringTableOverflow,
    SectionsOutOfBounds,
    StringOffsetOutOfRange(u32),
    InvalidUtf8,
    TruncatedMembers(Seq<char>),
    FieldNotFound(Seq<char>, Seq<char>),
    StructNotFound(Seq<char>),
    WalkOverflow,
}

impl View for BtfError {
    type V = BtfFailure;

    open spec fn view(&self) -> BtfFailure {
        match self {
            BtfError::TooShort => BtfFailure::TooShort,
            BtfError::BadMagic { magic } => BtfFailure::BadMagic(*magic),
            BtfError::BadHeaderLength { hdr_len } => BtfFailure::BadHeaderLength(*hdr_len),
            BtfError::TypeSectionOverflow => BtfFailure::TypeSectionOverflow,
            BtfError::StringSectionOverflow => BtfFailure::StringSectionOverflow,
            BtfError::StringTableOverflow => BtfFailure::StringTableOverflow,
            BtfError::SectionsOutOfBounds => BtfFailure::SectionsOutOfBounds,
            BtfError::StringOffsetOutOfRange { offset } => BtfFailure::StringOffsetOutOfRange(*offset),
            BtfError::InvalidUtf8 => BtfFailure::InvalidUtf8,
            BtfError::TruncatedMembers { struct_name } => BtfFailure::TruncatedMembers(struct_name@),
            BtfError::FieldNotFound { field_name, struct_name } => BtfFailure::FieldNotFound(
                field_name@,
                struct_name@,
            ),
            BtfError::StructNotFound { struct_name } => BtfFailure::StructNotFound(struct_name@),
            BtfError::WalkOverflow => BtfFailure::WalkOverflow,
        }
    }
}

/// The text of a failure.
pub open spec fn failure_text(f: BtfFailure) -> Seq<char> {
    match f {
        BtfFailure::TooShort => "BTF data too short"@,
        BtfFailure::BadMagic(m) => "bad BTF magic: 0x"@ + hex(m as nat),
        BtfFailure::BadHeaderLength(h) => "invalid BTF header length "@ + dec(h as nat),
        BtfFailure::TypeSectionOverflow => "BTF type section overflows header bounds"@,
        BtfFailure::StringSectionOverflow => "BTF string section overflows header bounds"@,
        BtfFailure::StringTableOverflow => "BTF string table overflows header bounds"@,
        BtfFailure::SectionsOutOfBounds => "BTF sections extend beyond the input buffer"@,
        BtfFailure::StringOffsetOutOfRange(o) => "BTF string offset "@ + dec(o as nat)
            + " outside string table"@,
        BtfFailure::InvalidUtf8 => "BTF string table contains invalid UTF-8"@,
        BtfFailure::TruncatedMembers(s) => "truncated BTF struct member list for '"@ + s + "'"@,
        BtfFailure::FieldNotFound(f, s) => "field '"@ + f + "' not found in struct '"@ + s + "'"@,
        BtfFailure::StructNotFound(s) => "struct '"@ + s + "' not found in kernel BTF"@,
        BtfFailure::WalkOverflow => "BTF type walk overflowed"@,
    }
}

impl BtfError {
    /// The error's message.
    pub fn message(&self) -> (r: String)
        ensures
            r@ == failure_text(self@),
    {
        match self {
            BtfError::TooShort => owned("BTF data too short"),
            BtfError::BadMagic { magic } => {
                let mut s = owned("bad BTF magic: 0x");
                push_hex(&mut s, *magic as u64);
                s
            },
            BtfError::BadHeaderLength { hdr_len } => {
                let mut s = owned("invalid BTF header length ");
                push_u64(&mut s, *hdr_len as u64);
                s
            },
            BtfError::TypeSectionOverflow => owned("BTF type section overflows header bounds"),
            BtfError::StringSectionOverflow => owned("BTF string section overflows header bounds"),
            BtfError::StringTableOverflow => owned("BTF string table overflows header bounds"),
            BtfError::SectionsOutOfBounds => owned("BTF sections extend beyond the input buffer"),
            BtfError::StringOffsetOutOfRange { offset } => {
                let mut s = owned("BTF string offset ");
                push_u64(&mut s, *offset as u64);
                push_str(&mut s, " outside string table");
                s
            },
            BtfError::InvalidUtf8 => owned("BTF string table contains invalid UTF-8"),
            BtfError::TruncatedMembers { struct_name } => {
                let mut s = owned("truncated BTF struct member list for '");
                push_str(&mut s, struct_name.as_str());
                push_str(&mut s, "'");
                s
            },
            BtfError::FieldNotFound { field_name, struct_name } => {
                let mut s = owned("field '");
                push_str(&mut s, field_name.as_str());
                push_str(&mut s, "' not found in struct '");
                push_str(&mut s, struct_name.as_str());
                push_str(&mut s, "'");
                s
            },
            BtfError::StructNotFound { struct_name } => {
                let mut s = owned("struct '");
                push_str(&mut s, struct_name.as_str());
                push_str(&mut s, "' not found in kernel BTF");
                s
            },
            BtfError::WalkOverflow => owned("BTF type walk overflowed"),
        }
    }
}

/// Where the sections of BTF data lie.
#[derive(Debug, Clone, Copy, PartialEq, Eq, Structural)]
pub struct BtfLayout {
    pub hdr_len: usize,
    pub type_off: usize,
    pub type_len: usize,
    pub str_off: usize,
    pub str_len: usize,
}

/// The header length, section offsets and lengths stored in the header.
pub open spec fn hdr_field(d: Seq<u8>, i: int) -> u32 {
    le_u32(d, 4 + 4 * i)
}

/// The layout of BTF data, or why it is refused: the header must be
/// complete, carry the magic number, have a length of at least 24 within
/// the data, and both sections must lie within the data with the strings
/// after the types.
pub open spec fn parse_layout(d: Seq<u8>) -> Result<BtfLayout, BtfFailure> {
    if d.len() < 24 {
        Err(BtfFailure::TooShort)
    } else if d[0] as int + d[1] as int * 256 != 0xEB9F {
        Err(BtfFailure::BadMagic((d[0] as int + d[1] as int * 256) as u16))
    } else {
        let hdr_len = hdr_field(d, 0);
        let type_off = hdr_field(d, 1);
        let type_len = hdr_field(d, 2);
        let str_off = hdr_field(d, 3);
        let str_len = hdr_field(d, 4);
        if hdr_len < 24 || hdr_len > d.len() {
            Err(BtfFailure::BadHeaderLength(hdr_len))
        } else if hdr_len + type_off + type_len > usize::MAX {
            Err(BtfFailure::TypeSectionOverflow)
        } else if hdr_len + str_off > usize::MAX {
            Err(BtfFailure::StringSectionOverflow)
        } else if hdr_len + str_off + str_len > usize::MAX {
            Err(BtfFailure::StringTableOverflow)
        } else if hdr_len + type_off + type_len > d.len() || hdr_len + str_off + str_len > d.len()
            || hdr_len + str_off < hdr_len + type_off + type_len {
            Err(BtfFailure::SectionsOutOfBounds)
        } else {
            Ok(
                BtfLayout {
                    hdr_len: hdr_len as usize,
                    type_off: type_off as usize,
                    type_len: type_len as usize,
                    str_off: str_off as usize,
                    str_len: str_len as usize,
                },
            )
        }
    }
}

/// Whether a layout lies within data of length `len`.
pub open spec fn layout_fits(l: BtfLayout, len: nat) -> bool {
    &&& l.hdr_len + l.type_off + l.type_len <= len
    &&& l.hdr_len + l.str_off + l.str_len <= len
}

/// Parsed BTF data: the raw bytes and where their sections lie.
#[derive(Debug)]
pub struct Btf {
    data: Vec<u8>,
    layout: BtfLayout,
}

impl Btf {
    /// The bytes.
    pub closed spec fn bytes(&self) -> Seq<u8> {
        self.data@
    }

    /// Where the sections lie.
    pub closed spec fn sections(&self) -> BtfLayout {
        self.layout
    }

    /// Whether the sections lie within the bytes (every parsed value).
    pub closed spec fn wf(&self) -> bool {
        layout_fits(self.layout, self.data@.len())
    }

    /// Parse BTF data from raw bytes.
    pub fn from_bytes(data: Vec<u8>) -> (r: Result<Btf, BtfError>)
        ensures
            match r {
                Ok(b) => {
                    &&& b.wf()
                    &&& b.bytes() == data@
                    &&& parse_layout(data@) == Ok::<BtfLayout, BtfFailure>(b.sections())
                },
                Err(e) => parse_layout(data@) == Err::<BtfLayout, BtfFailure>(e@),
            },
    {
        if data.len() < 24 {
            return Err(BtfError::TooShort);
        }
        let magic: u32 = data[0] as u32 + data[1] as u32 * 256;
        if magic != 0xEB9F {
            return Err(BtfError::BadMagic { magic: magic as u16 });
        }
        let hdr_len = read_u32(&data, 4);
        let type_off = read_u32(&data, 8);
        let type_len = read_u32(&data, 12);
        let str_off = read_u32(&data, 16);
        let str_len = read_u32(&data, 20);
        if hdr_len < 24 || hdr_len as u64 > data.len() as u64 {
            return Err(BtfError::BadHeaderLength { hdr_len });
        }
        let type_end: u64 = hdr_len as u64 + type_off as u64 + type_len as u64;
        if type_end > usize::MAX as u64 {
            return Err(BtfError::TypeSectionOverflow);
        }
        let str_start: u64 = hdr_len as u64 + str_off as u64;
        if str_start > usize::MAX as u64 {
            return Err(BtfError::StringSectionOverflow);
        }
        let str_end: u64 = str_start + str_len as u64;
        if str_end > usize::MAX as u64 {
            return Err(BtfError::StringTableOverflow);
        }
        let len = data.len() as u64;
        if type_end > len || str_end > len || str_start < type_end {
            return Err(BtfError::SectionsOutOfBounds);
        }
        let layout = BtfLayout {
            hdr_len: hdr_len as usize,
            type_off: type_off as usize,
            type_len: type_len as usize,
            str_off: str_off as usize,
            str_len: str_len as usize,
        };
        Ok(Btf { data, layout })
    }
}

/// Where the string section starts.
pub open spec fn str_base(l: BtfLayout) -> int {
    l.hdr_len + l.str_off
}

/// Where the string section ends.
pub open spec fn str_end(l: BtfLayout) -> int {
    l.hdr_len + l.str_off + l.str_len
}

/// Where the type section starts.
pub open spec fn type_base(l: BtfLayout) -> int {
    l.hdr_len + l.type_off
}

/// Where the type section ends.
pub open spec fn type_end(l: BtfLayout) -> int {
    l.hdr_len + l.type_off + l.type_len
}

/// The position of the first NUL byte in `d[start..end]`, else `end`.
pub open spec fn nul_or_end(d: Seq<u8>, start: int, end: int) -> int
    decreases end - start,
{
    if start >= end {
        end
    } else if d[start] == 0 {
        start
    } else {
        nul_or_end(d, start + 1, end)
    }
}

/// The NUL-terminated name at `offset` in the string table: it ends at its
/// NUL or at the end of the table, and must be valid UTF-8.
pub open spec fn string_at(d: Seq<u8>, l: BtfLayout, offset: u32) -> Result<Seq<char>, BtfFailure> {
    let start = str_base(l) + offset;
    if start >= str_end(l) {
        Err(BtfFailure::StringOffsetOutOfRange(offset))
    } else {
        let bytes = d.subrange(start, nul_or_end(d, start, str_end(l)));
        if valid_utf8(bytes) {
            Ok(decode_utf8(bytes))
        } else {
            Err(BtfFailure::InvalidUtf8)
        }
    }
}

proof fn lemma_nul_or_end(d: Seq<u8>, start: int, end: int)
    requires
        start <= end,
    ensures
        start <= nul_or_end(d, start, end) <= end,
        forall|k: int| start <= k < nul_or_end(d, start, end) ==> d[k] != 0,
        nul_or_end(d, start, end) < end ==> d[nul_or_end(d, start, end)] == 0,
    decreases end - start,
{
    if start < end && d[start] != 0 {
        lemma_nul_or_end(d, start + 1, end);
    }
}

proof fn lemma_nul_or_end_step(d: Seq<u8>, start: int, k: int, end: int)
    requires
        start <= k <= end,
        forall|j: int| start <= j < k ==> d[j] != 0,
    ensures
        nul_or_end(d, start, end) == nul_or_end(d, k, end),
    decreases k - start,
{
    if start < k {
        lemma_nul_or_end_step(d, start + 1, k, end);
    }
}

impl Btf {
    /// Look up a null-terminated string from the BTF string table.
    pub fn string(&self, offset: u32) -> (r: Result<String, BtfError>)
        requires
            self.wf(),
        ensures
            match r {
                Ok(s) => string_at(self.bytes(), self.sections(), offset) == Ok::<Seq<char>, BtfFailure>(s@),
                Err(e) => string_at(self.bytes(), self.sections(), offset) == Err::<Seq<char>, BtfFailure>(e@),
            },
    {
        let l = self.layout;
        let n = self.data.len();
        assert(l.hdr_len + l.str_off + l.str_len <= n);
        let base: usize = l.hdr_len + l.str_off;
        let end: usize = base + l.str_len;
        let wide_start: u128 = base as u128 + offset as u128;
        if wide_start >= end as u128 {
            return Err(BtfError::StringOffsetOutOfRange { offset });
        }
        let start: usize = wide_start as usize;
        let mut stop: usize = start;
        while stop < end && self.data[stop] != 0
            invariant
                start <= stop <= end <= self.data@.len(),
                forall|j: int| start <= j < stop ==> self.data@[j] != 0,
            decreases end - stop,
        {
            stop = stop + 1;
        }
        proof {
            lemma_nul_or_end_step(self.data@, start as int, stop as int, end as int);
            assert(nul_or_end(self.data@, stop as int, end as int) == stop as int);
        }
        let bytes = vstd::slice::slice_subrange(self.data.as_slice(), start, stop);
        match from_utf8(bytes) {
            Some(s) => Ok(s),
            None => Err(BtfError::InvalidUtf8),
        }
    }
}

/// The `u32` at `off`, or 0 when it does not lie within the data.
pub open spec fn word_at(d: Seq<u8>, off: int) -> u32 {
    if 0 <= off && off + 4 <= d.len() {
        le_u32(d, off)
    } else {
        0
    }
}

/// The kind of a type, bits 24..29 of its info word.
pub open spec fn kind_of(info: u32) -> u32 {
    (info / 0x1000000) % 32
}

/// The member count of a type, the low 16 bits of its info word.
pub open spec fn vlen_of(info: u32) -> nat {
    (info % 0x10000) as nat
}

/// The bytes that follow the 12-byte header of a type of `kind` with
/// `vlen` members.
pub open spec fn extra_bytes_spec(kind: u32, vlen: int) -> int {
    if kind == 1 {
        4
    } else if kind == 3 {
        12
    } else if kind == 4 || kind == 5 {
        12 * vlen
    } else if kind == 6 {
        8 * vlen
    } else if kind == 13 {
        8 * vlen
    } else if kind == 14 {
        4
    } else if kind == 15 {
        12 * vlen
    } else if kind == 17 {
        4
    } else if kind == 19 {
        12 * vlen
    } else {
        0
    }
}

/// The size of each type record follows the BTF format: after the 12-byte
/// header, an INT carries one `u32` encoding, an ARRAY one `btf_array`
/// (three `u32`), a VAR one `u32` linkage and a DECL_TAG one `u32`
/// component index; a STRUCT or UNION carries `vlen` members of three `u32`
/// (name, type, offset), an ENUM `vlen` entries of two (name, value), a
/// FUNC_PROTO `vlen` parameters of two (name, type), a DATASEC `vlen`
/// variables of three (type, offset, size) and an ENUM64 `vlen` entries of
/// three (name, low, high). Every other kind carries nothing more.
pub proof fn law_type_record_sizes(vlen: int)
    ensures
        extra_bytes_spec(1, vlen) == 4,
        extra_bytes_spec(3, vlen) == 12,
        extra_bytes_spec(4, vlen) == 12 * vlen,
        extra_bytes_spec(5, vlen) == 12 * vlen,
        extra_bytes_spec(6, vlen) == 8 * vlen,
        extra_bytes_spec(13, vlen) == 8 * vlen,
        extra_bytes_spec(14, vlen) == 4,
        extra_bytes_spec(15, vlen) == 12 * vlen,
        extra_bytes_spec(17, vlen) == 4,
        extra_bytes_spec(19, vlen) == 12 * vlen,
        forall|k: u32|
            (k == 0 || k == 2 || k == 7 || k == 8 || k == 9 || k == 10 || k == 11 || k == 12 || k == 16 || k
                == 18 || k > 19) ==> #[trigger] extra_bytes_spec(k, vlen) == 0,
{
}

/// The byte offset of member `fname` of the struct whose members start at
/// `member_base`, looking from member `i` of `vlen`.
pub open spec fn find_member(
    d: Seq<u8>,
    l: BtfLayout,
    sname: Seq<char>,
    fname: Seq<char>,
    member_base: int,
    vlen: nat,
    i: nat,
) -> Result<u64, BtfFailure>
    decreases vlen - i,
{
    if i >= vlen {
        Err(BtfFailure::FieldNotFound(fname, sname))
    } else {
        let m = member_base + 12 * i;
        if m + 12 > type_end(l) {
            Err(BtfFailure::TruncatedMembers(sname))
        } else {
            match string_at(d, l, word_at(d, m)) {
                Err(e) => Err(e),
                Ok(s) => if s == fname {
                    Ok((word_at(d, m + 8) / 8) as u64)
                } else {
                    find_member(d, l, sname, fname, member_base, vlen, i + 1)
                },
            }
        }
    }
}

/// The byte offset of field `fname` of struct `sname`, walking the type
/// section from `pos`: the first struct of that name decides; a struct
/// whose name cannot be read stops the walk with that error.
pub open spec fn find_struct(d: Seq<u8>, l: BtfLayout, sname: Seq<char>, fname: Seq<char>, pos: int) -> Result<
    u64,
    BtfFailure,
>
    decreases type_end(l) - pos,
{
    if pos + 12 > type_end(l) {
        Err(BtfFailure::StructNotFound(sname))
    } else {
        let info = word_at(d, pos + 4);
        let kind = kind_of(info);
        let vlen = vlen_of(info);
        let next = pos + 12 + extra_bytes_spec(kind, vlen as int);
        let advance = if next > usize::MAX {
            Err(BtfFailure::WalkOverflow)
        } else if next + 12 > type_end(l) {
            Err(BtfFailure::StructNotFound(sname))
        } else {
            find_struct(d, l, sname, fname, next)
        };
        if kind == BTF_KIND_STRUCT {
            match string_at(d, l, word_at(d, pos)) {
                Err(e) => Err(e),
                Ok(s) => if s == sname {
                    find_member(d, l, sname, fname, pos + 12, vlen, 0)
                } else {
                    advance
                },
            }
        } else {
            advance
        }
    }
}

/// The byte offset of a field of a struct in BTF data.
#[verifier::opaque]
pub open spec fn field_offset(d: Seq<u8>, l: BtfLayout, sname: Seq<char>, fname: Seq<char>) -> Result<
    u64,
    BtfFailure,
> {
    find_struct(d, l, sname, fname, type_base(l))
}

/// Whether a lookup result agrees with its specification.
pub open spec fn lookup_matches(r: Result<u64, BtfError>, spec: Result<u64, BtfFailure>) -> bool {
    match r {
        Ok(v) => spec == Ok::<u64, BtfFailure>(v),
        Err(e) => spec == Err::<u64, BtfFailure>(e@),
    }
}

impl Btf {
    /// Compute extra bytes after the 12-byte type header for a given BTF kind.
    pub fn extra_bytes(kind: u32, vlen: usize) -> (r: usize)
        requires
            extra_bytes_spec(kind, vlen as int) <= usize::MAX,
        ensures
            r == extra_bytes_spec(kind, vlen as int),
    {
        // BTF kinds: 0=UNKN 1=INT 2=PTR 3=ARRAY 4=STRUCT 5=UNION
        // 6=ENUM 7=FWD 8=TYPEDEF 9=VOLATILE 10=CONST 11=RESTRICT
        // 12=FUNC 13=FUNC_PROTO 14=VAR 15=DATASEC 16=FLOAT
        // 17=DECL_TAG 18=TYPE_TAG 19=ENUM64
        match kind {
            1 => 4,  // INT: encoding u32
            3 => 12,  // ARRAY: 3×u32
            4 | 5 => 12 * vlen,  // STRUCT/UNION: member = {name_off, type, offset}
            6 => 8 * vlen,  // ENUM: {name_off, val}
            13 => 8 * vlen,  // FUNC_PROTO: {name_off, type} per param
            14 => 4,  // VAR: linkage u32
            15 => 12 * vlen,  // DATASEC: {type, offset, size}
            17 => 4,  // DECL_TAG: component_idx
            19 => 12 * vlen,  // ENUM64: {name_off, val_lo, val_hi}
            _ => 0,  // PTR, FWD, TYPEDEF, VOLATILE, CONST, RESTRICT, FUNC, FLOAT, TYPE_TAG
        }
    }

    /// The `u32` at `off` within the data.
    fn word(&self, off: usize) -> (r: u32)
        requires
            off + 4 <= self.data@.len(),
        ensures
            r == word_at(self.data@, off as int),
    {
        read_u32(self.data.as_slice(), off)
    }

    /// Scans the members of the struct whose header is at `pos`.
    fn member_offset(&self, struct_name: &str, field_name: &str, pos: usize, vlen: usize) -> (r: Result<u64, BtfError>)
        requires
            self.wf(),
            pos + 12 <= type_end(self.sections()),
            vlen < 0x10000,
        ensures
            lookup_matches(
                r,
                find_member(self.bytes(), self.sections(), struct_name@, field_name@, pos + 12, vlen as nat, 0),
            ),
    {
        let ghost d = self.data@;
        let ghost l = self.layout;
        let n = self.data.len();
        assert(l.hdr_len + l.type_off + l.type_len <= n);
        let end: usize = self.layout.hdr_len + self.layout.type_off + self.layout.type_len;
        let member_base: usize = pos + 12;
        let mut i: usize = 0;
        while i < vlen
            invariant
                self.wf(),
                d == self.data@,
                l == self.layout,
                end == type_end(l),
                end <= d.len(),
                member_base == pos + 12,
                member_base <= end,
                i <= vlen < 0x10000,
                find_member(d, l, struct_name@, field_name@, member_base as int, vlen as nat, i as nat)
                    == find_member(d, l, struct_name@, field_name@, member_base as int, vlen as nat, 0),
            decreases vlen - i,
        {
            let m_off_wide: u128 = member_base as u128 + 12 * (i as u128);
            if m_off_wide + 12 > end as u128 {
                return Err(BtfError::TruncatedMembers { struct_name: owned(struct_name) });
            }
            let m_off: usize = m_off_wide as usize;
            let m_name_off = self.word(m_off);
            let m_bit_offset = self.word(m_off + 8);
            let name = match self.string(m_name_off) {
                Ok(name) => name,
                Err(e) => {
                    return Err(e);
                },
            };
            if str_eq(name.as_str(), field_name) {
                return Ok(m_bit_offset as u64 / 8);
            }
            i = i + 1;
        }
        Err(
            BtfError::FieldNotFound {
                field_name: owned(field_name),
                struct_name: owned(struct_name),
            },
        )
    }

    /// Find the byte offset of a named field within a named struct.
    ///
    /// Scans the entire type section linearly. For the handful of lookups
    /// done at startup this is fine.
    pub fn struct_field_offset(&self, struct_name: &str, field_name: &str) -> (r: Result<u64, BtfError>)
        requires
            self.wf(),
        ensures
            lookup_matches(r, field_offset(self.bytes(), self.sections(), struct_name@, field_name@)),
    {
        let ghost d = self.data@;
        let ghost l = self.layout;
        proof {
            reveal(field_offset);
        }
        let n = self.data.len();
        assert(l.hdr_len + l.type_off + l.type_len <= n);
        let base: usize = self.layout.hdr_len + self.layout.type_off;
        let end: usize = base + self.layout.type_len;
        let mut pos: usize = base;
        if end < 12 || pos > end - 12 {
            return Err(BtfError::StructNotFound { struct_name: owned(struct_name) });
        }
        loop
            invariant
                self.wf(),
                d == self.data@,
                l == self.layout,
                end == type_end(l),
                end <= d.len(),
                pos + 12 <= end,
                find_struct(d, l, struct_name@, field_name@, pos as int) == field_offset(
                    d,
                    l,
                    struct_name@,
                    field_name@,
                ),
            decreases end - pos,
        {
            let name_off = self.word(pos);
            let info = self.word(pos + 4);
            let kind = (info >> 24) & 0x1f;
            let vlen = (info & 0xffff) as usize;
            assert((info >> 24) & 0x1f == (info / 0x1000000) % 32) by (bit_vector);
            assert(info & 0xffff == info % 0x10000) by (bit_vector);
            if kind == BTF_KIND_STRUCT {
                let name = match self.string(name_off) {
                    Ok(name) => name,
                    Err(e) => {
                        return Err(e);
                    },
                };
                if str_eq(name.as_str(), struct_name) {
                    return self.member_offset(struct_name, field_name, pos, vlen);
                }
            }
            let step: usize = 12 + Btf::extra_bytes(kind, vlen);
            let next_wide: u128 = pos as u128 + step as u128;
            if next_wide > usize::MAX as u128 {
                return Err(BtfError::WalkOverflow);
            }
            let next: usize = next_wide as usize;
            if next > end || end - next < 12 {
                return Err(BtfError::StructNotFound { struct_name: owned(struct_name) });
            }
            pos = next;
        }
    }
}

/// The struct and field of each offset the probes need, in map order.
#[verifier::opaque]
pub open spec fn offset_target(k: int) -> (Seq<char>, Seq<char>) {
    if k == 0 {
        ("task_struct"@, "real_parent"@)
    } else if k == 1 {
        ("task_struct"@, "tgid"@)
    } else if k == 2 {
        ("task_struct"@, "cred"@)
    } else if k == 3 {
        ("cred"@, "euid"@)
    } else if k == 4 {
        ("task_struct"@, "signal"@)
    } else if k == 5 {
        ("signal_struct"@, "tty"@)
    } else if k == 6 {
        ("tty_struct"@, "index"@)
    } else if k == 7 {
        ("task_struct"@, "files"@)
    } else if k == 8 {
        ("files_struct"@, "fdt"@)
    } else if k == 9 {
        ("fdtable"@, "fd"@)
    } else if k == 10 {
        ("file"@, "f_inode"@)
    } else {
        ("inode"@, "i_rdev"@)
    }
}

/// The struct and field of the `k`-th offset.
fn target(k: usize) -> (r: (&'static str, &'static str))
    requires
        k < 12,
    ensures
        (r.0@, r.1@) == offset_target(k as int),
{
    proof {
        reveal(offset_target);
    }
    if k == 0 {
        ("task_struct", "real_parent")
    } else if k == 1 {
        ("task_struct", "tgid")
    } else if k == 2 {
        ("task_struct", "cred")
    } else if k == 3 {
        ("cred", "euid")
    } else if k == 4 {
        ("task_struct", "signal")
    } else if k == 5 {
        ("signal_struct", "tty")
    } else if k == 6 {
        ("tty_struct", "index")
    } else if k == 7 {
        ("task_struct", "files")
    } else if k == 8 {
        ("files_struct", "fdt")
    } else if k == 9 {
        ("fdtable", "fd")
    } else if k == 10 {
        ("file", "f_inode")
    } else {
        ("inode", "i_rdev")
    }
}

/// Why the offsets could not be resolved: the data is not BTF, or a field
/// lookup failed (named `struct.field`).
#[derive(Debug, Clone)]
pub enum ResolveError {
    Parse(BtfError),
    Field { context: String, cause: BtfError },
}

/// What a `ResolveError` says.
pub enum ResolveFailure {
    Parse(BtfFailure),
    Field(Seq<char>, BtfFailure),
}

impl View for ResolveError {
    type V = ResolveFailure;

    open spec fn view(&self) -> ResolveFailure {
        match self {
            ResolveError::Parse(e) => ResolveFailure::Parse(e@),
            ResolveError::Field { context, cause } => ResolveFailure::Field(context@, cause@),
        }
    }
}

impl ResolveError {
    /// The error's message: the failing field, then the cause.
    pub fn message(&self) -> (r: String)
        ensures
            r@ == (match self@ {
                ResolveFailure::Parse(e) => failure_text(e),
                ResolveFailure::Field(c, e) => c + ": "@ + failure_text(e),
            }),
    {
        match self {
            ResolveError::Parse(e) => e.message(),
            ResolveError::Field { context, cause } => {
                let mut s = context.clone();
                push_str(&mut s, ": ");
                let m = cause.message();
                push_str(&mut s, m.as_str());
                s
            },
        }
    }
}

/// The `k`-th offset, or why it failed.
pub open spec fn lookup_target(d: Seq<u8>, l: BtfLayout, k: int) -> Result<u64, ResolveFailure> {
    let (sname, fname) = offset_target(k);
    match field_offset(d, l, sname, fname) {
        Ok(v) => Ok(v),
        Err(e) => Err(ResolveFailure::Field(sname + "."@ + fname, e)),
    }
}

/// The offsets from the `k`-th on, or the first failure among them.
pub open spec fn lookups_from(d: Seq<u8>, l: BtfLayout, k: nat) -> Result<Seq<u64>, ResolveFailure>
    decreases 12 - k,
{
    if k >= 12 {
        Ok(Seq::empty())
    } else {
        match lookup_target(d, l, k as int) {
            Err(e) => Err(e),
            Ok(v) => match lookups_from(d, l, k + 1) {
                Err(e) => Err(e),
                Ok(rest) => Ok(seq![v] + rest),
            },
        }
    }
}

/// The offsets of twelve values in map order.
pub open spec fn offsets_from(v: Seq<u64>) -> TaskFieldOffsets {
    TaskFieldOffsets {
        task_real_parent: v[0],
        task_tgid: v[1],
        task_cred: v[2],
        cred_euid: v[3],
        task_signal: v[4],
        signal_tty: v[5],
        tty_index: v[6],
        task_files: v[7],
        files_fdt: v[8],
        fdt_fd: v[9],
        file_inode: v[10],
        inode_rdev: v[11],
    }
}

/// The offsets BTF data gives, or the first failure: reading the data, then
/// each lookup in map order.
pub open spec fn resolve_offsets(d: Seq<u8>) -> Result<TaskFieldOffsets, ResolveFailure> {
    match parse_layout(d) {
        Err(e) => Err(ResolveFailure::Parse(e)),
        Ok(l) => match lookups_from(d, l, 0) {
            Err(e) => Err(e),
            Ok(v) => Ok(offsets_from(v)),
        },
    }
}

/// `prefix` in front of a lookup result.
pub open spec fn prepend(prefix: Seq<u64>, r: Result<Seq<u64>, ResolveFailure>) -> Result<Seq<u64>, ResolveFailure> {
    match r {
        Err(e) => Err(e),
        Ok(rest) => Ok(prefix + rest),
    }
}

proof fn lemma_lookups_len(d: Seq<u8>, l: BtfLayout, k: nat)
    requires
        k <= 12,
    ensures
        lookups_from(d, l, k) matches Ok(v) ==> v.len() == 12 - k,
    decreases 12 - k,
{
    if k < 12 {
        lemma_lookups_len(d, l, k + 1);
    }
}

/// Looks up every offset in map order, stopping at the first failure.
fn lookup_all(btf: &Btf) -> (r: Result<Vec<u64>, ResolveError>)
    requires
        btf.wf(),
    ensures
        match r {
            Ok(v) => lookups_from(btf.bytes(), btf.sections(), 0) == Ok::<Seq<u64>, ResolveFailure>(v@),
            Err(e) => lookups_from(btf.bytes(), btf.sections(), 0) == Err::<Seq<u64>, ResolveFailure>(e@),
        },
{
    let ghost d = btf.bytes();
    let ghost l = btf.sections();
    let mut vals: Vec<u64> = Vec::new();
    let mut k: usize = 0;
    assert(prepend(Seq::empty(), lookups_from(d, l, 0)) =~= lookups_from(d, l, 0));
    while k < 12
        invariant
            k <= 12,
            btf.wf(),
            btf.bytes() == d,
            btf.sections() == l,
            vals@.len() == k,
            lookups_from(d, l, 0) == prepend(vals@, lookups_from(d, l, k as nat)),
        decreases 12 - k,
    {
        let (sname, fname) = target(k);
        match btf.struct_field_offset(sname, fname) {
            Ok(v) => {
                proof {
                    assert(lookup_target(d, l, k as int) == Ok::<u64, ResolveFailure>(v));
                    match lookups_from(d, l, (k + 1) as nat) {
                        Err(e) => {},
                        Ok(rest) => {
                            assert(vals@ + (seq![v] + rest) =~= vals@.push(v) + rest);
                        },
                    }
                }
                vals.push(v);
            },
            Err(e) => {
                let mut context = owned(sname);
                push_str(&mut context, ".");
                push_str(&mut context, fname);
                proof {
                    assert(lookup_target(d, l, k as int) == Err::<u64, ResolveFailure>(
                        ResolveFailure::Field(context@, e@),
                    ));
                }
                return Err(ResolveError::Field { context, cause: e });
            },
        }
        k = k + 1;
    }
    assert(vals@ + Seq::<u64>::empty() =~= vals@);
    Ok(vals)
}

/// Resolve all kernel struct field offsets needed by the eBPF probes from
/// the kernel's BTF data.
pub fn resolve_task_field_offsets(data: Vec<u8>) -> (r: Result<TaskFieldOffsets, ResolveError>)
    ensures
        match r {
            Ok(o) => resolve_offsets(data@) == Ok::<TaskFieldOffsets, ResolveFailure>(o),
            Err(e) => resolve_offsets(data@) == Err::<TaskFieldOffsets, ResolveFailure>(e@),
        },
{
    let btf = match Btf::from_bytes(data) {
        Ok(b) => b,
        Err(e) => {
            return Err(ResolveError::Parse(e));
        },
    };
    let vals = match lookup_all(&btf) {
        Ok(v) => v,
        Err(e) => {
            return Err(e);
        },
    };
    proof {
        lemma_lookups_len(btf.bytes(), btf.sections(), 0);
    }
    Ok(
        TaskFieldOffsets {
            task_real_parent: vals[0],
            task_tgid: vals[1],
            task_cred: vals[2],
            cred_euid: vals[3],
            task_signal: vals[4],
            signal_tty: vals[5],
            tty_index: vals[6],
            task_files: vals[7],
            files_fdt: vals[8],
            fdt_fd: vals[9],
            file_inode: vals[10],
            inode_rdev: vals[11],
        },
    )
}

} // verus!
