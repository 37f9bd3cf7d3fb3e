//! The footer that ends every tiered storage file, and its format fields.
use vstd::prelude::*;
use crate::bytes::{lemma_located_trans, lemma_located_u32, lemma_located_u64, lemma_u32_le_round_trip, lemma_u64_le_round_trip, located, push_bytes, push_u32, push_u64, read_32, read_u32, read_u64, u32_at, u32_le, u64_at, u64_le};
use crate::error::TieredStorageError;
use crate::meta::{AccountHash, Pubkey};

verus! {

/// The only format version that this library reads and writes.
pub const FOOTER_FORMAT_VERSION: u64 = 1;

/// The size of the footer, without the magic number that follows it.
pub const FOOTER_SIZE: usize = 184;

/// The size of the ending part of the footer (footer size, format version,
/// magic number), which stays the same in every format version.
pub const FOOTER_TAIL_SIZE: usize = 24;

/// The size of the magic number at the end of the file.
pub const MAGIC_NUMBER_SIZE: usize = 8;

/// The offset of the content hash inside the footer.
pub const FOOTER_HASH_OFFSET: usize = 136;

/// The ending 8 bytes of a valid tiered account storage file: "AnzaTech"
/// read as a little-endian integer.
pub const FOOTER_MAGIC_NUMBER: u64 = 0x6863_6554_617a_6e41;

/// The magic number that ends a tiered storage file.
#[derive(Clone, Copy, Debug, PartialEq, Eq, Structural)]
pub struct TieredStorageMagicNumber(pub u64);

impl TieredStorageMagicNumber {
    /// The magic number of a valid file.
    pub fn expected() -> (r: TieredStorageMagicNumber)
        ensures
            r.0 == FOOTER_MAGIC_NUMBER,
    {
        TieredStorageMagicNumber(FOOTER_MAGIC_NUMBER)
    }
}

/// The format of the account metadata entries.
#[derive(Clone, Copy, Debug, PartialEq, Eq, Structural)]
pub enum AccountMetaFormat {
    Hot,
    Cold,
}

/// The format of the account blocks.
#[derive(Clone, Copy, Debug, PartialEq, Eq, Structural)]
pub enum AccountBlockFormat {
    AlignedRaw,
    Lz4,
}

/// The format of the owners block.
#[derive(Clone, Copy, Debug, PartialEq, Eq, Structural)]
pub enum OwnersBlockFormat {
    LocalIndex,
}

/// The format of the index block.
#[derive(Clone, Copy, Debug, PartialEq, Eq, Structural)]
pub enum AccountIndexFormat {
    /// Two parallel arrays: every account's address, then every account's
    /// block offset, in the order of the accounts.
    AddressAndOffset,
}

pub open spec fn meta_format_code(f: AccountMetaFormat) -> u64 {
    match f {
        AccountMetaFormat::Hot => 0,
        AccountMetaFormat::Cold => 1,
    }
}

pub open spec fn block_format_code(f: AccountBlockFormat) -> u64 {
    match f {
        AccountBlockFormat::AlignedRaw => 0,
        AccountBlockFormat::Lz4 => 1,
    }
}

impl AccountMetaFormat {
    pub fn to_u64(&self) -> (r: u64)
        ensures
            r == meta_format_code(*self),
    {
        match self {
            AccountMetaFormat::Hot => 0,
            AccountMetaFormat::Cold => 1,
        }
    }

    /// The format with code `v`, if there is one.
    pub fn from_u64(v: u64) -> (r: Option<AccountMetaFormat>)
        ensures
            r.is_some() <==> v <= 1,
            r.is_some() ==> meta_format_code(r.unwrap()) == v,
    {
        if v == 0 {
            Some(AccountMetaFormat::Hot)
        } else if v == 1 {
            Some(AccountMetaFormat::Cold)
        } else {
            None
        }
    }
}

impl AccountBlockFormat {
    pub fn to_u64(&self) -> (r: u64)
        ensures
            r == block_format_code(*self),
    {
        match self {
            AccountBlockFormat::AlignedRaw => 0,
            AccountBlockFormat::Lz4 => 1,
        }
    }

    /// The format with code `v`, if there is one.
    pub fn from_u64(v: u64) -> (r: Option<AccountBlockFormat>)
        ensures
            r.is_some() <==> v <= 1,
            r.is_some() ==> block_format_code(r.unwrap()) == v,
    {
        if v == 0 {
            Some(AccountBlockFormat::AlignedRaw)
        } else if v == 1 {
            Some(AccountBlockFormat::Lz4)
        } else {
            None
        }
    }
}

impl OwnersBlockFormat {
    pub fn to_u64(&self) -> (r: u64)
        ensures
            r == 0,
    {
        0
    }

    /// The format with code `v`, if there is one.
    pub fn from_u64(v: u64) -> (r: Option<OwnersBlockFormat>)
        ensures
            r.is_some() <==> v == 0,
    {
        if v == 0 {
            Some(OwnersBlockFormat::LocalIndex)
        } else {
            None
        }
    }
}

impl AccountIndexFormat {
    pub fn to_u64(&self) -> (r: u64)
        ensures
            r == 0,
    {
        0
    }

    /// The format with code `v`, if there is one.
    pub fn from_u64(v: u64) -> (r: Option<AccountIndexFormat>)
        ensures
            r.is_some() <==> v == 0,
    {
        if v == 0 {
            Some(AccountIndexFormat::AddressAndOffset)
        } else {
            None
        }
    }

    /// The size of one index entry: an address and a block offset.
    pub fn entry_size(&self) -> (r: usize)
        ensures
            r == 40,
    {
        40
    }
}

/// The fixed-layout record at the end of a tiered storage file.
#[derive(Clone, Copy, Debug, PartialEq, Eq)]
pub struct TieredStorageFooter {
    pub account_meta_format: AccountMetaFormat,
    pub owners_block_format: OwnersBlockFormat,
    pub account_index_format: AccountIndexFormat,
    pub account_block_format: AccountBlockFormat,
    /// the number of accounts
    pub account_entry_count: u32,
    /// the size of one account metadata entry
    pub account_meta_entry_size: u32,
    /// the size of an account block, where the format fixes one
    pub account_block_size: u64,
    /// the number of distinct owners
    pub owner_count: u32,
    /// the size of one owner entry
    pub owner_entry_size: u32,
    /// the offset of the index block
    pub index_block_offset: u64,
    /// the offset of the owners block
    pub owners_block_offset: u64,
    /// the smallest account address
    pub min_account_address: Pubkey,
    /// the largest account address
    pub max_account_address: Pubkey,
    /// the content hash of the bytes that precede it
    pub hash: AccountHash,
    /// the size of the footer
    pub footer_size: u64,
    /// the format version
    pub format_version: u64,
}

/// The 136 stored bytes of the footer that precede its hash.
pub open spec fn footer_head_bytes(f: TieredStorageFooter) -> Seq<u8> {
    u64_le(meta_format_code(f.account_meta_format)) + u64_le(0) + u64_le(0) + u64_le(
        block_format_code(f.account_block_format),
    ) + u32_le(f.account_entry_count) + u32_le(f.account_meta_entry_size) + u64_le(
        f.account_block_size,
    ) + u32_le(f.owner_count) + u32_le(f.owner_entry_size) + u64_le(f.index_block_offset)
        + u64_le(f.owners_block_offset) + f.min_account_address.bytes@
        + f.max_account_address.bytes@
}

/// The 48 stored bytes from the footer's hash to its end.
pub open spec fn footer_rest_bytes(f: TieredStorageFooter) -> Seq<u8> {
    f.hash.bytes@ + u64_le(f.footer_size) + u64_le(f.format_version)
}

/// The 184 stored bytes of the footer.
pub open spec fn footer_bytes(f: TieredStorageFooter) -> Seq<u8> {
    footer_head_bytes(f) + footer_rest_bytes(f)
}

/// What the footer stored in `s` at `off` holds, or why it holds nothing
/// that this library reads.
pub open spec fn footer_at(s: Seq<u8>, off: int) -> Result<TieredStorageFooter, TieredStorageError> {
    let meta = u64_at(s, off);
    let owners = u64_at(s, off + 8);
    let index = u64_at(s, off + 16);
    let block = u64_at(s, off + 24);
    if meta != 0 {
        Err(TieredStorageError::UnsupportedAccountMetaFormat)
    } else if owners != 0 || index != 0 || block != 0 {
        Err(TieredStorageError::Unsupported)
    } else {
        Ok(
            TieredStorageFooter {
                account_meta_format: AccountMetaFormat::Hot,
                owners_block_format: OwnersBlockFormat::LocalIndex,
                account_index_format: AccountIndexFormat::AddressAndOffset,
                account_block_format: AccountBlockFormat::AlignedRaw,
                account_entry_count: u32_at(s, off + 32),
                account_meta_entry_size: u32_at(s, off + 36),
                account_block_size: u64_at(s, off + 40),
                owner_count: u32_at(s, off + 48),
                owner_entry_size: u32_at(s, off + 52),
                index_block_offset: u64_at(s, off + 56),
                owners_block_offset: u64_at(s, off + 64),
                min_account_address: Pubkey { bytes: spec_array32(s.subrange(off + 72, off + 104)) },
                max_account_address: Pubkey { bytes: spec_array32(s.subrange(off + 104, off + 136)) },
                hash: AccountHash { bytes: spec_array32(s.subrange(off + 136, off + 168)) },
                footer_size: u64_at(s, off + 168),
                format_version: u64_at(s, off + 176),
            },
        )
    }
}

/// The array whose view is `s`.
pub open spec fn spec_array32(s: Seq<u8>) -> [u8; 32] {
    choose|a: [u8; 32]| a@ == s
}

impl TieredStorageFooter {
    /// Appends the bytes of the footer that precede its hash to `out`.
    pub fn write_head(&self, out: &mut Vec<u8>)
        ensures
            final(out)@ == old(out)@ + footer_head_bytes(*self),
    {
        let ghost start = out@;
        push_u64(out, self.account_meta_format.to_u64());
        push_u64(out, self.owners_block_format.to_u64());
        push_u64(out, self.account_index_format.to_u64());
        push_u64(out, self.account_block_format.to_u64());
        push_u32(out, self.account_entry_count);
        push_u32(out, self.account_meta_entry_size);
        push_u64(out, self.account_block_size);
        push_u32(out, self.owner_count);
        push_u32(out, self.owner_entry_size);
        push_u64(out, self.index_block_offset);
        push_u64(out, self.owners_block_offset);
        push_bytes(out, self.min_account_address.bytes.as_slice());
        push_bytes(out, self.max_account_address.bytes.as_slice());
        assert(out@ =~= start + footer_head_bytes(*self));
    }

    /// Appends the bytes of the footer from its hash to its end to `out`.
    pub fn write_rest(&self, out: &mut Vec<u8>)
        ensures
            final(out)@ == old(out)@ + footer_rest_bytes(*self),
    {
        let ghost start = out@;
        push_bytes(out, self.hash.bytes.as_slice());
        push_u64(out, self.footer_size);
        push_u64(out, self.format_version);
        assert(out@ =~= start + footer_rest_bytes(*self));
    }

    /// Appends the footer, then the magic number, to `out`.
    pub fn write_footer_block(&self, out: &mut Vec<u8>)
        ensures
            final(out)@ == old(out)@ + footer_bytes(*self) + u64_le(FOOTER_MAGIC_NUMBER),
    {
        let ghost start = out@;
        self.write_head(out);
        self.write_rest(out);
        push_u64(out, FOOTER_MAGIC_NUMBER);
        assert(out@ =~= start + footer_bytes(*self) + u64_le(FOOTER_MAGIC_NUMBER));
    }

    /// Reads the footer stored in `s` at `off`.
    pub fn read(s: &[u8], off: usize) -> (r: Result<TieredStorageFooter, TieredStorageError>)
        requires
            off + 184 <= s@.len(),
        ensures
            r == footer_at(s@, off as int),
    {
        let n: usize = s.len();
        let meta = read_u64(s, off);
        let owners = read_u64(s, off + 8);
        let index = read_u64(s, off + 16);
        let block = read_u64(s, off + 24);
        if meta != 0 {
            return Err(TieredStorageError::UnsupportedAccountMetaFormat);
        }
        if owners != 0 || index != 0 || block != 0 {
            return Err(TieredStorageError::Unsupported);
        }
        let min = read_32(s, off + 72);
        let max = read_32(s, off + 104);
        let hash = read_32(s, off + 136);
        let r = TieredStorageFooter {
            account_meta_format: AccountMetaFormat::Hot,
            owners_block_format: OwnersBlockFormat::LocalIndex,
            account_index_format: AccountIndexFormat::AddressAndOffset,
            account_block_format: AccountBlockFormat::AlignedRaw,
            account_entry_count: read_u32(s, off + 32),
            account_meta_entry_size: read_u32(s, off + 36),
            account_block_size: read_u64(s, off + 40),
            owner_count: read_u32(s, off + 48),
            owner_entry_size: read_u32(s, off + 52),
            index_block_offset: read_u64(s, off + 56),
            owners_block_offset: read_u64(s, off + 64),
            min_account_address: Pubkey { bytes: min },
            max_account_address: Pubkey { bytes: max },
            hash: AccountHash { bytes: hash },
            footer_size: read_u64(s, off + 168),
            format_version: read_u64(s, off + 176),
        };
        proof {
            lemma_array32_unique(min, s@.subrange(off + 72, off + 104));
            lemma_array32_unique(max, s@.subrange(off + 104, off + 136));
            lemma_array32_unique(hash, s@.subrange(off + 136, off + 168));
        }
        Ok(r)
    }
}

/// An array is the one that `spec_array32` picks for its own view.
pub proof fn lemma_array32_unique(a: [u8; 32], s: Seq<u8>)
    requires
        a@ == s,
    ensures
        spec_array32(s) == a,
{
    let b = spec_array32(s);
    assert(b@ == s);
    assert(a =~= b);
}

/// The footer length, and the length of its tail with the magic number.
pub proof fn lemma_footer_sizes(f: TieredStorageFooter)
    ensures
        footer_head_bytes(f).len() == FOOTER_HASH_OFFSET,
        footer_rest_bytes(f).len() == 48,
        footer_bytes(f).len() == FOOTER_SIZE,
        (u64_le(f.footer_size) + u64_le(f.format_version) + u64_le(FOOTER_MAGIC_NUMBER)).len()
            == FOOTER_TAIL_SIZE,
        footer_bytes(f).len() + MAGIC_NUMBER_SIZE == 192,
{
    lemma_u64_le_round_trip(0);
    lemma_u64_le_round_trip(meta_format_code(f.account_meta_format));
    lemma_u64_le_round_trip(block_format_code(f.account_block_format));
    lemma_u32_le_round_trip(f.account_entry_count);
    lemma_u32_le_round_trip(f.account_meta_entry_size);
    lemma_u64_le_round_trip(f.account_block_size);
    lemma_u32_le_round_trip(f.owner_count);
    lemma_u32_le_round_trip(f.owner_entry_size);
    lemma_u64_le_round_trip(f.index_block_offset);
    lemma_u64_le_round_trip(f.owners_block_offset);
    lemma_u64_le_round_trip(f.footer_size);
    lemma_u64_le_round_trip(f.format_version);
    lemma_u64_le_round_trip(FOOTER_MAGIC_NUMBER);
}

proof fn lemma_located_u64_field(s: Seq<u8>, off: int, fb: Seq<u8>, o: int, v: u64)
    requires
        located(s, off, fb),
        0 <= o,
        o + 8 <= fb.len(),
        fb.subrange(o, o + 8) == u64_le(v),
    ensures
        u64_at(s, off + o) == v,
{
    lemma_u64_le_round_trip(v);
    lemma_located_trans(s, off, fb, o, u64_le(v));
    lemma_located_u64(s, off + o, v);
}

proof fn lemma_located_u32_field(s: Seq<u8>, off: int, fb: Seq<u8>, o: int, v: u32)
    requires
        located(s, off, fb),
        0 <= o,
        o + 4 <= fb.len(),
        fb.subrange(o, o + 4) == u32_le(v),
    ensures
        u32_at(s, off + o) == v,
{
    lemma_u32_le_round_trip(v);
    lemma_located_trans(s, off, fb, o, u32_le(v));
    lemma_located_u32(s, off + o, v);
}

proof fn lemma_located_array_field(s: Seq<u8>, off: int, fb: Seq<u8>, o: int, a: [u8; 32])
    requires
        located(s, off, fb),
        0 <= o,
        o + 32 <= fb.len(),
        fb.subrange(o, o + 32) == a@,
    ensures
        spec_array32(s.subrange(off + o, off + o + 32)) == a,
{
    lemma_located_trans(s, off, fb, o, a@);
    lemma_array32_unique(a, s.subrange(off + o, off + o + 32));
}

/// A written footer of the hot format reads back as written, wherever it
/// stands.
pub proof fn lemma_footer_round_trip(s: Seq<u8>, off: int, f: TieredStorageFooter)
    requires
        located(s, off, footer_bytes(f)),
        f.account_meta_format == AccountMetaFormat::Hot,
        f.account_block_format == AccountBlockFormat::AlignedRaw,
    ensures
        footer_at(s, off) == Ok::<TieredStorageFooter, TieredStorageError>(f),
{
    lemma_footer_sizes(f);
    let fb = footer_bytes(f);
    assert(fb.subrange(0, 8) =~= u64_le(0));
    lemma_located_u64_field(s, off, fb, 0, 0);
    assert(fb.subrange(8, 16) =~= u64_le(0));
    lemma_located_u64_field(s, off, fb, 8, 0);
    assert(fb.subrange(16, 24) =~= u64_le(0));
    lemma_located_u64_field(s, off, fb, 16, 0);
    assert(fb.subrange(24, 32) =~= u64_le(0));
    lemma_located_u64_field(s, off, fb, 24, 0);
    assert(fb.subrange(32, 36) =~= u32_le(f.account_entry_count));
    lemma_located_u32_field(s, off, fb, 32, f.account_entry_count);
    assert(fb.subrange(36, 40) =~= u32_le(f.account_meta_entry_size));
    lemma_located_u32_field(s, off, fb, 36, f.account_meta_entry_size);
    assert(fb.subrange(40, 48) =~= u64_le(f.account_block_size));
    lemma_located_u64_field(s, off, fb, 40, f.account_block_size);
    assert(fb.subrange(48, 52) =~= u32_le(f.owner_count));
    lemma_located_u32_field(s, off, fb, 48, f.owner_count);
    assert(fb.subrange(52, 56) =~= u32_le(f.owner_entry_size));
    lemma_located_u32_field(s, off, fb, 52, f.owner_entry_size);
    assert(fb.subrange(56, 64) =~= u64_le(f.index_block_offset));
    lemma_located_u64_field(s, off, fb, 56, f.index_block_offset);
    assert(fb.subrange(64, 72) =~= u64_le(f.owners_block_offset));
    lemma_located_u64_field(s, off, fb, 64, f.owners_block_offset);
    assert(fb.subrange(72, 104) =~= f.min_account_address.bytes@);
    lemma_located_array_field(s, off, fb, 72, f.min_account_address.bytes);
    assert(fb.subrange(104, 136) =~= f.max_account_address.bytes@);
    lemma_located_array_field(s, off, fb, 104, f.max_account_address.bytes);
    assert(fb.subrange(136, 168) =~= f.hash.bytes@);
    lemma_located_array_field(s, off, fb, 136, f.hash.bytes);
    assert(fb.subrange(168, 176) =~= u64_le(f.footer_size));
    lemma_located_u64_field(s, off, fb, 168, f.footer_size);
    assert(fb.subrange(176, 184) =~= u64_le(f.format_version));
    lemma_located_u64_field(s, off, fb, 176, f.format_version);
}

} // verus!
