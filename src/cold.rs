//! The retired metadata entries of cold storage, where several accounts
//! may share one (possibly compressed) data block. Files of this format are
//! refused by the reader; the entries remain for tools that inspect them.
use vstd::prelude::*;
use vstd::slice::slice_subrange;
use crate::bytes::{
    push_u16, push_u32, push_u64, push_zeros, read_u16, read_u32, read_u64, u16_at, u16_le,
    u32_at, u32_le, u64_at, u64_le,
};
use crate::meta::AccountMetaOptionalFields;

verus! {

/// The flag bit of an executable account.
pub const COLD_EXECUTABLE: u64 = 1;

/// The flag bit of a stored rent epoch.
pub const COLD_HAS_RENT_EPOCH: u64 = 2;

/// The flag bit of a stored account hash.
pub const COLD_HAS_ACCOUNT_HASH: u64 = 4;

/// The flag bit of a stored write version.
pub const COLD_HAS_WRITE_VERSION: u64 = 8;

/// The flag bit of a stored data length.
pub const COLD_HAS_DATA_LENGTH: u64 = 16;

/// The `uncompressed_data_size` that marks an account owning its whole block.
pub const ACCOUNT_DATA_ENTIRE_BLOCK: u16 = 0xffff;

/// A cold account metadata entry with 32-bit flags.
#[derive(Clone, Copy, Debug, PartialEq, Eq, Structural)]
pub struct ColdAccountMeta {
    pub lamports: u64,
    pub block_offset: u64,
    pub uncompressed_data_size: u16,
    pub intra_block_offset: u16,
    pub owner_local_id: u32,
    pub flags: u32,
}

/// The size of a stored cold metadata entry.
pub const COLD_META_SIZE: usize = 32;

/// The 32 stored bytes of a cold metadata entry: lamports at 0x00, block
/// offset at 0x08, data size at 0x10, intra-block offset at 0x12, owner id
/// at 0x14, flags at 0x18, then four zero bytes.
pub open spec fn cold_meta_bytes(m: ColdAccountMeta) -> Seq<u8> {
    u64_le(m.lamports) + u64_le(m.block_offset) + u16_le(m.uncompressed_data_size) + u16_le(
        m.intra_block_offset,
    ) + u32_le(m.owner_local_id) + u32_le(m.flags) + Seq::new(4, |k: int| 0u8)
}

/// The cold metadata entry stored in `s` at `off`.
pub open spec fn cold_meta_at(s: Seq<u8>, off: int) -> ColdAccountMeta {
    ColdAccountMeta {
        lamports: u64_at(s, off),
        block_offset: u64_at(s, off + 8),
        uncompressed_data_size: u16_at(s, off + 16),
        intra_block_offset: u16_at(s, off + 18),
        owner_local_id: u32_at(s, off + 20),
        flags: u32_at(s, off + 24),
    }
}

/// The 32 stored bytes of an entry: as a cold metadata entry, with 64-bit
/// flags at 0x18.
pub open spec fn entry_bytes(m: AccountMetaStorageEntry) -> Seq<u8> {
    u64_le(m.lamports) + u64_le(m.block_offset) + u16_le(m.uncompressed_data_size) + u16_le(
        m.intra_block_offset,
    ) + u32_le(m.owner_local_id) + u64_le(m.flags)
}

/// The entry stored in `s` at `off`.
pub open spec fn entry_at(s: Seq<u8>, off: int) -> AccountMetaStorageEntry {
    AccountMetaStorageEntry {
        lamports: u64_at(s, off),
        block_offset: u64_at(s, off + 8),
        uncompressed_data_size: u16_at(s, off + 16),
        intra_block_offset: u16_at(s, off + 18),
        owner_local_id: u32_at(s, off + 20),
        flags: u64_at(s, off + 24),
    }
}

/// The summed data sizes of the entries from `i` on that share the block
/// of entry `index`, up to the first entry of another block.
pub open spec fn cold_run_size(ms: Seq<ColdAccountMeta>, index: int, i: int) -> int
    decreases ms.len() - i,
{
    if i < 0 || i >= ms.len() || ms[i].block_offset != ms[index].block_offset {
        0
    } else {
        ms[i].uncompressed_data_size + cold_run_size(ms, index, i + 1)
    }
}

proof fn lemma_cold_run_size_nonneg(ms: Seq<ColdAccountMeta>, index: int, i: int)
    ensures
        cold_run_size(ms, index, i) >= 0,
    decreases ms.len() - i,
{
    if !(i < 0 || i >= ms.len() || ms[i].block_offset != ms[index].block_offset) {
        lemma_cold_run_size_nonneg(ms, index, i + 1);
    }
}

impl ColdAccountMeta {
    /// An entry with every field zero.
    pub fn new() -> (r: ColdAccountMeta)
        ensures
            r == (ColdAccountMeta {
                lamports: 0,
                block_offset: 0,
                uncompressed_data_size: 0,
                intra_block_offset: 0,
                owner_local_id: 0,
                flags: 0,
            }),
    {
        ColdAccountMeta {
            lamports: 0,
            block_offset: 0,
            uncompressed_data_size: 0,
            intra_block_offset: 0,
            owner_local_id: 0,
            flags: 0,
        }
    }

    /// Appends the 32 stored bytes of this entry to `out`.
    pub fn write_account_meta_entry(&self, out: &mut Vec<u8>) -> (r: usize)
        ensures
            final(out)@ == old(out)@ + cold_meta_bytes(*self),
            r == COLD_META_SIZE,
    {
        let ghost start = out@;
        push_u64(out, self.lamports);
        push_u64(out, self.block_offset);
        push_u16(out, self.uncompressed_data_size);
        push_u16(out, self.intra_block_offset);
        push_u32(out, self.owner_local_id);
        push_u32(out, self.flags);
        push_zeros(out, 4);
        assert(out@ =~= start + cold_meta_bytes(*self));
        COLD_META_SIZE
    }

    /// Reads the entry stored in `s` at `off`.
    pub fn new_from_bytes(s: &[u8], off: usize) -> (r: ColdAccountMeta)
        requires
            off + 32 <= s@.len(),
        ensures
            r == cold_meta_at(s@, off as int),
    {
        let n = s.len();
        ColdAccountMeta {
            lamports: read_u64(s, off),
            block_offset: read_u64(s, off + 8),
            uncompressed_data_size: read_u16(s, off + 16),
            intra_block_offset: read_u16(s, off + 18),
            owner_local_id: read_u32(s, off + 20),
            flags: read_u32(s, off + 24),
        }
    }

    pub fn with_lamports(self, lamports: u64) -> (r: ColdAccountMeta)
        ensures
            r == (ColdAccountMeta { lamports, ..self }),
    {
        ColdAccountMeta { lamports, ..self }
    }

    pub fn with_block_offset(self, offset: u64) -> (r: ColdAccountMeta)
        ensures
            r == (ColdAccountMeta { block_offset: offset, ..self }),
    {
        ColdAccountMeta { block_offset: offset, ..self }
    }

    pub fn with_owner_local_id(self, local_id: u32) -> (r: ColdAccountMeta)
        ensures
            r == (ColdAccountMeta { owner_local_id: local_id, ..self }),
    {
        ColdAccountMeta { owner_local_id: local_id, ..self }
    }

    pub fn with_uncompressed_data_size(self, data_size: u16) -> (r: ColdAccountMeta)
        ensures
            r == (ColdAccountMeta { uncompressed_data_size: data_size, ..self }),
    {
        ColdAccountMeta { uncompressed_data_size: data_size, ..self }
    }

    pub fn with_intra_block_offset(self, offset: u16) -> (r: ColdAccountMeta)
        ensures
            r == (ColdAccountMeta { intra_block_offset: offset, ..self }),
    {
        ColdAccountMeta { intra_block_offset: offset, ..self }
    }

    pub fn with_flags(self, flags: u32) -> (r: ColdAccountMeta)
        ensures
            r == (ColdAccountMeta { flags, ..self }),
    {
        ColdAccountMeta { flags, ..self }
    }

    /// The uncompressed size of the block that entry `index` lies in: the
    /// data sizes of the entries from `index` on that share its block, or 0
    /// past the last entry.
    pub fn get_raw_block_size(metas: &Vec<ColdAccountMeta>, index: usize) -> (r: usize)
        requires
            index < metas@.len() ==> cold_run_size(metas@, index as int, index as int) <= 0xffff,
        ensures
            index >= metas@.len() ==> r == 0,
            index < metas@.len() ==> r == cold_run_size(metas@, index as int, index as int),
    {
        let n = metas.len();
        if index >= n {
            return 0;
        }
        let ghost total = cold_run_size(metas@, index as int, index as int);
        let mut i = index;
        let mut size: usize = 0;
        while i < n && metas[i].block_offset == metas[index].block_offset
            invariant
                index <= i <= n,
                index < n,
                n == metas@.len(),
                total == cold_run_size(metas@, index as int, index as int),
                total <= 0xffff,
                size + cold_run_size(metas@, index as int, i as int) == total,
            decreases n - i,
        {
            proof {
                lemma_cold_run_size_nonneg(metas@, index as int, i + 1);
            }
            size = size + metas[i].uncompressed_data_size as usize;
            i = i + 1;
        }
        size
    }
}

/// The oldest cold metadata entry, with 64-bit flags.
#[derive(Clone, Copy, Debug, PartialEq, Eq, Structural)]
pub struct AccountMetaStorageEntry {
    pub lamports: u64,
    pub block_offset: u64,
    pub uncompressed_data_size: u16,
    pub intra_block_offset: u16,
    pub owner_local_id: u32,
    pub flags: u64,
}

/// The summed data sizes of the entries from `i` on that share the block
/// of entry `index`, up to the first entry of another block.
pub open spec fn entry_run_size(ms: Seq<AccountMetaStorageEntry>, index: int, i: int) -> int
    decreases ms.len() - i,
{
    if i < 0 || i >= ms.len() || ms[i].block_offset != ms[index].block_offset {
        0
    } else {
        ms[i].uncompressed_data_size + entry_run_size(ms, index, i + 1)
    }
}

/// `flags` with `bit` set where `value` holds and cleared elsewhere.
pub open spec fn with_bit(flags: u64, bit: u64, value: bool) -> u64 {
    if value {
        flags | bit
    } else {
        flags & !bit
    }
}

/// The size of the optional fields that `flags` marks as present.
pub open spec fn entry_optional_size(flags: u64) -> int {
    (if flags & COLD_HAS_RENT_EPOCH > 0 {
        8int
    } else {
        0
    }) + (if flags & COLD_HAS_ACCOUNT_HASH > 0 {
        32int
    } else {
        0
    }) + (if flags & COLD_HAS_WRITE_VERSION > 0 {
        8int
    } else {
        0
    }) + (if flags & COLD_HAS_DATA_LENGTH > 0 {
        8int
    } else {
        0
    })
}

proof fn lemma_entry_run_size_nonneg(ms: Seq<AccountMetaStorageEntry>, index: int, i: int)
    ensures
        entry_run_size(ms, index, i) >= 0,
    decreases ms.len() - i,
{
    if !(i < 0 || i >= ms.len() || ms[i].block_offset != ms[index].block_offset) {
        lemma_entry_run_size_nonneg(ms, index, i + 1);
    }
}

impl AccountMetaStorageEntry {
    /// An entry with every field zero.
    pub fn new() -> (r: AccountMetaStorageEntry)
        ensures
            r == (AccountMetaStorageEntry {
                lamports: 0,
                block_offset: 0,
                uncompressed_data_size: 0,
                intra_block_offset: 0,
                owner_local_id: 0,
                flags: 0,
            }),
    {
        AccountMetaStorageEntry {
            lamports: 0,
            block_offset: 0,
            uncompressed_data_size: 0,
            intra_block_offset: 0,
            owner_local_id: 0,
            flags: 0,
        }
    }

    pub fn lamports(&self) -> (r: u64)
        ensures
            r == self.lamports,
    {
        self.lamports
    }

    /// Appends the 32 stored bytes of this entry to `out`.
    pub fn write_account_meta_entry(&self, out: &mut Vec<u8>) -> (r: usize)
        ensures
            final(out)@ == old(out)@ + entry_bytes(*self),
            r == COLD_META_SIZE,
    {
        let ghost start = out@;
        push_u64(out, self.lamports);
        push_u64(out, self.block_offset);
        push_u16(out, self.uncompressed_data_size);
        push_u16(out, self.intra_block_offset);
        push_u32(out, self.owner_local_id);
        push_u64(out, self.flags);
        assert(out@ =~= start + entry_bytes(*self));
        COLD_META_SIZE
    }

    /// Reads the entry stored in `s` at `off`.
    pub fn new_from_bytes(s: &[u8], off: usize) -> (r: AccountMetaStorageEntry)
        requires
            off + 32 <= s@.len(),
        ensures
            r == entry_at(s@, off as int),
    {
        let n = s.len();
        AccountMetaStorageEntry {
            lamports: read_u64(s, off),
            block_offset: read_u64(s, off + 8),
            uncompressed_data_size: read_u16(s, off + 16),
            intra_block_offset: read_u16(s, off + 18),
            owner_local_id: read_u32(s, off + 20),
            flags: read_u64(s, off + 24),
        }
    }

    pub fn block_offset(&self) -> (r: u64)
        ensures
            r == self.block_offset,
    {
        self.block_offset
    }

    pub fn set_block_offset(&mut self, offset: u64)
        ensures
            *final(self) == (AccountMetaStorageEntry { block_offset: offset, ..*old(self) }),
    {
        self.block_offset = offset;
    }

    pub fn uncompressed_data_size(&self) -> (r: u16)
        ensures
            r == self.uncompressed_data_size,
    {
        self.uncompressed_data_size
    }

    pub fn intra_block_offset(&self) -> (r: u16)
        ensures
            r == self.intra_block_offset,
    {
        self.intra_block_offset
    }

    pub fn owner_local_id(&self) -> (r: u32)
        ensures
            r == self.owner_local_id,
    {
        self.owner_local_id
    }

    pub fn with_lamports(self, lamports: u64) -> (r: AccountMetaStorageEntry)
        ensures
            r == (AccountMetaStorageEntry { lamports, ..self }),
    {
        AccountMetaStorageEntry { lamports, ..self }
    }

    pub fn with_block_offset(self, offset: u64) -> (r: AccountMetaStorageEntry)
        ensures
            r == (AccountMetaStorageEntry { block_offset: offset, ..self }),
    {
        AccountMetaStorageEntry { block_offset: offset, ..self }
    }

    pub fn with_owner_local_id(self, local_id: u32) -> (r: AccountMetaStorageEntry)
        ensures
            r == (AccountMetaStorageEntry { owner_local_id: local_id, ..self }),
    {
        AccountMetaStorageEntry { owner_local_id: local_id, ..self }
    }

    pub fn with_uncompressed_data_size(self, data_size: u16) -> (r: AccountMetaStorageEntry)
        ensures
            r == (AccountMetaStorageEntry { uncompressed_data_size: data_size, ..self }),
    {
        AccountMetaStorageEntry { uncompressed_data_size: data_size, ..self }
    }

    pub fn with_intra_block_offset(self, offset: u16) -> (r: AccountMetaStorageEntry)
        ensures
            r == (AccountMetaStorageEntry { intra_block_offset: offset, ..self }),
    {
        AccountMetaStorageEntry { intra_block_offset: offset, ..self }
    }

    pub fn with_flags(self, flags: u64) -> (r: AccountMetaStorageEntry)
        ensures
            r == (AccountMetaStorageEntry { flags, ..self }),
    {
        AccountMetaStorageEntry { flags, ..self }
    }

    /// Sets the presence bits of the optional fields from `fields`.
    pub fn with_optional_fields(self, fields: &AccountMetaOptionalFields) -> (r: AccountMetaStorageEntry)
        ensures
            r == (AccountMetaStorageEntry {
                flags: with_bit(
                    with_bit(
                        with_bit(self.flags, COLD_HAS_RENT_EPOCH, fields.rent_epoch.is_some()),
                        COLD_HAS_ACCOUNT_HASH,
                        fields.account_hash.is_some(),
                    ),
                    COLD_HAS_WRITE_VERSION,
                    fields.write_version.is_some(),
                ),
                ..self
            }),
    {
        let mut flags = self.flags;
        flags = if fields.rent_epoch.is_some() {
            flags | COLD_HAS_RENT_EPOCH
        } else {
            flags & !COLD_HAS_RENT_EPOCH
        };
        flags = if fields.account_hash.is_some() {
            flags | COLD_HAS_ACCOUNT_HASH
        } else {
            flags & !COLD_HAS_ACCOUNT_HASH
        };
        flags = if fields.write_version.is_some() {
            flags | COLD_HAS_WRITE_VERSION
        } else {
            flags & !COLD_HAS_WRITE_VERSION
        };
        AccountMetaStorageEntry { flags, ..self }
    }

    /// Whether any bit of `bit_field` is set in the flags.
    pub fn flags_get(&self, bit_field: u64) -> (r: bool)
        ensures
            r == (self.flags & bit_field > 0),
    {
        self.flags & bit_field > 0
    }

    /// The size of the optional fields that the flags mark as present.
    pub fn optional_fields_size(&self) -> (r: usize)
        ensures
            r == entry_optional_size(self.flags),
    {
        let mut size: usize = 0;
        if self.flags_get(COLD_HAS_RENT_EPOCH) {
            size = size + 8;
        }
        if self.flags_get(COLD_HAS_ACCOUNT_HASH) {
            size = size + 32;
        }
        if self.flags_get(COLD_HAS_WRITE_VERSION) {
            size = size + 8;
        }
        if self.flags_get(COLD_HAS_DATA_LENGTH) {
            size = size + 8;
        }
        size
    }

    /// Whether the account owns its whole data block.
    pub fn is_blob_account(&self) -> (r: bool)
        ensures
            r == (self.uncompressed_data_size == ACCOUNT_DATA_ENTIRE_BLOCK
                && self.intra_block_offset == 0),
    {
        self.uncompressed_data_size == ACCOUNT_DATA_ENTIRE_BLOCK && self.intra_block_offset == 0
    }

    /// Where the optional fields start inside `data_block`.
    pub fn optional_fields_offset(&self, data_block: &[u8]) -> (r: usize)
        ensures
            self.uncompressed_data_size == ACCOUNT_DATA_ENTIRE_BLOCK && self.intra_block_offset
                == 0 ==> r == if data_block@.len() >= entry_optional_size(self.flags) {
                data_block@.len() - entry_optional_size(self.flags)
            } else {
                0
            },
            !(self.uncompressed_data_size == ACCOUNT_DATA_ENTIRE_BLOCK && self.intra_block_offset
                == 0) ==> r == self.intra_block_offset + self.uncompressed_data_size,
    {
        if self.is_blob_account() {
            let size = self.optional_fields_size();
            if data_block.len() >= size {
                data_block.len() - size
            } else {
                0
            }
        } else {
            self.intra_block_offset as usize + self.uncompressed_data_size as usize
        }
    }

    /// The data of the account inside `data_block`.
    pub fn account_data<'a>(&self, data_block: &'a [u8]) -> (r: &'a [u8])
        requires
            self.intra_block_offset as int <= (if self.uncompressed_data_size
                == ACCOUNT_DATA_ENTIRE_BLOCK && self.intra_block_offset == 0 {
                if data_block@.len() >= entry_optional_size(self.flags) {
                    data_block@.len() - entry_optional_size(self.flags)
                } else {
                    0
                }
            } else {
                self.intra_block_offset + self.uncompressed_data_size
            }) <= data_block@.len(),
        ensures
            r@ == data_block@.subrange(
                self.intra_block_offset as int,
                self.intra_block_offset + (if self.uncompressed_data_size == ACCOUNT_DATA_ENTIRE_BLOCK
                    && self.intra_block_offset == 0 {
                    if data_block@.len() >= entry_optional_size(self.flags) {
                        data_block@.len() - entry_optional_size(self.flags)
                    } else {
                        0
                    }
                } else {
                    self.uncompressed_data_size as int
                }),
            ),
    {
        let end = self.optional_fields_offset(data_block);
        slice_subrange(data_block, self.intra_block_offset as usize, end)
    }

    /// The uncompressed size of the block that entry `index` lies in: the
    /// data sizes of the entries from `index` on that share its block, or 0
    /// past the last entry.
    pub fn get_raw_block_size(metas: &Vec<AccountMetaStorageEntry>, index: usize) -> (r: usize)
        requires
            index < metas@.len() ==> entry_run_size(metas@, index as int, index as int) <= 0xffff,
        ensures
            index >= metas@.len() ==> r == 0,
            index < metas@.len() ==> r == entry_run_size(metas@, index as int, index as int),
    {
        let n = metas.len();
        if index >= n {
            return 0;
        }
        let ghost total = entry_run_size(metas@, index as int, index as int);
        let mut i = index;
        let mut size: usize = 0;
        while i < n && metas[i].block_offset == metas[index].block_offset
            invariant
                index <= i <= n,
                index < n,
                n == metas@.len(),
                total == entry_run_size(metas@, index as int, index as int),
                total <= 0xffff,
                size + entry_run_size(metas@, index as int, i as int) == total,
            decreases n - i,
        {
            proof {
                lemma_entry_run_size_nonneg(metas@, index as int, i + 1);
            }
            size = size + metas[i].uncompressed_data_size as usize;
            i = i + 1;
        }
        size
    }
}

} // verus!
