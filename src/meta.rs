//! The per-account metadata entry, its flags and its optional fields.
use vstd::prelude::*;
use crate::bytes::{
    eq_32, lemma_u64_le_round_trip, push_bytes, push_u32, push_u64, read_u32, read_u64, u32_at,
    u32_le, u64_at, u64_le,
};

verus! {

/// The size of a 32-byte address or hash.
pub const ADDRESS_SIZE: usize = 32;

/// The size of a hot account metadata entry in bytes.
pub const HOT_META_SIZE: usize = 16;

/// The maximum number of padding bytes used in a hot account entry.
pub const MAX_HOT_PADDING: u8 = 7;

/// The maximum allowed value for the owner index of a hot account.
pub const MAX_HOT_OWNER_INDEX: u32 = 0x1fff_ffff;

/// The `rent_epoch` value that marks the field as absent.
pub const RENT_EXEMPT_RENT_EPOCH: u64 = 0xffff_ffff_ffff_ffff;

/// The `write_version` value that marks the field as absent.
pub const NO_WRITE_VERSION: u64 = 0xffff_ffff_ffff_ffff;

/// A 32-byte account address.
#[derive(Clone, Copy, Debug, PartialEq, Eq)]
pub struct Pubkey {
    pub bytes: [u8; 32],
}

impl Pubkey {
    pub fn new(bytes: [u8; 32]) -> (r: Pubkey)
        ensures
            r.bytes == bytes,
    {
        Pubkey { bytes }
    }

    /// Whether two addresses hold the same bytes.
    pub fn same_as(&self, other: &Pubkey) -> (r: bool)
        ensures
            r == (self.bytes@ == other.bytes@),
    {
        eq_32(&self.bytes, &other.bytes)
    }
}

/// A 32-byte account content hash; all zeroes means "no hash".
#[derive(Clone, Copy, Debug, PartialEq, Eq)]
pub struct AccountHash {
    pub bytes: [u8; 32],
}

/// The 32 zero bytes.
pub open spec fn zero_32() -> Seq<u8> {
    Seq::new(32, |k: int| 0u8)
}

impl AccountHash {
    pub fn new(bytes: [u8; 32]) -> (r: AccountHash)
        ensures
            r.bytes == bytes,
    {
        AccountHash { bytes }
    }

    /// The all-zero hash, which marks an absent hash.
    pub fn zeroed() -> (r: AccountHash)
        ensures
            r.bytes@ == zero_32(),
    {
        let r = AccountHash { bytes: [0u8; 32] };
        assert(r.bytes@ =~= zero_32());
        r
    }

    /// Whether this hash is the all-zero hash.
    pub fn is_zero(&self) -> (r: bool)
        ensures
            r == (self.bytes@ == zero_32()),
    {
        let z = AccountHash::zeroed();
        eq_32(&self.bytes, &z.bytes)
    }
}

/// The boolean flags of an account metadata entry.
#[derive(Clone, Copy, Debug, PartialEq, Eq, Structural)]
pub struct AccountMetaFlags {
    /// whether the account block stores a rent epoch
    pub has_rent_epoch: bool,
    /// whether the account block stores an account hash
    pub has_account_hash: bool,
    /// whether the account block stores a write version
    pub has_write_version: bool,
    /// whether the account data is executable
    pub executable: bool,
}

/// Flags with every bit cleared.
pub open spec fn no_flags() -> AccountMetaFlags {
    AccountMetaFlags {
        has_rent_epoch: false,
        has_account_hash: false,
        has_write_version: false,
        executable: false,
    }
}

pub open spec fn bit(b: bool) -> u32 {
    if b {
        1
    } else {
        0
    }
}

/// The 32-bit word that stores `f`: bit 0 rent epoch, bit 1 account hash,
/// bit 2 write version, bit 3 executable, the other bits zero.
pub open spec fn flags_word(f: AccountMetaFlags) -> u32 {
    bit(f.has_rent_epoch) | (bit(f.has_account_hash) << 1u32) | (bit(f.has_write_version) << 2u32)
        | (bit(f.executable) << 3u32)
}

/// The flags that a stored 32-bit word holds.
pub open spec fn flags_of(w: u32) -> AccountMetaFlags {
    AccountMetaFlags {
        has_rent_epoch: w & 1 != 0,
        has_account_hash: (w >> 1u32) & 1 != 0,
        has_write_version: (w >> 2u32) & 1 != 0,
        executable: (w >> 3u32) & 1 != 0,
    }
}

pub proof fn lemma_flags_round_trip(f: AccountMetaFlags)
    ensures
        flags_of(flags_word(f)) == f,
{
    let a = bit(f.has_rent_epoch);
    let b = bit(f.has_account_hash);
    let c = bit(f.has_write_version);
    let d = bit(f.executable);
    let w = flags_word(f);
    assert(w & 1 == a && (w >> 1u32) & 1 == b && (w >> 2u32) & 1 == c && (w >> 3u32) & 1 == d)
        by (bit_vector)
        requires
            a <= 1,
            b <= 1,
            c <= 1,
            d <= 1,
            w == a | (b << 1u32) | (c << 2u32) | (d << 3u32),
    ;
}

impl AccountMetaFlags {
    /// Flags with every bit cleared.
    pub fn new() -> (r: AccountMetaFlags)
        ensures
            r == no_flags(),
    {
        AccountMetaFlags {
            has_rent_epoch: false,
            has_account_hash: false,
            has_write_version: false,
            executable: false,
        }
    }

    /// The flags that record which of `optional_fields` are present.
    pub fn new_from(optional_fields: &AccountMetaOptionalFields) -> (r: AccountMetaFlags)
        ensures
            r.has_rent_epoch == optional_fields.rent_epoch.is_some(),
            r.has_account_hash == optional_fields.account_hash.is_some(),
            r.has_write_version == optional_fields.write_version.is_some(),
            !r.executable,
    {
        AccountMetaFlags {
            has_rent_epoch: optional_fields.rent_epoch.is_some(),
            has_account_hash: optional_fields.account_hash.is_some(),
            has_write_version: optional_fields.write_version.is_some(),
            executable: false,
        }
    }

    /// The stored 32-bit form of these flags.
    pub fn to_u32(&self) -> (r: u32)
        ensures
            r == flags_word(*self),
    {
        let a: u32 = if self.has_rent_epoch {
            1
        } else {
            0
        };
        let b: u32 = if self.has_account_hash {
            1
        } else {
            0
        };
        let c: u32 = if self.has_write_version {
            1
        } else {
            0
        };
        let d: u32 = if self.executable {
            1
        } else {
            0
        };
        a | (b << 1u32) | (c << 2u32) | (d << 3u32)
    }

    /// The flags that the stored 32-bit word `w` holds.
    pub fn from_u32(w: u32) -> (r: AccountMetaFlags)
        ensures
            r == flags_of(w),
    {
        AccountMetaFlags {
            has_rent_epoch: w & 1 != 0,
            has_account_hash: (w >> 1u32) & 1 != 0,
            has_write_version: (w >> 2u32) & 1 != 0,
            executable: (w >> 3u32) & 1 != 0,
        }
    }
}

/// The optional fields that may trail an account's data.
#[derive(Clone, Copy, Debug, PartialEq, Eq)]
pub struct AccountMetaOptionalFields {
    /// the epoch at which the account will next owe rent
    pub rent_epoch: Option<u64>,
    /// the hash of the account
    pub account_hash: Option<AccountHash>,
    /// the write version of the account
    pub write_version: Option<u64>,
}

/// The number of bytes that the optional fields marked in `f` take.
pub open spec fn optional_size(f: AccountMetaFlags) -> int {
    (if f.has_rent_epoch {
        8int
    } else {
        0
    }) + (if f.has_account_hash {
        32int
    } else {
        0
    }) + (if f.has_write_version {
        8int
    } else {
        0
    })
}

/// The flags that mark which of `o` are present (executable cleared).
pub open spec fn flags_for(o: AccountMetaOptionalFields) -> AccountMetaFlags {
    AccountMetaFlags {
        has_rent_epoch: o.rent_epoch.is_some(),
        has_account_hash: o.account_hash.is_some(),
        has_write_version: o.write_version.is_some(),
        executable: false,
    }
}

/// The stored bytes of the optional fields: rent epoch, then hash, then
/// write version, each only if present.
pub open spec fn optional_bytes(o: AccountMetaOptionalFields) -> Seq<u8> {
    (match o.rent_epoch {
        Some(e) => u64_le(e),
        None => Seq::<u8>::empty(),
    }) + (match o.account_hash {
        Some(h) => h.bytes@,
        None => Seq::<u8>::empty(),
    }) + (match o.write_version {
        Some(v) => u64_le(v),
        None => Seq::<u8>::empty(),
    })
}

pub proof fn lemma_optional_bytes_len(o: AccountMetaOptionalFields)
    ensures
        optional_bytes(o).len() == optional_size(flags_for(o)),
{
    lemma_u64_le_round_trip(0);
    if let Some(e) = o.rent_epoch {
        lemma_u64_le_round_trip(e);
    }
    if let Some(v) = o.write_version {
        lemma_u64_le_round_trip(v);
    }
}

impl AccountMetaOptionalFields {
    /// The size of the optional fields in bytes.
    pub fn size(&self) -> (r: usize)
        ensures
            r == optional_size(flags_for(*self)),
    {
        (if self.rent_epoch.is_some() {
            8usize
        } else {
            0
        }) + (if self.account_hash.is_some() {
            32usize
        } else {
            0
        }) + (if self.write_version.is_some() {
            8usize
        } else {
            0
        })
    }

    /// The size of the optional fields that `flags` marks as present.
    pub fn size_from_flags(flags: &AccountMetaFlags) -> (r: usize)
        ensures
            r == optional_size(*flags),
    {
        (if flags.has_rent_epoch {
            8usize
        } else {
            0
        }) + (if flags.has_account_hash {
            32usize
        } else {
            0
        }) + (if flags.has_write_version {
            8usize
        } else {
            0
        })
    }

    /// The offset of the rent epoch inside the optional fields.
    pub fn rent_epoch_offset(flags: &AccountMetaFlags) -> (r: usize)
        ensures
            r == 0,
    {
        0
    }

    /// The offset of the account hash inside the optional fields.
    pub fn account_hash_offset(flags: &AccountMetaFlags) -> (r: usize)
        ensures
            r == (if flags.has_rent_epoch {
                8int
            } else {
                0
            }),
    {
        if flags.has_rent_epoch {
            8
        } else {
            0
        }
    }

    /// The offset of the write version inside the optional fields.
    pub fn write_version_offset(flags: &AccountMetaFlags) -> (r: usize)
        ensures
            r == (if flags.has_rent_epoch {
                8int
            } else {
                0
            }) + (if flags.has_account_hash {
                32int
            } else {
                0
            }),
    {
        Self::account_hash_offset(flags) + if flags.has_account_hash {
            32
        } else {
            0
        }
    }

    /// Appends the stored bytes of the present fields to `out`.
    pub fn write(&self, out: &mut Vec<u8>)
        ensures
            final(out)@ == old(out)@ + optional_bytes(*self),
    {
        let ghost start = out@;
        if let Some(e) = self.rent_epoch {
            push_u64(out, e);
        }
        let ghost after_rent = out@;
        if let Some(h) = self.account_hash {
            push_bytes(out, h.bytes.as_slice());
        }
        let ghost after_hash = out@;
        if let Some(v) = self.write_version {
            push_u64(out, v);
        }
        assert(out@ =~= start + optional_bytes(*self));
    }
}

/// The metadata entry of a hot account: 16 bytes on disk.
#[derive(Clone, Copy, Debug, PartialEq, Eq, Structural)]
pub struct HotAccountMeta {
    /// the balance of the account
    pub lamports: u64,
    /// the number of padding bytes after the account data
    pub padding: u8,
    /// the index of the account's owner in the owners block
    pub owner_index: u32,
    /// the flags of the account
    pub flags: AccountMetaFlags,
}

/// The packed word: padding in bits 29..31, owner index in bits 0..28.
pub open spec fn packed_word(padding: u8, owner_index: u32) -> u32 {
    ((padding as u32) << 29u32) | owner_index
}

/// The 16 stored bytes of `m`.
pub open spec fn meta_bytes(m: HotAccountMeta) -> Seq<u8> {
    u64_le(m.lamports) + u32_le(packed_word(m.padding, m.owner_index)) + u32_le(
        flags_word(m.flags),
    )
}

/// The metadata entry stored in `s` at `off`.
pub open spec fn meta_at(s: Seq<u8>, off: int) -> HotAccountMeta {
    let packed = u32_at(s, off + 8);
    HotAccountMeta {
        lamports: u64_at(s, off),
        padding: (packed >> 29u32) as u8,
        owner_index: packed & 0x1fff_ffffu32,
        flags: flags_of(u32_at(s, off + 12)),
    }
}

pub proof fn lemma_packed_round_trip(padding: u8, owner_index: u32)
    requires
        padding <= 7,
        owner_index <= 0x1fff_ffff,
    ensures
        (packed_word(padding, owner_index) >> 29u32) as u8 == padding,
        packed_word(padding, owner_index) & 0x1fff_ffffu32 == owner_index,
{
    let p = padding as u32;
    let w = packed_word(padding, owner_index);
    assert(w >> 29u32 == p && w & 0x1fff_ffffu32 == owner_index) by (bit_vector)
        requires
            p <= 7,
            owner_index <= 0x1fff_ffff,
            w == (p << 29u32) | owner_index,
    ;
}

impl HotAccountMeta {
    /// Whether the packed fields fit their bit widths.
    pub open spec fn wf(&self) -> bool {
        self.padding <= 7 && self.owner_index <= 0x1fff_ffff
    }

    /// A metadata entry with every field zero.
    pub fn new() -> (r: HotAccountMeta)
        ensures
            r.lamports == 0,
            r.padding == 0,
            r.owner_index == 0,
            r.flags == no_flags(),
            r.wf(),
    {
        HotAccountMeta { lamports: 0, padding: 0, owner_index: 0, flags: AccountMetaFlags::new() }
    }

    /// Sets the balance.
    pub fn with_lamports(self, lamports: u64) -> (r: HotAccountMeta)
        ensures
            r == (HotAccountMeta { lamports, ..self }),
    {
        HotAccountMeta { lamports, ..self }
    }

    /// Sets the number of padding bytes after the account data.
    pub fn with_account_data_padding(self, padding: u8) -> (r: HotAccountMeta)
        requires
            padding <= MAX_HOT_PADDING,
        ensures
            r == (HotAccountMeta { padding, ..self }),
    {
        HotAccountMeta { padding, ..self }
    }

    /// Sets the index of the owner in the owners block.
    pub fn with_owner_index(self, owner_index: u32) -> (r: HotAccountMeta)
        requires
            owner_index <= MAX_HOT_OWNER_INDEX,
        ensures
            r == (HotAccountMeta { owner_index, ..self }),
    {
        HotAccountMeta { owner_index, ..self }
    }

    /// Sets the flags.
    pub fn with_flags(self, flags: &AccountMetaFlags) -> (r: HotAccountMeta)
        ensures
            r == (HotAccountMeta { flags: *flags, ..self }),
    {
        HotAccountMeta { flags: *flags, ..self }
    }

    pub fn lamports(&self) -> (r: u64)
        ensures
            r == self.lamports,
    {
        self.lamports
    }

    pub fn account_data_padding(&self) -> (r: u8)
        ensures
            r == self.padding,
    {
        self.padding
    }

    pub fn owner_index(&self) -> (r: u32)
        ensures
            r == self.owner_index,
    {
        self.owner_index
    }

    pub fn flags(&self) -> (r: &AccountMetaFlags)
        ensures
            *r == self.flags,
    {
        &self.flags
    }

    /// Appends the 16 stored bytes of this entry to `out`.
    pub fn write(&self, out: &mut Vec<u8>)
        requires
            self.wf(),
        ensures
            final(out)@ == old(out)@ + meta_bytes(*self),
    {
        let ghost start = out@;
        push_u64(out, self.lamports);
        push_u32(out, ((self.padding as u32) << 29u32) | self.owner_index);
        push_u32(out, self.flags.to_u32());
        assert(out@ =~= start + meta_bytes(*self));
    }

    /// Reads the entry stored in `s` at `off`.
    pub fn read(s: &[u8], off: usize) -> (r: HotAccountMeta)
        requires
            off + 16 <= s@.len(),
        ensures
            r == meta_at(s@, off as int),
            r.wf(),
    {
        let n: usize = s.len();
        let packed = read_u32(s, off + 8);
        let high = packed >> 29u32;
        assert(high <= 7 && packed & 0x1fff_ffffu32 <= 0x1fff_ffff) by (bit_vector)
            requires
                high == packed >> 29u32,
        ;
        HotAccountMeta {
            lamports: read_u64(s, off),
            padding: high as u8,
            owner_index: packed & 0x1fff_ffffu32,
            flags: AccountMetaFlags::from_u32(read_u32(s, off + 12)),
        }
    }

    /// The offset of the optional fields inside `account_block`, the bytes
    /// that follow this entry up to the next entry.
    pub fn optional_fields_offset(&self, account_block: &[u8]) -> (r: usize)
        ensures
            r == if account_block@.len() >= optional_size(self.flags) {
                account_block@.len() - optional_size(self.flags)
            } else {
                0
            },
    {
        let size = AccountMetaOptionalFields::size_from_flags(&self.flags);
        if account_block.len() >= size {
            account_block.len() - size
        } else {
            0
        }
    }

    /// The length of the account data inside `account_block`.
    pub fn account_data_size(&self, account_block: &[u8]) -> (r: usize)
        ensures
            r == data_size_in(*self, account_block@.len() as int),
    {
        let off = self.optional_fields_offset(account_block);
        if off >= self.padding as usize {
            off - self.padding as usize
        } else {
            0
        }
    }
}

/// The data length that an account block of `block_len` bytes (after the
/// metadata entry) holds: what remains without optional fields and padding.
pub open spec fn data_size_in(m: HotAccountMeta, block_len: int) -> int {
    let off = if block_len >= optional_size(m.flags) {
        block_len - optional_size(m.flags)
    } else {
        0
    };
    if off >= m.padding {
        off - m.padding
    } else {
        0
    }
}

} // verus!
