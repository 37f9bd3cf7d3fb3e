//! The read path: validates a whole file, then answers positional queries.
use vstd::prelude::*;
use vstd::slice::slice_subrange;
use crate::bytes::{copy_range, eq_32, read_32, read_u64, u64_at};
use crate::error::{TieredStorageError, TieredStorageResult};
use crate::footer::{
    footer_at, spec_array32, TieredStorageFooter, FOOTER_FORMAT_VERSION, FOOTER_MAGIC_NUMBER,
};
use crate::hash::{blake3_digest, blake3_of};
use crate::meta::{
    data_size_in, meta_at, optional_size, AccountHash, AccountMetaOptionalFields, HotAccountMeta,
    Pubkey, NO_WRITE_VERSION, RENT_EXEMPT_RENT_EPOCH,
};

verus! {

/// Why an account's owner is not reported as one of a list of owners.
#[derive(Clone, Copy, Debug, PartialEq, Eq, Structural)]
pub enum MatchAccountOwnerError {
    /// the owner is none of the listed ones
    NoMatch,
    /// there is no account at that position
    UnableToLoad,
}

/// The file ends in the magic number.
pub open spec fn magic_ok(s: Seq<u8>) -> bool {
    s.len() >= 8 && u64_at(s, s.len() - 8) == FOOTER_MAGIC_NUMBER
}

/// The footer tail names the format version that this library reads.
pub open spec fn version_ok(s: Seq<u8>) -> bool {
    magic_ok(s) && s.len() >= 24 && u64_at(s, s.len() - 16) == FOOTER_FORMAT_VERSION
}

/// The footer has its size and formats that this library reads.
pub open spec fn footer_ok(s: Seq<u8>) -> bool {
    version_ok(s) && u64_at(s, s.len() - 24) == 184 && s.len() >= 192 && footer_at(
        s,
        s.len() - 192,
    ).is_ok()
}

/// The footer of a file.
pub open spec fn file_footer(s: Seq<u8>) -> TieredStorageFooter {
    footer_at(s, s.len() - 192).unwrap()
}

/// The hash of the bytes that the content hash covers.
pub open spec fn computed_hash(s: Seq<u8>) -> Seq<u8> {
    blake3_of(s.take(s.len() - 56))
}

/// The stored content hash matches the computed one.
pub open spec fn hash_ok(s: Seq<u8>) -> bool {
    footer_ok(s) && file_footer(s).hash.bytes == spec_array32(computed_hash(s))
}

/// Where the block offsets of the index block start.
pub open spec fn offsets_start(f: TieredStorageFooter) -> int {
    f.index_block_offset + 32 * f.account_entry_count
}

/// The offset of the `i`-th account block.
pub open spec fn block_offset_at(s: Seq<u8>, f: TieredStorageFooter, i: int) -> int {
    u64_at(s, offsets_start(f) + 8 * i) as int
}

/// The first block offset from entry `j` on that differs from the offset of
/// entry `i`, or the index block where none does.
pub open spec fn block_end_from(s: Seq<u8>, f: TieredStorageFooter, i: int, j: int) -> int
    decreases f.account_entry_count - j,
{
    if j < 0 || j >= f.account_entry_count {
        f.index_block_offset as int
    } else if block_offset_at(s, f, j) != block_offset_at(s, f, i) {
        block_offset_at(s, f, j)
    } else {
        block_end_from(s, f, i, j + 1)
    }
}

/// Where the `i`-th account block ends: at the first later block offset that
/// differs from its own (entries may share a block), or at the index block
/// where no later offset differs.
pub open spec fn block_end_at(s: Seq<u8>, f: TieredStorageFooter, i: int) -> int {
    block_end_from(s, f, i, i + 1)
}

/// The metadata entry of the `i`-th account.
pub open spec fn meta_of(s: Seq<u8>, f: TieredStorageFooter, i: int) -> HotAccountMeta {
    meta_at(s, block_offset_at(s, f, i))
}

/// The `i`-th account block holds its metadata entry, padding and optional
/// fields, lies before the index block, and names an owner of the table.
pub open spec fn block_ok(s: Seq<u8>, f: TieredStorageFooter, i: int) -> bool {
    let off = block_offset_at(s, f, i);
    let end = block_end_at(s, f, i);
    let m = meta_of(s, f, i);
    &&& off + 16 <= end
    &&& end <= f.index_block_offset
    &&& off + 16 + optional_size(m.flags) + m.padding <= end
    &&& m.owner_index < f.owner_count
}

/// The blocks of the file fit together as the footer says.
pub open spec fn layout_ok(s: Seq<u8>, f: TieredStorageFooter) -> bool {
    &&& f.index_block_offset + 40 * f.account_entry_count == f.owners_block_offset
    &&& f.owners_block_offset + 32 * f.owner_count + 192 == s.len()
    &&& forall|i: int| 0 <= i < f.account_entry_count ==> #[trigger] block_ok(s, f, i)
}

/// The bytes form a tiered storage file that this library reads.
pub open spec fn valid_file(s: Seq<u8>) -> bool {
    hash_ok(s) && layout_ok(s, file_footer(s))
}

/// Where the optional fields of the `i`-th account start.
pub open spec fn optional_start(s: Seq<u8>, f: TieredStorageFooter, i: int) -> int {
    block_end_at(s, f, i) - optional_size(meta_of(s, f, i).flags)
}

/// The data length of the `i`-th account.
pub open spec fn data_len_of(s: Seq<u8>, f: TieredStorageFooter, i: int) -> int {
    optional_start(s, f, i) - meta_of(s, f, i).padding - (block_offset_at(s, f, i) + 16)
}

/// The data of the `i`-th account.
pub open spec fn data_of(s: Seq<u8>, f: TieredStorageFooter, i: int) -> Seq<u8> {
    let start = block_offset_at(s, f, i) + 16;
    s.subrange(start, start + data_len_of(s, f, i))
}

/// The address of the `i`-th account.
pub open spec fn address_of(s: Seq<u8>, f: TieredStorageFooter, i: int) -> Seq<u8> {
    s.subrange(f.index_block_offset + 32 * i, f.index_block_offset + 32 * i + 32)
}

/// The address of the owner with index `k`.
pub open spec fn owner_at(s: Seq<u8>, f: TieredStorageFooter, k: int) -> Seq<u8> {
    s.subrange(f.owners_block_offset + 32 * k, f.owners_block_offset + 32 * k + 32)
}

/// The owner of the `i`-th account.
pub open spec fn owner_of(s: Seq<u8>, f: TieredStorageFooter, i: int) -> Seq<u8> {
    owner_at(s, f, meta_of(s, f, i).owner_index as int)
}

/// The stored rent epoch of the `i`-th account.
pub open spec fn rent_epoch_of(s: Seq<u8>, f: TieredStorageFooter, i: int) -> Option<u64> {
    if meta_of(s, f, i).flags.has_rent_epoch {
        Some(u64_at(s, optional_start(s, f, i)))
    } else {
        None
    }
}

/// Where the hash of the `i`-th account is stored.
pub open spec fn hash_start(s: Seq<u8>, f: TieredStorageFooter, i: int) -> int {
    optional_start(s, f, i) + if meta_of(s, f, i).flags.has_rent_epoch {
        8int
    } else {
        0
    }
}

/// The stored hash of the `i`-th account.
pub open spec fn hash_of(s: Seq<u8>, f: TieredStorageFooter, i: int) -> Option<Seq<u8>> {
    if meta_of(s, f, i).flags.has_account_hash {
        Some(s.subrange(hash_start(s, f, i), hash_start(s, f, i) + 32))
    } else {
        None
    }
}

/// The stored write version of the `i`-th account.
pub open spec fn write_version_of(s: Seq<u8>, f: TieredStorageFooter, i: int) -> Option<u64> {
    if meta_of(s, f, i).flags.has_write_version {
        Some(
            u64_at(
                s,
                hash_start(s, f, i) + if meta_of(s, f, i).flags.has_account_hash {
                    32int
                } else {
                    0
                },
            ),
        )
    } else {
        None
    }
}

/// An account read back from a file, with the position that it was read at
/// (its logical index times the alignment boundary).
#[derive(Clone, Debug, PartialEq, Eq)]
pub struct TieredReadableAccount {
    pub address: Pubkey,
    pub owner: Pubkey,
    pub lamports: u64,
    pub executable: bool,
    pub rent_epoch: Option<u64>,
    pub account_hash: Option<AccountHash>,
    pub write_version: Option<u64>,
    pub data: Vec<u8>,
    pub index: usize,
}

/// `r` holds what the file `s` with footer `f` stores for its `i`-th account.
pub open spec fn read_as(r: TieredReadableAccount, s: Seq<u8>, f: TieredStorageFooter, i: int) -> bool {
    &&& r.address.bytes@ == address_of(s, f, i)
    &&& r.owner.bytes@ == owner_of(s, f, i)
    &&& r.lamports == meta_of(s, f, i).lamports
    &&& r.executable == meta_of(s, f, i).flags.executable
    &&& r.rent_epoch == rent_epoch_of(s, f, i)
    &&& (r.account_hash matches Some(h) ==> hash_of(s, f, i) == Some(h.bytes@))
    &&& (r.account_hash is None ==> hash_of(s, f, i) is None)
    &&& r.write_version == write_version_of(s, f, i)
    &&& r.data@ == data_of(s, f, i)
}

impl TieredReadableAccount {
    pub fn pubkey(&self) -> (r: &Pubkey)
        ensures
            *r == self.address,
    {
        &self.address
    }

    pub fn owner(&self) -> (r: &Pubkey)
        ensures
            *r == self.owner,
    {
        &self.owner
    }

    pub fn lamports(&self) -> (r: u64)
        ensures
            r == self.lamports,
    {
        self.lamports
    }

    pub fn executable(&self) -> (r: bool)
        ensures
            r == self.executable,
    {
        self.executable
    }

    /// The rent epoch, or `u64::MAX` where none is stored.
    pub fn rent_epoch(&self) -> (r: u64)
        ensures
            r == match self.rent_epoch {
                Some(e) => e,
                None => RENT_EXEMPT_RENT_EPOCH,
            },
    {
        match self.rent_epoch {
            Some(e) => e,
            None => RENT_EXEMPT_RENT_EPOCH,
        }
    }

    /// The account hash, or all zeroes where none is stored.
    pub fn hash(&self) -> (r: AccountHash)
        ensures
            self.account_hash matches Some(h) ==> r == h,
            self.account_hash is None ==> r.bytes@ == crate::meta::zero_32(),
    {
        match self.account_hash {
            Some(h) => h,
            None => AccountHash::zeroed(),
        }
    }

    /// The write version, or `u64::MAX` where none is stored.
    pub fn write_version(&self) -> (r: u64)
        ensures
            r == match self.write_version {
                Some(v) => v,
                None => NO_WRITE_VERSION,
            },
    {
        match self.write_version {
            Some(v) => v,
            None => NO_WRITE_VERSION,
        }
    }

    pub fn data(&self) -> (r: &Vec<u8>)
        ensures
            r@ == self.data@,
    {
        &self.data
    }

    pub fn data_len(&self) -> (r: usize)
        ensures
            r == self.data@.len(),
    {
        self.data.len()
    }

    /// The position that this account was read at.
    pub fn index(&self) -> (r: usize)
        ensures
            r == self.index,
    {
        self.index
    }
}

/// Where the `i`-th account block ends: scans the block offsets after its
/// own for the first one that differs.
fn find_block_end(bytes: &[u8], f: &TieredStorageFooter, i: usize) -> (r: u64)
    requires
        i < f.account_entry_count,
        offsets_start(*f) + 8 * f.account_entry_count <= bytes@.len(),
    ensures
        r as int == block_end_at(bytes@, *f, i as int),
{
    let len = bytes.len();
    let n = f.account_entry_count as usize;
    let offsets = f.index_block_offset as usize + 32 * n;
    let off = read_u64(bytes, offsets + 8 * i);
    let mut j = i + 1;
    while j < n && read_u64(bytes, offsets + 8 * j) == off
        invariant
            i < j <= n,
            n == f.account_entry_count,
            len == bytes@.len(),
            offsets == offsets_start(*f),
            offsets + 8 * n <= len,
            off as int == block_offset_at(bytes@, *f, i as int),
            block_end_from(bytes@, *f, i as int, j as int) == block_end_at(bytes@, *f, i as int),
        decreases n - j,
    {
        j = j + 1;
    }
    if j < n {
        read_u64(bytes, offsets + 8 * j)
    } else {
        f.index_block_offset
    }
}

/// Whether the blocks of `bytes` fit together as `f` says.
fn check_layout(bytes: &[u8], f: &TieredStorageFooter) -> (r: bool)
    requires
        footer_ok(bytes@),
        *f == file_footer(bytes@),
    ensures
        r == layout_ok(bytes@, *f),
{
    let len = bytes.len();
    let n = f.account_entry_count as usize;
    if (f.index_block_offset as u128) + 40 * (n as u128) != f.owners_block_offset as u128 {
        return false;
    }
    if (f.owners_block_offset as u128) + 32 * (f.owner_count as u128) + 192 != len as u128 {
        return false;
    }
    let index_block = f.index_block_offset as usize;
    let offsets = index_block + 32 * n;
    let mut i: usize = 0;
    while i < n
        invariant
            len == bytes@.len(),
            n == f.account_entry_count,
            index_block == f.index_block_offset,
            offsets == offsets_start(*f),
            f.index_block_offset + 40 * f.account_entry_count == f.owners_block_offset,
            f.owners_block_offset + 32 * f.owner_count + 192 == bytes@.len(),
            i <= n,
            forall|k: int| 0 <= k < i ==> #[trigger] block_ok(bytes@, *f, k),
        decreases n - i,
    {
        let off = read_u64(bytes, offsets + 8 * i);
        let end = find_block_end(bytes, f, i);
        if off as u128 + 16 > end as u128 || end > f.index_block_offset {
            assert(!block_ok(bytes@, *f, i as int));
            return false;
        }
        let meta = HotAccountMeta::read(bytes, off as usize);
        let optional = AccountMetaOptionalFields::size_from_flags(&meta.flags);
        if off as u128 + 16 + optional as u128 + meta.padding as u128 > end as u128 {
            assert(!block_ok(bytes@, *f, i as int));
            return false;
        }
        if meta.owner_index >= f.owner_count {
            assert(!block_ok(bytes@, *f, i as int));
            return false;
        }
        assert(block_ok(bytes@, *f, i as int));
        i = i + 1;
    }
    true
}

/// A reader of a hot storage file that has been validated whole.
#[derive(Debug)]
pub struct HotStorageReader {
    /// the bytes of the file
    pub bytes: Vec<u8>,
    /// the footer of the file
    pub footer: TieredStorageFooter,
}

impl HotStorageReader {
    /// The reader holds a valid file and its footer.
    pub open spec fn wf(&self) -> bool {
        valid_file(self.bytes@) && self.footer == file_footer(self.bytes@)
    }

    /// The blocks of a valid file lie where its footer says.
    pub proof fn lemma_bounds(&self)
        requires
            self.wf(),
        ensures
            self.footer.index_block_offset + 40 * self.footer.account_entry_count
                == self.footer.owners_block_offset,
            self.footer.owners_block_offset + 32 * self.footer.owner_count + 192 == self.bytes@.len(),
    {
    }

    /// Opens the file whose bytes are `bytes`: checks the magic number, the
    /// format version, the footer, the content hash and the layout.
    pub fn new_from_bytes(bytes: Vec<u8>) -> (r: TieredStorageResult<HotStorageReader>)
        ensures
            bytes@.len() < 8 ==> r matches Err(TieredStorageError::Io(_)),
            bytes@.len() >= 8 && !magic_ok(bytes@) ==> r == Err::<HotStorageReader, TieredStorageError>(
                TieredStorageError::MagicNumberMismatch(
                    FOOTER_MAGIC_NUMBER,
                    u64_at(bytes@, bytes@.len() - 8),
                ),
            ),
            magic_ok(bytes@) && bytes@.len() < 24 ==> r matches Err(TieredStorageError::Io(_)),
            magic_ok(bytes@) && bytes@.len() >= 24 && !version_ok(bytes@) ==> r == Err::<HotStorageReader, TieredStorageError>(
                TieredStorageError::UnsupportedVersion(u64_at(bytes@, bytes@.len() - 16)),
            ),
            version_ok(bytes@) && (u64_at(bytes@, bytes@.len() - 24) != 184 || bytes@.len() < 192)
                ==> r matches Err(TieredStorageError::Io(_)),
            version_ok(bytes@) && u64_at(bytes@, bytes@.len() - 24) == 184 && bytes@.len() >= 192
                && footer_at(bytes@, bytes@.len() - 192).is_err() ==> r == Err::<HotStorageReader, TieredStorageError>(
                footer_at(bytes@, bytes@.len() - 192)->Err_0,
            ),
            footer_ok(bytes@) && !hash_ok(bytes@) ==> r == Err::<HotStorageReader, TieredStorageError>(
                TieredStorageError::HashMismatch(
                    file_footer(bytes@).hash,
                    AccountHash { bytes: spec_array32(computed_hash(bytes@)) },
                ),
            ),
            hash_ok(bytes@) && !layout_ok(bytes@, file_footer(bytes@)) ==> r matches Err(
                TieredStorageError::Io(_),
            ),
            r.is_ok() <==> valid_file(bytes@),
            r matches Ok(reader) ==> reader.wf() && reader.bytes@ == bytes@,
    {
        let len = bytes.len();
        if len < 8 {
            return Err(TieredStorageError::Io("file too short for a magic number".to_owned()));
        }
        let magic = read_u64(bytes.as_slice(), len - 8);
        if magic != FOOTER_MAGIC_NUMBER {
            return Err(TieredStorageError::MagicNumberMismatch(FOOTER_MAGIC_NUMBER, magic));
        }
        if len < 24 {
            return Err(TieredStorageError::Io("file too short for a footer tail".to_owned()));
        }
        let version = read_u64(bytes.as_slice(), len - 16);
        if version != FOOTER_FORMAT_VERSION {
            return Err(TieredStorageError::UnsupportedVersion(version));
        }
        let footer_size = read_u64(bytes.as_slice(), len - 24);
        if footer_size != 184 || len < 192 {
            return Err(TieredStorageError::Io("footer size does not match the file".to_owned()));
        }
        let footer = match TieredStorageFooter::read(bytes.as_slice(), len - 192) {
            Ok(f) => f,
            Err(e) => {
                return Err(e);
            },
        };
        let computed = blake3_digest(slice_subrange(bytes.as_slice(), 0, len - 56));
        proof {
            assert(bytes@.subrange(0, len - 56) =~= bytes@.take(len - 56));
        }
        proof {
            crate::footer::lemma_array32_unique(computed.bytes, computed_hash(bytes@));
            assert(footer.hash.bytes@ == computed.bytes@ ==> footer.hash.bytes == computed.bytes);
        }
        if !eq_32(&footer.hash.bytes, &computed.bytes) {
            return Err(TieredStorageError::HashMismatch(footer.hash, computed));
        }
        if !check_layout(bytes.as_slice(), &footer) {
            return Err(TieredStorageError::Io("account blocks do not fit the footer".to_owned()));
        }
        Ok(HotStorageReader { bytes, footer })
    }

    /// The footer of the file.
    pub fn footer(&self) -> (r: &TieredStorageFooter)
        ensures
            *r == self.footer,
    {
        &self.footer
    }

    /// The number of accounts in the file.
    pub fn num_accounts(&self) -> (r: usize)
        ensures
            r == self.footer.account_entry_count,
    {
        self.footer.account_entry_count as usize
    }

    /// The address of the `index`-th account.
    pub fn account_address(&self, index: usize) -> (r: Option<Pubkey>)
        requires
            self.wf(),
        ensures
            index >= self.footer.account_entry_count ==> r is None,
            index < self.footer.account_entry_count ==> (r matches Some(a) && a.bytes@ == address_of(
                self.bytes@,
                self.footer,
                index as int,
            )),
    {
        let len = self.bytes.len();
        if index >= self.footer.account_entry_count as usize {
            return None;
        }
        proof {
            self.lemma_bounds();
        }
        let at = self.footer.index_block_offset as usize + 32 * index;
        Some(Pubkey { bytes: read_32(self.bytes.as_slice(), at) })
    }

    /// The metadata entry of the `index`-th account and where its block
    /// starts and ends.
    fn block_of(&self, index: usize) -> (r: (HotAccountMeta, usize, usize))
        requires
            self.wf(),
            index < self.footer.account_entry_count,
        ensures
            r.0 == meta_of(self.bytes@, self.footer, index as int),
            r.1 == block_offset_at(self.bytes@, self.footer, index as int),
            r.2 == block_end_at(self.bytes@, self.footer, index as int),
            block_ok(self.bytes@, self.footer, index as int),
    {
        let s = self.bytes.as_slice();
        let len = s.len();
        let f = &self.footer;
        let n = f.account_entry_count as usize;
        proof {
            self.lemma_bounds();
        }
        assert(block_ok(self.bytes@, self.footer, index as int));
        let offsets = f.index_block_offset as usize + 32 * n;
        let off = read_u64(s, offsets + 8 * index);
        let end = find_block_end(s, f, index);
        (HotAccountMeta::read(s, off as usize), off as usize, end as usize)
    }

    /// The owner of the `index`-th account.
    fn owner_of_account(&self, index: usize) -> (r: Pubkey)
        requires
            self.wf(),
            index < self.footer.account_entry_count,
        ensures
            r.bytes@ == owner_of(self.bytes@, self.footer, index as int),
    {
        let len = self.bytes.len();
        proof {
            self.lemma_bounds();
        }
        let (meta, _, _) = self.block_of(index);
        let at = self.footer.owners_block_offset as usize + 32 * meta.owner_index as usize;
        Pubkey { bytes: read_32(self.bytes.as_slice(), at) }
    }

    /// Reads the `index`-th account.
    fn read_account(&self, index: usize, multiplied_index: usize) -> (r: TieredReadableAccount)
        requires
            self.wf(),
            index < self.footer.account_entry_count,
        ensures
            read_as(r, self.bytes@, self.footer, index as int),
            r.index == multiplied_index,
    {
        let s = self.bytes.as_slice();
        let len = s.len();
        proof {
            self.lemma_bounds();
        }
        let (meta, off, end) = self.block_of(index);
        let optional = AccountMetaOptionalFields::size_from_flags(&meta.flags);
        let opt_start = end - optional;
        let data_start = off + 16;
        let data_end = opt_start - meta.padding as usize;
        let data = copy_range(s, data_start, data_end);
        let rent_epoch = if meta.flags.has_rent_epoch {
            Some(read_u64(s, opt_start))
        } else {
            None
        };
        let hash_at = opt_start + if meta.flags.has_rent_epoch {
            8
        } else {
            0
        };
        let account_hash = if meta.flags.has_account_hash {
            Some(AccountHash { bytes: read_32(s, hash_at) })
        } else {
            None
        };
        let version_start = hash_at + if meta.flags.has_account_hash {
            32
        } else {
            0
        };
        let write_version = if meta.flags.has_write_version {
            Some(read_u64(s, version_start))
        } else {
            None
        };
        let address = read_32(s, self.footer.index_block_offset as usize + 32 * index);
        let ghost sv = self.bytes@;
        let ghost f = self.footer;
        let ghost i = index as int;
        assert(opt_start == optional_start(sv, f, i));
        assert(data@ == data_of(sv, f, i));
        assert(rent_epoch == rent_epoch_of(sv, f, i));
        assert(hash_at == hash_start(sv, f, i));
        assert(write_version == write_version_of(sv, f, i));
        TieredReadableAccount {
            address: Pubkey { bytes: address },
            owner: self.owner_of_account(index),
            lamports: meta.lamports,
            executable: meta.flags.executable,
            rent_epoch,
            account_hash,
            write_version,
            data,
            index: multiplied_index,
        }
    }

    /// The account at `multiplied_index` (its logical index times 8) and the
    /// position of the next account, or `None` past the last account.
    pub fn get_account(&self, multiplied_index: usize) -> (r: Option<(TieredReadableAccount, usize)>)
        requires
            self.wf(),
        ensures
            multiplied_index / 8 >= self.footer.account_entry_count ==> r is None,
            multiplied_index / 8 < self.footer.account_entry_count ==> (r matches Some((a, next))
                && read_as(a, self.bytes@, self.footer, (multiplied_index / 8) as int) && a.index
                == multiplied_index && next == multiplied_index + 8),
    {
        let index = multiplied_index / 8;
        let len = self.bytes.len();
        if index >= self.footer.account_entry_count as usize {
            return None;
        }
        proof {
            self.lemma_bounds();
        }
        let account = self.read_account(index, multiplied_index);
        Some((account, multiplied_index + 8))
    }

    /// The position in `owners` of the owner of the account at
    /// `multiplied_index`.
    pub fn account_matches_owners(&self, multiplied_index: usize, owners: &[Pubkey]) -> (r: Result<usize, MatchAccountOwnerError>)
        requires
            self.wf(),
        ensures
            multiplied_index / 8 >= self.footer.account_entry_count ==> r == Err::<usize, MatchAccountOwnerError>(MatchAccountOwnerError::UnableToLoad),
            multiplied_index / 8 < self.footer.account_entry_count ==> {
                let o = owner_of(self.bytes@, self.footer, (multiplied_index / 8) as int);
                &&& r matches Ok(k) ==> k < owners@.len() && owners@[k as int].bytes@ == o && forall|j: int| 0 <= j < k ==> owners@[j].bytes@ != o
                &&& r == Err::<usize, MatchAccountOwnerError>(MatchAccountOwnerError::NoMatch) <==> forall|j: int| 0 <= j < owners@.len() ==> owners@[j].bytes@ != o
                &&& r != Err::<usize, MatchAccountOwnerError>(MatchAccountOwnerError::UnableToLoad)
            },
    {
        let index = multiplied_index / 8;
        if index >= self.footer.account_entry_count as usize {
            return Err(MatchAccountOwnerError::UnableToLoad);
        }
        let owner = self.owner_of_account(index);
        let mut k: usize = 0;
        while k < owners.len()
            invariant
                index == multiplied_index / 8,
                index < self.footer.account_entry_count,
                owner.bytes@ == owner_of(self.bytes@, self.footer, index as int),
                k <= owners@.len(),
                forall|j: int| 0 <= j < k ==> owners@[j].bytes@ != owner.bytes@,
            decreases owners@.len() - k,
        {
            if owners[k].same_as(&owner) {
                return Ok(k);
            }
            k = k + 1;
        }
        Err(MatchAccountOwnerError::NoMatch)
    }

    /// Every account from `multiplied_start` (a logical index times 8) on,
    /// in order.
    pub fn accounts(&self, multiplied_start: usize) -> (r: Vec<TieredReadableAccount>)
        requires
            self.wf(),
        ensures
            multiplied_start / 8 >= self.footer.account_entry_count ==> r@.len() == 0,
            multiplied_start / 8 < self.footer.account_entry_count ==> r@.len()
                == self.footer.account_entry_count - multiplied_start / 8,
            forall|k: int|
                0 <= k < r@.len() ==> read_as(#[trigger] r@[k], self.bytes@, self.footer, multiplied_start / 8 + k)
                    && r@[k].index == 8 * (multiplied_start / 8 + k),
    {
        let n = self.footer.account_entry_count as usize;
        let len = self.bytes.len();
        let mut i = multiplied_start / 8;
        let mut r: Vec<TieredReadableAccount> = Vec::new();
        proof {
            self.lemma_bounds();
        }
        while i < n
            invariant
                self.wf(),
                n == self.footer.account_entry_count,
                40 * n <= len,
                len == self.bytes@.len(),
                multiplied_start / 8 <= i,
                i < n ==> r@.len() == i - multiplied_start / 8,
                i >= n ==> r@.len() == 0 || r@.len() == n - multiplied_start / 8,
                r@.len() == if i >= multiplied_start / 8 { i - multiplied_start / 8 } else { 0 },
                forall|k: int|
                    0 <= k < r@.len() ==> read_as(#[trigger] r@[k], self.bytes@, self.footer, multiplied_start / 8 + k)
                        && r@[k].index == 8 * (multiplied_start / 8 + k),
            decreases n - i,
        {
            let account = self.read_account(i, 8 * i);
            r.push(account);
            i = i + 1;
        }
        r
    }
}

} // verus!
