//! The one-shot write path: account blocks, index block, owners block,
//! footer and magic number.
use vstd::prelude::*;
use crate::byte_block::ByteBlockWriter;
use crate::account::{Account, StorableAccountsWithHashesAndWriteVersions, StoredAccountInfo};
use crate::bytes::{lemma_u64_le_round_trip, push_bytes, push_u64, push_zeros, u64_le};
use crate::error::{TieredStorageError, TieredStorageResult};
use crate::footer::{
    footer_head_bytes, footer_rest_bytes, lemma_array32_unique, lemma_footer_sizes, spec_array32, AccountBlockFormat, AccountIndexFormat,
    AccountMetaFormat, OwnersBlockFormat, TieredStorageFooter, FOOTER_FORMAT_VERSION,
    FOOTER_MAGIC_NUMBER, FOOTER_SIZE,
};
use crate::hash::{blake3_digest, blake3_of};
use crate::reader::valid_file;
use crate::theorems::{batch_fits, lemma_round_trip};
use crate::meta::{
    flags_for, meta_bytes, optional_bytes, zero_32, AccountHash, AccountMetaFlags,
    AccountMetaOptionalFields, HotAccountMeta, Pubkey, HOT_META_SIZE, MAX_HOT_OWNER_INDEX,
    NO_WRITE_VERSION, RENT_EXEMPT_RENT_EPOCH,
};
use crate::owners::{
    lemma_owner_table, lemma_owner_table_prefix, lemma_position_of, owner_table,
    owners_block_bytes, position_of, AccountOwnersTable,
};

verus! {

/// The formats of all building blocks of a tiered storage file.
#[derive(Clone, Copy, Debug, PartialEq, Eq, Structural)]
pub struct TieredStorageFormat {
    pub meta_entry_size: usize,
    pub account_meta_format: AccountMetaFormat,
    pub owners_block_format: OwnersBlockFormat,
    pub account_index_format: AccountIndexFormat,
    pub account_block_format: AccountBlockFormat,
}

/// The format of hot storage files.
pub fn hot_format() -> (r: TieredStorageFormat)
    ensures
        r.meta_entry_size == HOT_META_SIZE,
        r.account_meta_format == AccountMetaFormat::Hot,
        r.owners_block_format == OwnersBlockFormat::LocalIndex,
        r.account_index_format == AccountIndexFormat::AddressAndOffset,
        r.account_block_format == AccountBlockFormat::AlignedRaw,
{
    TieredStorageFormat {
        meta_entry_size: HOT_META_SIZE,
        account_meta_format: AccountMetaFormat::Hot,
        owners_block_format: OwnersBlockFormat::LocalIndex,
        account_index_format: AccountIndexFormat::AddressAndOffset,
        account_block_format: AccountBlockFormat::AlignedRaw,
    }
}

/// Whether the writer implements `f`.
pub open spec fn writable_format(f: TieredStorageFormat) -> bool {
    f.account_meta_format == AccountMetaFormat::Hot && f.account_block_format
        == AccountBlockFormat::AlignedRaw
}

/// The number of accounts written from `b` when starting at `skip`.
pub open spec fn batch_len(b: StorableAccountsWithHashesAndWriteVersions, skip: int) -> int {
    if skip <= b.accounts@.len() {
        b.accounts@.len() - skip
    } else {
        0
    }
}

/// The optional fields stored for an account: each one unless it holds the
/// value that marks it absent.
pub open spec fn optional_fields_of(a: Account, h: AccountHash, wv: u64) -> AccountMetaOptionalFields {
    AccountMetaOptionalFields {
        rent_epoch: if a.rent_epoch == RENT_EXEMPT_RENT_EPOCH {
            None
        } else {
            Some(a.rent_epoch)
        },
        account_hash: if h.bytes@ == zero_32() {
            None
        } else {
            Some(h)
        },
        write_version: if wv == NO_WRITE_VERSION {
            None
        } else {
            Some(wv)
        },
    }
}

/// The padding that brings `len` up to a multiple of 8.
pub open spec fn padding_of(len: int) -> int {
    (8 - len % 8) % 8
}

/// The owners of the written accounts, in order.
pub open spec fn batch_owners(b: StorableAccountsWithHashesAndWriteVersions, skip: int) -> Seq<
    Seq<u8>,
> {
    Seq::new(batch_len(b, skip) as nat, |i: int| b.accounts@[skip + i].1.owner.bytes@)
}

/// The owners table of the written accounts.
pub open spec fn batch_owner_table(b: StorableAccountsWithHashesAndWriteVersions, skip: int) -> Seq<
    Seq<u8>,
> {
    owner_table(batch_owners(b, skip))
}

/// The owner index of the `i`-th written account.
pub open spec fn owner_index_spec(b: StorableAccountsWithHashesAndWriteVersions, skip: int, i: int) -> int {
    let os = batch_owners(b, skip);
    position_of(owner_table(os.take(i + 1)), os[i])
}

/// The optional fields of the `i`-th written account.
pub open spec fn optional_spec(b: StorableAccountsWithHashesAndWriteVersions, skip: int, i: int) -> AccountMetaOptionalFields {
    optional_fields_of(b.accounts@[skip + i].1, b.hashes@[skip + i], b.write_versions@[skip + i])
}

/// The metadata entry of the `i`-th written account.
pub open spec fn meta_spec(b: StorableAccountsWithHashesAndWriteVersions, skip: int, i: int) -> HotAccountMeta {
    let a = b.accounts@[skip + i].1;
    HotAccountMeta {
        lamports: a.lamports,
        padding: padding_of(a.data@.len() as int) as u8,
        owner_index: owner_index_spec(b, skip, i) as u32,
        flags: AccountMetaFlags { executable: a.executable, ..flags_for(optional_spec(b, skip, i)) },
    }
}

/// The account block of an account with owner index `owner_index`:
/// metadata entry, data, padding, optional fields.
pub open spec fn block_bytes(a: Account, h: AccountHash, wv: u64, owner_index: u32) -> Seq<u8> {
    let o = optional_fields_of(a, h, wv);
    let m = HotAccountMeta {
        lamports: a.lamports,
        padding: padding_of(a.data@.len() as int) as u8,
        owner_index,
        flags: AccountMetaFlags { executable: a.executable, ..flags_for(o) },
    };
    meta_bytes(m) + a.data@ + Seq::new(padding_of(a.data@.len() as int) as nat, |k: int| 0u8)
        + optional_bytes(o)
}

/// The account block of the `i`-th written account.
pub open spec fn block_spec(b: StorableAccountsWithHashesAndWriteVersions, skip: int, i: int) -> Seq<u8> {
    block_bytes(
        b.accounts@[skip + i].1,
        b.hashes@[skip + i],
        b.write_versions@[skip + i],
        owner_index_spec(b, skip, i) as u32,
    )
}

/// The account blocks of the first `k` written accounts.
pub open spec fn blocks_spec(b: StorableAccountsWithHashesAndWriteVersions, skip: int, k: int) -> Seq<u8>
    decreases k,
{
    if k <= 0 {
        Seq::empty()
    } else {
        blocks_spec(b, skip, k - 1) + block_spec(b, skip, k - 1)
    }
}

/// The addresses of the first `k` written accounts.
pub open spec fn addresses_spec(b: StorableAccountsWithHashesAndWriteVersions, skip: int, k: int) -> Seq<u8>
    decreases k,
{
    if k <= 0 {
        Seq::empty()
    } else {
        addresses_spec(b, skip, k - 1) + b.accounts@[skip + k - 1].0.bytes@
    }
}

/// The block offsets of the first `k` written accounts.
pub open spec fn offsets_spec(b: StorableAccountsWithHashesAndWriteVersions, skip: int, k: int) -> Seq<u8>
    decreases k,
{
    if k <= 0 {
        Seq::empty()
    } else {
        offsets_spec(b, skip, k - 1) + u64_le(blocks_spec(b, skip, k - 1).len() as u64)
    }
}

pub proof fn lemma_index_lens(b: StorableAccountsWithHashesAndWriteVersions, skip: int, k: int)
    requires
        0 <= k,
    ensures
        addresses_spec(b, skip, k).len() == 32 * k,
        offsets_spec(b, skip, k).len() == 8 * k,
    decreases k,
{
    if k > 0 {
        lemma_index_lens(b, skip, k - 1);
        lemma_u64_le_round_trip(blocks_spec(b, skip, k - 1).len() as u64);
    }
}

/// Whether `a` sorts before `b` when their bytes from `i` on are compared
/// one by one.
pub open spec fn address_lt_from(a: Seq<u8>, b: Seq<u8>, i: int) -> bool
    decreases 32 - i,
{
    if i < 0 || i >= 32 {
        false
    } else if a[i] < b[i] {
        true
    } else if a[i] > b[i] {
        false
    } else {
        address_lt_from(a, b, i + 1)
    }
}

/// Whether the address `a` sorts before `b` (bytes compared in order).
pub open spec fn address_lt(a: Seq<u8>, b: Seq<u8>) -> bool {
    address_lt_from(a, b, 0)
}

/// The smallest of the first `k` written addresses (all zeroes for none).
pub open spec fn min_address(b: StorableAccountsWithHashesAndWriteVersions, skip: int, k: int) -> Pubkey
    decreases k,
{
    if k <= 0 {
        Pubkey { bytes: spec_array32(zero_32()) }
    } else if k == 1 {
        b.accounts@[skip].0
    } else {
        let m = min_address(b, skip, k - 1);
        let a = b.accounts@[skip + k - 1].0;
        if address_lt(a.bytes@, m.bytes@) {
            a
        } else {
            m
        }
    }
}

/// The largest of the first `k` written addresses (all zeroes for none).
pub open spec fn max_address(b: StorableAccountsWithHashesAndWriteVersions, skip: int, k: int) -> Pubkey
    decreases k,
{
    if k <= 0 {
        Pubkey { bytes: spec_array32(zero_32()) }
    } else if k == 1 {
        b.accounts@[skip].0
    } else {
        let m = max_address(b, skip, k - 1);
        let a = b.accounts@[skip + k - 1].0;
        if address_lt(m.bytes@, a.bytes@) {
            a
        } else {
            m
        }
    }
}

/// Whether the address `a` sorts before `b`.
pub fn address_less(a: &Pubkey, b: &Pubkey) -> (r: bool)
    ensures
        r == address_lt(a.bytes@, b.bytes@),
{
    let mut i: usize = 0;
    while i < 32
        invariant
            i <= 32,
            a.bytes@.len() == 32,
            b.bytes@.len() == 32,
            forall|k: int| 0 <= k < i ==> a.bytes@[k] == b.bytes@[k],
            address_lt(a.bytes@, b.bytes@) == address_lt_from(a.bytes@, b.bytes@, i as int),
        decreases 32 - i,
    {
        if a.bytes[i] < b.bytes[i] {
            return true;
        }
        if a.bytes[i] > b.bytes[i] {
            return false;
        }
        i = i + 1;
    }
    false
}

/// The smallest and the largest written address.
fn address_range(
    accounts: &StorableAccountsWithHashesAndWriteVersions,
    skip: usize,
    n: usize,
) -> (r: (Pubkey, Pubkey))
    requires
        n == batch_len(*accounts, skip as int),
    ensures
        r.0 == min_address(*accounts, skip as int, n as int),
        r.1 == max_address(*accounts, skip as int, n as int),
{
    let ghost b = *accounts;
    let ghost sk = skip as int;
    if n == 0 {
        let z = Pubkey { bytes: [0u8; 32] };
        proof {
            assert(z.bytes@ =~= zero_32());
            lemma_array32_unique(z.bytes, zero_32());
        }
        return (z, z);
    }
    let len = accounts.accounts.len();
    let mut min = accounts.accounts[skip].0;
    let mut max = accounts.accounts[skip].0;
    let mut k: usize = 1;
    while k < n
        invariant
            len == accounts.accounts@.len(),
            b == *accounts,
            sk == skip,
            n == batch_len(b, sk),
            n == 0 || skip + n <= accounts.accounts@.len(),
            1 <= k <= n,
            min == min_address(b, sk, k as int),
            max == max_address(b, sk, k as int),
        decreases n - k,
    {
        let a = accounts.accounts[skip + k].0;
        if address_less(&a, &min) {
            min = a;
        }
        if address_less(&max, &a) {
            max = a;
        }
        k = k + 1;
    }
    (min, max)
}

/// The footer of the written file, with `hash` as its content hash.
pub open spec fn footer_spec(b: StorableAccountsWithHashesAndWriteVersions, skip: int, hash: AccountHash) -> TieredStorageFooter {
    let n = batch_len(b, skip);
    let blocks_len = blocks_spec(b, skip, n).len();
    TieredStorageFooter {
        account_meta_format: AccountMetaFormat::Hot,
        owners_block_format: OwnersBlockFormat::LocalIndex,
        account_index_format: AccountIndexFormat::AddressAndOffset,
        account_block_format: AccountBlockFormat::AlignedRaw,
        account_entry_count: n as u32,
        account_meta_entry_size: 16,
        account_block_size: 0,
        owner_count: batch_owner_table(b, skip).len() as u32,
        owner_entry_size: 32,
        index_block_offset: blocks_len as u64,
        owners_block_offset: (blocks_len + 40 * n) as u64,
        min_account_address: min_address(b, skip, n),
        max_account_address: max_address(b, skip, n),
        hash,
        footer_size: 184,
        format_version: 1,
    }
}

/// The bytes of the written file that the content hash covers: everything
/// before the hash field of the footer.
#[verifier::opaque]
pub open spec fn hashed_prefix(b: StorableAccountsWithHashesAndWriteVersions, skip: int) -> Seq<u8> {
    let n = batch_len(b, skip);
    blocks_spec(b, skip, n) + addresses_spec(b, skip, n) + offsets_spec(b, skip, n)
        + owners_block_bytes(batch_owner_table(b, skip)) + footer_head_bytes(
        footer_spec(b, skip, AccountHash { bytes: spec_array32(zero_32()) }),
    )
}

/// The bytes of the file written from `b` starting at `skip`.
#[verifier::opaque]
pub open spec fn file_image(b: StorableAccountsWithHashesAndWriteVersions, skip: int) -> Seq<u8> {
    let pre = hashed_prefix(b, skip);
    pre + footer_rest_bytes(footer_spec(b, skip, AccountHash { bytes: spec_array32(blake3_of(pre)) }))
        + u64_le(FOOTER_MAGIC_NUMBER)
}

/// The stored info of the `i`-th written account.
pub open spec fn info_spec(b: StorableAccountsWithHashesAndWriteVersions, skip: int, i: int) -> StoredAccountInfo {
    StoredAccountInfo { offset: (8 * i) as usize, size: block_spec(b, skip, i).len() as usize }
}

/// Returns the number of padding bytes that bring `data_len` up to a
/// multiple of 8.
pub fn padding_bytes(data_len: usize) -> (r: u8)
    ensures
        r as int == padding_of(data_len as int),
        r <= 7,
        (data_len + r) % 8 == 0,
{
    ((8 - data_len % 8) % 8) as u8
}

/// Writes a batch of accounts into the bytes of a new file.
pub struct TieredStorageWriter {
    pub format: TieredStorageFormat,
}

/// Appends the account block of `account` to `out`.
fn write_account_block(
    account: &Account,
    hash: &AccountHash,
    write_version: u64,
    owner_index: u32,
    out: &mut Vec<u8>,
)
    requires
        owner_index <= MAX_HOT_OWNER_INDEX,
    ensures
        final(out)@ == old(out)@ + block_bytes(*account, *hash, write_version, owner_index),
{
    let ghost start = out@;
    let optional_fields = AccountMetaOptionalFields {
        rent_epoch: if account.rent_epoch == RENT_EXEMPT_RENT_EPOCH {
            None
        } else {
            Some(account.rent_epoch)
        },
        account_hash: if hash.is_zero() {
            None
        } else {
            Some(*hash)
        },
        write_version: if write_version == NO_WRITE_VERSION {
            None
        } else {
            Some(write_version)
        },
    };
    let mut flags = AccountMetaFlags::new_from(&optional_fields);
    flags.executable = account.executable;
    let padding = padding_bytes(account.data.len());
    let meta = HotAccountMeta::new().with_lamports(account.lamports).with_account_data_padding(
        padding,
    ).with_owner_index(owner_index).with_flags(&flags);
    let mut block = ByteBlockWriter::new(AccountBlockFormat::AlignedRaw);
    block.write_meta(&meta);
    block.write(account.data.as_slice());
    block.write_padding(padding as usize);
    block.write_optional_fields(&optional_fields);
    let ghost staged = block.buffer@;
    match block.finish() {
        Ok(bytes) => push_bytes(out, bytes.as_slice()),
        Err(_) => {},
    }
    assert(staged =~= block_bytes(*account, *hash, write_version, owner_index));
    assert(out@ =~= start + block_bytes(*account, *hash, write_version, owner_index));
}

/// What the account blocks leave for the rest of the file: the bytes so
/// far, the owners table, the block offsets and the stored infos.
type BlocksWritten = (Vec<u8>, AccountOwnersTable, Vec<u64>, Vec<StoredAccountInfo>);

/// Writes the account blocks of the first `n` accounts from `skip` on.
fn write_account_blocks(
    accounts: &StorableAccountsWithHashesAndWriteVersions,
    skip: usize,
    n: usize,
) -> (r: TieredStorageResult<BlocksWritten>)
    requires
        accounts.wf(),
        n == batch_len(*accounts, skip as int),
        n <= 0xffff_ffff,
        8 * n <= usize::MAX,
    ensures
        batch_owner_table(*accounts, skip as int).len() > 0x2000_0000 ==> r == Err::<
            BlocksWritten,
            TieredStorageError,
        >(TieredStorageError::OwnerIndexOverflow),
        batch_owner_table(*accounts, skip as int).len() <= 0x2000_0000 ==> r.is_ok(),
        r.is_ok() ==> ({
            let (out, table, offsets, infos) = r.unwrap();
            &&& out@ == blocks_spec(*accounts, skip as int, n as int)
            &&& table.view() == batch_owner_table(*accounts, skip as int)
            &&& offsets@.len() == n
            &&& forall|k: int|
                0 <= k < n ==> offsets@[k] as int == blocks_spec(*accounts, skip as int, k).len()
            &&& infos@.len() == n
            &&& forall|k: int| 0 <= k < n ==> infos@[k] == info_spec(*accounts, skip as int, k)
        }),
{
    let ghost b = *accounts;
    let ghost sk = skip as int;
    let ghost os = batch_owners(b, sk);
    let mut out: Vec<u8> = Vec::new();
    let mut table = AccountOwnersTable::new();
    let mut offsets: Vec<u64> = Vec::new();
    let mut infos: Vec<StoredAccountInfo> = Vec::new();
    let len = accounts.len();
    let mut i: usize = 0;
    proof {
        assert(os.take(0) =~= Seq::<Seq<u8>>::empty());
    }
    while i < n
        invariant
            accounts.wf(),
            b == *accounts,
            sk == skip,
            n == batch_len(b, sk),
            n <= 0xffff_ffff,
            8 * n <= usize::MAX,
            n == 0 || skip + n <= accounts.accounts@.len(),
            len == accounts.accounts@.len(),
            os == batch_owners(b, sk),
            i <= n,
            out@ == blocks_spec(b, sk, i as int),
            table.view() == owner_table(os.take(i as int)),
            table.view().len() <= 0x2000_0000,
            offsets@.len() == i,
            forall|k: int| 0 <= k < i ==> offsets@[k] as int == blocks_spec(b, sk, k).len(),
            infos@.len() == i,
            forall|k: int| 0 <= k < i ==> infos@[k] == info_spec(b, sk, k),
        decreases n - i,
    {
        let (account, _address, hash, write_version) = accounts.get(skip + i);
        proof {
            assert(os.take(i + 1).drop_last() =~= os.take(i as int));
            assert(os[i as int] == account.owner.bytes@);
            lemma_owner_table(os.take(i + 1));
            lemma_owner_table_prefix(os, i + 1);
            lemma_owner_table(os.take(i as int));
        }
        let index = table.try_insert(&account.owner);
        proof {
            assert(os.take(i + 1).last() == os[i as int]);
            assert(table.view() == owner_table(os.take(i + 1)));
            lemma_position_of(table.view(), index as int);
        }
        if index > MAX_HOT_OWNER_INDEX {
            proof {
                assert(os.take(os.len() as int) =~= os);
            }
            return Err(TieredStorageError::OwnerIndexOverflow);
        }
        let block_start = out.len();
        offsets.push(block_start as u64);
        write_account_block(account, hash, write_version, index, &mut out);
        assert(out@ =~= blocks_spec(b, sk, i + 1));
        infos.push(StoredAccountInfo { offset: i * 8, size: out.len() - block_start });
        i = i + 1;
    }
    proof {
        assert(os.take(n as int) =~= os);
    }
    Ok((out, table, offsets, infos))
}

/// Appends the index block to `out`: every address, then every block offset.
fn write_index_block(
    accounts: &StorableAccountsWithHashesAndWriteVersions,
    skip: usize,
    n: usize,
    offsets: &Vec<u64>,
    out: &mut Vec<u8>,
)
    requires
        accounts.wf(),
        n == batch_len(*accounts, skip as int),
        offsets@.len() == n,
        forall|k: int|
            0 <= k < n ==> offsets@[k] as int == blocks_spec(*accounts, skip as int, k).len(),
    ensures
        final(out)@ == old(out)@ + addresses_spec(*accounts, skip as int, n as int) + offsets_spec(
            *accounts,
            skip as int,
            n as int,
        ),
{
    let ghost b = *accounts;
    let ghost sk = skip as int;
    let ghost start = out@;
    let len = accounts.len();
    let mut k: usize = 0;
    while k < n
        invariant
            accounts.wf(),
            b == *accounts,
            sk == skip,
            n == batch_len(b, sk),
            n == 0 || skip + n <= accounts.accounts@.len(),
            len == accounts.accounts@.len(),
            k <= n,
            out@ == start + addresses_spec(b, sk, k as int),
        decreases n - k,
    {
        push_bytes(out, accounts.accounts[skip + k].0.bytes.as_slice());
        k = k + 1;
        assert(out@ =~= start + addresses_spec(b, sk, k as int));
    }
    let ghost mid = out@;
    let mut k: usize = 0;
    while k < n
        invariant
            k <= n,
            offsets@.len() == n,
            forall|j: int| 0 <= j < n ==> offsets@[j] as int == blocks_spec(b, sk, j).len(),
            out@ == mid + offsets_spec(b, sk, k as int),
        decreases n - k,
    {
        push_u64(out, offsets[k]);
        k = k + 1;
        assert(out@ =~= mid + offsets_spec(b, sk, k as int));
    }
    assert(out@ =~= start + addresses_spec(b, sk, n as int) + offsets_spec(b, sk, n as int));
}

/// Whether the writer implements `format`.
fn is_writable(format: &TieredStorageFormat) -> (r: bool)
    ensures
        r == writable_format(*format),
{
    match (format.account_meta_format, format.account_block_format) {
        (AccountMetaFormat::Hot, AccountBlockFormat::AlignedRaw) => true,
        _ => false,
    }
}

impl TieredStorageWriter {
    pub fn new(format: &TieredStorageFormat) -> (r: TieredStorageWriter)
        ensures
            r.format == *format,
    {
        TieredStorageWriter { format: *format }
    }

    /// Writes the accounts of `accounts` from position `skip` on, and returns
    /// where each went together with the bytes of the file.
    pub fn write_accounts(
        &self,
        accounts: &StorableAccountsWithHashesAndWriteVersions,
        skip: usize,
    ) -> (r: TieredStorageResult<(Vec<StoredAccountInfo>, Vec<u8>)>)
        requires
            accounts.wf(),
            batch_len(*accounts, skip as int) <= 0xffff_ffff,
            8 * batch_len(*accounts, skip as int) <= usize::MAX,
        ensures
            !writable_format(self.format) ==> r == Err::<(Vec<StoredAccountInfo>, Vec<u8>), TieredStorageError>(TieredStorageError::Unsupported),
            writable_format(self.format) && batch_owner_table(*accounts, skip as int).len() > 0x2000_0000
                ==> r == Err::<(Vec<StoredAccountInfo>, Vec<u8>), TieredStorageError>(TieredStorageError::OwnerIndexOverflow),
            writable_format(self.format) && batch_owner_table(*accounts, skip as int).len() <= 0x2000_0000
                ==> r.is_ok(),
            r.is_ok() ==> ({
                let (infos, bytes) = r.unwrap();
                &&& bytes@ == file_image(*accounts, skip as int)
                &&& batch_fits(*accounts, skip as int)
                &&& valid_file(bytes@)
                &&& bytes@.subrange(bytes@.len() - 56, bytes@.len() - 24) == blake3_of(
                    bytes@.take(bytes@.len() - 56),
                )
                &&& infos@.len() == batch_len(*accounts, skip as int)
                &&& forall|i: int| 0 <= i < infos@.len() ==> infos@[i] == info_spec(*accounts, skip as int, i)
            }),
    {
        if !is_writable(&self.format) {
            return Err(TieredStorageError::Unsupported);
        }
        let ghost b = *accounts;
        let ghost sk = skip as int;
        let n: usize = if skip <= accounts.len() {
            accounts.len() - skip
        } else {
            0
        };
        let (mut out, table, offsets, infos) = match write_account_blocks(accounts, skip, n) {
            Ok(w) => w,
            Err(e) => {
                return Err(e);
            },
        };
        let index_block_offset = out.len();
        write_index_block(accounts, skip, n, &offsets, &mut out);
        let owners_block_offset = out.len();
        let (min_address, max_address) = address_range(accounts, skip, n);
        proof {
            assert forall|j: int| 0 <= j < table.view().len() implies (#[trigger] table.view()[j]).len() == 32 by {
                assert(table.view()[j] == table.owners_vec@[j].bytes@);
            }
        }
        table.write_owners_block(&mut out);
        let mut footer = TieredStorageFooter {
            account_meta_format: AccountMetaFormat::Hot,
            owners_block_format: OwnersBlockFormat::LocalIndex,
            account_index_format: AccountIndexFormat::AddressAndOffset,
            account_block_format: AccountBlockFormat::AlignedRaw,
            account_entry_count: n as u32,
            account_meta_entry_size: HOT_META_SIZE as u32,
            account_block_size: 0,
            owner_count: table.len() as u32,
            owner_entry_size: 32,
            index_block_offset: index_block_offset as u64,
            owners_block_offset: owners_block_offset as u64,
            min_account_address: min_address,
            max_account_address: max_address,
            hash: AccountHash { bytes: [0u8; 32] },
            footer_size: FOOTER_SIZE as u64,
            format_version: FOOTER_FORMAT_VERSION,
        };
        proof {
            let z = AccountHash { bytes: spec_array32(zero_32()) };
            assert(footer.hash.bytes@ =~= zero_32());
            lemma_array32_unique(footer.hash.bytes, zero_32());
            lemma_owner_table(batch_owners(b, sk));
            let f = footer_spec(b, sk, z);
            assert(footer.account_entry_count == f.account_entry_count);
            assert(footer.owner_count == f.owner_count);
            assert(footer.index_block_offset == f.index_block_offset);
            lemma_index_lens(b, sk, n as int);
            assert(footer.owners_block_offset == f.owners_block_offset);
            assert(footer.hash == f.hash);
            assert(footer == f);
        }
        footer.write_head(&mut out);
        proof {
            reveal(hashed_prefix);
            reveal(file_image);
        }
        assert(out@ == hashed_prefix(b, sk));
        let ghost prefix = out@;
        footer.hash = blake3_digest(out.as_slice());
        proof {
            lemma_array32_unique(footer.hash.bytes, blake3_of(hashed_prefix(b, sk)));
        }
        footer.write_rest(&mut out);
        push_u64(&mut out, FOOTER_MAGIC_NUMBER);
        let total = out.len();
        proof {
            lemma_footer_sizes(footer);
            lemma_u64_le_round_trip(FOOTER_MAGIC_NUMBER);
            assert(hashed_prefix(b, sk).len() + 56 == total);
            assert(out@.take(total - 56) =~= prefix);
            assert(out@.subrange(total - 56, total - 24) =~= footer.hash.bytes@);
            lemma_round_trip(b, sk);
        }
        Ok((infos, out))
    }
}

} // verus!
