use tiered_storage::account::{Account, StorableAccountsWithHashesAndWriteVersions};
use tiered_storage::error::TieredStorageError;
use tiered_storage::footer::{
    AccountBlockFormat, AccountIndexFormat, AccountMetaFormat, OwnersBlockFormat,
    FOOTER_MAGIC_NUMBER, FOOTER_SIZE, FOOTER_TAIL_SIZE,
};
use tiered_storage::meta::{AccountHash, HotAccountMeta, Pubkey};
use tiered_storage::reader::{HotStorageReader, MatchAccountOwnerError};
use tiered_storage::storage::TieredStorage;
use tiered_storage::writer::{address_less, hot_format, TieredStorageWriter};

fn key(seed: u64, tag: u8) -> [u8; 32] {
    let mut bytes = [tag; 32];
    bytes[..8].copy_from_slice(&seed.to_le_bytes());
    bytes
}

fn create_test_account(seed: u64) -> (Pubkey, Account) {
    let data_byte = (seed % 256) as u8;
    let account = Account {
        lamports: seed,
        data: (0..seed as usize).map(|_| data_byte).collect(),
        owner: Pubkey::new(key(seed, 0xAA)),
        executable: seed % 2 > 0,
        rent_epoch: if seed % 3 > 0 { seed } else { u64::MAX },
    };
    (Pubkey::new(key(seed, 0x55)), account)
}

fn storable(sizes: &[u64]) -> StorableAccountsWithHashesAndWriteVersions {
    let accounts: Vec<(Pubkey, Account)> = sizes.iter().map(|s| create_test_account(*s)).collect();
    let hashes: Vec<AccountHash> = sizes
        .iter()
        .map(|s| AccountHash::new(key(*s + 1, 0x33)))
        .collect();
    let write_versions: Vec<u64> = sizes.iter().copied().collect();
    StorableAccountsWithHashesAndWriteVersions::new_with_hashes_and_write_versions(
        accounts,
        hashes,
        write_versions,
    )
}

fn write_file(accounts: &StorableAccountsWithHashesAndWriteVersions) -> Vec<u8> {
    let writer = TieredStorageWriter::new(&hot_format());
    let (_, bytes) = writer.write_accounts(accounts, 0).unwrap();
    bytes
}

fn verify_round_trip(accounts: &StorableAccountsWithHashesAndWriteVersions, skip: usize, reader: &HotStorageReader) {
    assert_eq!(reader.num_accounts(), accounts.len() - skip);
    for i in skip..accounts.len() {
        let (account, address, hash, write_version) = accounts.get(i);
        let (stored, next) = reader.get_account((i - skip) * 8).unwrap();
        assert_eq!(next, (i - skip + 1) * 8);
        assert_eq!(stored.pubkey(), address);
        assert_eq!(stored.owner(), &account.owner);
        assert_eq!(stored.lamports(), account.lamports);
        assert_eq!(stored.executable(), account.executable);
        assert_eq!(stored.rent_epoch(), account.rent_epoch);
        assert_eq!(stored.data(), &account.data);
        assert_eq!(stored.hash(), *hash);
        assert_eq!(stored.write_version(), write_version);
    }
    assert!(reader.get_account((accounts.len() - skip) * 8).is_none());
}

#[test]
fn test_new_meta_file_only() {
    let format = hot_format();
    let mut tiered_storage = TieredStorage::new_writable("test_new_meta_file_only".to_string(), format);
    assert!(!tiered_storage.is_read_only());
    assert_eq!(tiered_storage.path(), "test_new_meta_file_only");
    assert_eq!(tiered_storage.file_size(), 0);

    let accounts = storable(&[]);
    let infos = tiered_storage.write_accounts(&accounts, 0).unwrap();
    assert!(infos.is_empty());

    assert!(tiered_storage.is_read_only());
    let reader = tiered_storage.reader().unwrap();
    let footer = reader.footer();
    assert_eq!(reader.num_accounts(), 0);
    assert_eq!(footer.account_meta_format, format.account_meta_format);
    assert_eq!(footer.owners_block_format, format.owners_block_format);
    assert_eq!(footer.account_index_format, format.account_index_format);
    assert_eq!(footer.account_block_format, format.account_block_format);
    assert_eq!(tiered_storage.file_size() as usize, FOOTER_SIZE + 8);

    let bytes = reader.bytes.clone();
    let readonly = TieredStorage::new_readonly("test_new_meta_file_only".to_string(), bytes).unwrap();
    assert!(readonly.is_read_only());
    assert_eq!(readonly.reader().unwrap().num_accounts(), 0);
    assert!(readonly.reader().unwrap().get_account(0).is_none());
}

#[test]
fn test_write_accounts_twice() {
    let mut tiered_storage =
        TieredStorage::new_writable("test_write_accounts_twice".to_string(), hot_format());
    let accounts = storable(&[]);
    assert!(tiered_storage.write_accounts(&accounts, 0).is_ok());
    match tiered_storage.write_accounts(&accounts, 0) {
        Err(TieredStorageError::AttemptToUpdateReadOnly(path)) => {
            assert_eq!(path, "test_write_accounts_twice")
        }
        other => panic!("unexpected {other:?}"),
    }
}

#[test]
fn test_write_accounts_small_accounts() {
    let sizes = [1u64, 2, 3, 4, 5, 6, 7, 8, 9, 10];
    let accounts = storable(&sizes);
    let mut tiered_storage = TieredStorage::new_writable(
        "test_write_accounts_small_accounts".to_string(),
        hot_format(),
    );
    let infos = tiered_storage.write_accounts(&accounts, 0).unwrap();
    let reader = tiered_storage.reader().unwrap();
    assert_eq!(reader.num_accounts(), accounts.len());

    let mut account_block_size = 0;
    for (i, info) in infos.iter().enumerate() {
        let (account, _, hash, write_version) = accounts.get(i);
        let mut block = 16 + ((account.data.len() + 7) / 8) * 8;
        if !hash.is_zero() {
            block += 32;
        }
        if write_version != u64::MAX {
            block += 8;
        }
        if account.rent_epoch != u64::MAX {
            block += 8;
        }
        assert_eq!(info.offset, i * 8);
        assert_eq!(info.size, block);
        account_block_size += block;
    }

    let footer = reader.footer();
    assert_eq!(footer.account_meta_format, AccountMetaFormat::Hot);
    assert_eq!(footer.owners_block_format, OwnersBlockFormat::LocalIndex);
    assert_eq!(footer.account_index_format, AccountIndexFormat::AddressAndOffset);
    assert_eq!(footer.account_block_format, AccountBlockFormat::AlignedRaw);
    assert_eq!(footer.account_entry_count, 10);
    assert_eq!(footer.owner_count, 10);
    assert_eq!(footer.index_block_offset, account_block_size as u64);
    assert_eq!(
        footer.owners_block_offset,
        (account_block_size + 40 * sizes.len()) as u64
    );
    assert!(tiered_storage.file_size() > 0);
    verify_round_trip(&accounts, 0, reader);
}

#[test]
fn round_trip_with_skip() {
    let accounts = storable(&[3, 0, 17, 24, 31]);
    let writer = TieredStorageWriter::new(&hot_format());
    let (infos, bytes) = writer.write_accounts(&accounts, 2).unwrap();
    assert_eq!(infos.len(), 3);
    let reader = HotStorageReader::new_from_bytes(bytes).unwrap();
    verify_round_trip(&accounts, 2, &reader);
    let all = reader.accounts(8);
    assert_eq!(all.len(), 2);
    assert_eq!(all[0].data_len(), 24);
    assert_eq!(all[1].index(), 16);
}

#[test]
fn empty_batch_holds_only_index_owners_and_footer() {
    let bytes = write_file(&storable(&[]));
    assert_eq!(bytes.len(), FOOTER_SIZE + 8);
    let reader = HotStorageReader::new_from_bytes(bytes).unwrap();
    assert_eq!(reader.num_accounts(), 0);
    assert!(reader.get_account(0).is_none());
    assert_eq!(reader.footer().owner_count, 0);
    assert_eq!(reader.footer().index_block_offset, 0);
    assert_eq!(reader.footer().owners_block_offset, 0);
}

#[test]
fn single_account_without_data() {
    let accounts = storable(&[0]);
    let bytes = write_file(&accounts);
    let reader = HotStorageReader::new_from_bytes(bytes.clone()).unwrap();
    assert_eq!(reader.num_accounts(), 1);
    assert_eq!(reader.footer().owner_count, 1);
    let meta = HotAccountMeta::read(&bytes, 0);
    assert_eq!(meta.account_data_padding(), 0);
    assert_eq!(meta.owner_index(), 0);
    // one index entry: 32 address bytes and 8 offset bytes
    assert_eq!(
        reader.footer().owners_block_offset - reader.footer().index_block_offset,
        40
    );
    verify_round_trip(&accounts, 0, &reader);
}

#[test]
fn padding_of_written_blocks() {
    for (size, padding) in [(8u64, 0u8), (16, 0), (7, 1), (15, 1), (1, 7)] {
        let accounts = storable(&[size]);
        let bytes = write_file(&accounts);
        let meta = HotAccountMeta::read(&bytes, 0);
        assert_eq!(meta.account_data_padding(), padding);
        assert_eq!((size as usize + meta.account_data_padding() as usize) % 8, 0);
    }
}

#[test]
fn owners_are_deduplicated() {
    let owner = Pubkey::new([9u8; 32]);
    let accounts: Vec<(Pubkey, Account)> = (0..5u64)
        .map(|i| {
            (
                Pubkey::new(key(i, 1)),
                Account::new(i + 1, owner, false, u64::MAX, vec![i as u8; i as usize]),
            )
        })
        .collect();
    let batch = StorableAccountsWithHashesAndWriteVersions::new_with_hashes_and_write_versions(
        accounts,
        vec![AccountHash::zeroed(); 5],
        vec![u64::MAX; 5],
    );
    let writer = TieredStorageWriter::new(&hot_format());
    let (infos, bytes) = writer.write_accounts(&batch, 0).unwrap();
    let reader = HotStorageReader::new_from_bytes(bytes.clone()).unwrap();
    assert_eq!(reader.footer().owner_count, 1);
    for info in &infos {
        let (stored, _) = reader.get_account(info.offset).unwrap();
        assert_eq!(stored.owner(), &owner);
        assert_eq!(stored.rent_epoch, None);
        assert_eq!(stored.account_hash, None);
        assert_eq!(stored.write_version, None);
    }
    let mut offset = 0usize;
    for info in &infos {
        assert_eq!(HotAccountMeta::read(&bytes, offset).owner_index(), 0);
        offset += info.size;
    }
    verify_round_trip(&batch, 0, &reader);
}

#[test]
fn large_blob_round_trip() {
    let data: Vec<u8> = (0..10 * 1024 * 1024).map(|i: usize| (i % 251) as u8).collect();
    let accounts = vec![(
        Pubkey::new([1u8; 32]),
        Account::new(42, Pubkey::new([2u8; 32]), true, 5, data),
    )];
    let batch = StorableAccountsWithHashesAndWriteVersions::new_with_hashes_and_write_versions(
        accounts,
        vec![AccountHash::new([3u8; 32])],
        vec![77],
    );
    let bytes = write_file(&batch);
    let reader = HotStorageReader::new_from_bytes(bytes).unwrap();
    assert_eq!(reader.num_accounts(), 1);
    let (stored, _) = reader.get_account(0).unwrap();
    assert_eq!(stored.data().len(), 10 * 1024 * 1024);
    verify_round_trip(&batch, 0, &reader);
}

#[test]
fn corrupted_data_fails_hash_check() {
    let accounts = storable(&[5, 9, 12]);
    let mut bytes = write_file(&accounts);
    bytes[20] ^= 0xff;
    match HotStorageReader::new_from_bytes(bytes) {
        Err(TieredStorageError::HashMismatch(expected, observed)) => assert_ne!(expected, observed),
        other => panic!("unexpected {other:?}"),
    }
}

#[test]
fn corrupted_hash_field_fails_hash_check() {
    let accounts = storable(&[5, 9]);
    let mut bytes = write_file(&accounts);
    let hash_at = bytes.len() - 56;
    bytes[hash_at] ^= 0x01;
    assert!(matches!(
        HotStorageReader::new_from_bytes(bytes),
        Err(TieredStorageError::HashMismatch(_, _))
    ));
}

#[test]
fn magic_number_mismatch() {
    let bytes = 0x12345678u64.to_le_bytes().to_vec();
    match HotStorageReader::new_from_bytes(bytes) {
        Err(TieredStorageError::MagicNumberMismatch(expected, observed)) => {
            assert_eq!(expected, FOOTER_MAGIC_NUMBER);
            assert_eq!(observed, 0x12345678);
        }
        other => panic!("unexpected {other:?}"),
    }
}

#[test]
fn magic_number_spells_anzatech() {
    assert_eq!(FOOTER_MAGIC_NUMBER.to_le_bytes(), *b"AnzaTech");
    let bytes = write_file(&storable(&[1]));
    assert_eq!(&bytes[bytes.len() - 8..], b"AnzaTech");
}

#[test]
fn too_short_file_is_io_error() {
    assert!(matches!(
        HotStorageReader::new_from_bytes(vec![1, 2, 3]),
        Err(TieredStorageError::Io(_))
    ));
    assert!(matches!(
        HotStorageReader::new_from_bytes(FOOTER_MAGIC_NUMBER.to_le_bytes().to_vec()),
        Err(TieredStorageError::Io(_))
    ));
}

#[test]
fn unsupported_version() {
    let mut bytes = write_file(&storable(&[2]));
    let at = bytes.len() - 16;
    bytes[at..at + 8].copy_from_slice(&2u64.to_le_bytes());
    assert!(matches!(
        HotStorageReader::new_from_bytes(bytes),
        Err(TieredStorageError::UnsupportedVersion(2))
    ));
}

#[test]
fn unsupported_meta_format() {
    let mut bytes = write_file(&storable(&[2]));
    let at = bytes.len() - 192;
    bytes[at..at + 8].copy_from_slice(&1u64.to_le_bytes());
    assert!(matches!(
        HotStorageReader::new_from_bytes(bytes),
        Err(TieredStorageError::UnsupportedAccountMetaFormat)
    ));
}

#[test]
fn cold_format_cannot_be_written() {
    let mut format = hot_format();
    format.account_meta_format = AccountMetaFormat::Cold;
    let writer = TieredStorageWriter::new(&format);
    assert!(matches!(
        writer.write_accounts(&storable(&[1]), 0),
        Err(TieredStorageError::Unsupported)
    ));
}

#[test]
fn footer_sizes() {
    assert_eq!(FOOTER_SIZE, 184);
    assert_eq!(FOOTER_TAIL_SIZE, 24);
    let bytes = write_file(&storable(&[4, 4]));
    let reader = HotStorageReader::new_from_bytes(bytes.clone()).unwrap();
    let footer = reader.footer();
    assert_eq!(footer.footer_size, 184);
    assert_eq!(footer.format_version, 1);
    assert_eq!(
        footer.owners_block_offset as usize + 32 * footer.owner_count as usize + 192,
        bytes.len()
    );
}

#[test]
fn stored_hash_is_blake3_of_prefix() {
    let bytes = write_file(&storable(&[3, 8, 13]));
    let reader = HotStorageReader::new_from_bytes(bytes.clone()).unwrap();
    let expected = blake3::hash(&bytes[..bytes.len() - 56]);
    assert_eq!(&reader.footer().hash.bytes, expected.as_bytes());
    assert_eq!(&bytes[bytes.len() - 56..bytes.len() - 24], expected.as_bytes());
}

#[test]
fn opening_twice_gives_same_answers() {
    let accounts = storable(&[1, 2, 3, 4]);
    let bytes = write_file(&accounts);
    let first = HotStorageReader::new_from_bytes(bytes.clone()).unwrap();
    let second = HotStorageReader::new_from_bytes(bytes).unwrap();
    assert_eq!(first.footer(), second.footer());
    assert_eq!(first.accounts(0), second.accounts(0));
    for i in 0..4 {
        assert_eq!(first.account_address(i), second.account_address(i));
    }
}

#[test]
fn account_matches_owners_positions() {
    let accounts = storable(&[1, 2, 3]);
    let bytes = write_file(&accounts);
    let reader = HotStorageReader::new_from_bytes(bytes).unwrap();
    let owners = vec![
        accounts.account(2).owner,
        accounts.account(0).owner,
        accounts.account(1).owner,
    ];
    assert_eq!(reader.account_matches_owners(0, &owners), Ok(1));
    assert_eq!(reader.account_matches_owners(8, &owners), Ok(2));
    assert_eq!(reader.account_matches_owners(16, &owners), Ok(0));
    assert_eq!(
        reader.account_matches_owners(8, &owners[..1]),
        Err(MatchAccountOwnerError::NoMatch)
    );
    assert_eq!(
        reader.account_matches_owners(24, &owners),
        Err(MatchAccountOwnerError::UnableToLoad)
    );
    assert_eq!(reader.account_address(1), Some(accounts.get(1).1.clone()));
    assert_eq!(reader.account_address(3), None);
}

#[test]
fn readonly_storage_refuses_writes() {
    let bytes = write_file(&storable(&[6]));
    let mut readonly = TieredStorage::new_readonly("sealed".to_string(), bytes).unwrap();
    assert!(matches!(
        readonly.write_accounts(&storable(&[1]), 0),
        Err(TieredStorageError::AttemptToUpdateReadOnly(_))
    ));
}

#[test]
fn footer_records_address_range() {
    let reader = HotStorageReader::new_from_bytes(write_file(&storable(&[3, 1, 2]))).unwrap();
    assert_eq!(reader.footer().min_account_address, Pubkey::new(key(1, 0x55)));
    assert_eq!(reader.footer().max_account_address, Pubkey::new(key(3, 0x55)));

    let empty = HotStorageReader::new_from_bytes(write_file(&storable(&[]))).unwrap();
    assert_eq!(empty.footer().min_account_address, Pubkey::new([0u8; 32]));
    assert_eq!(empty.footer().max_account_address, Pubkey::new([0u8; 32]));
}

#[test]
fn addresses_compare_bytewise() {
    let low = Pubkey::new(key(1, 0xff));
    let high = Pubkey::new(key(2, 0x00));
    assert!(address_less(&low, &high));
    assert!(!address_less(&high, &low));
    assert!(!address_less(&low, &low));
}

#[test]
fn shared_block_offsets_are_readable() {
    let accounts = storable(&[4, 12]);
    let mut bytes = write_file(&accounts);
    let reader = HotStorageReader::new_from_bytes(bytes.clone()).unwrap();
    let footer = *reader.footer();
    let offsets = footer.index_block_offset as usize + 32 * 2;
    // both index entries name the first block, which then reaches the index block
    bytes[offsets + 8..offsets + 16].copy_from_slice(&0u64.to_le_bytes());
    let len = bytes.len();
    let hash = blake3::hash(&bytes[..len - 56]);
    bytes[len - 56..len - 24].copy_from_slice(hash.as_bytes());
    let shared = HotStorageReader::new_from_bytes(bytes).unwrap();
    let (first, next) = shared.get_account(0).unwrap();
    let (second, _) = shared.get_account(next).unwrap();
    assert_eq!(first.lamports(), 4);
    assert_eq!(second.lamports(), 4);
    assert_eq!(first.data(), second.data());
    // the block holds the entry, the data, 4 bytes of padding and 48 optional bytes
    assert_eq!(first.data_len() + 16 + 4 + 48, footer.index_block_offset as usize);
}
