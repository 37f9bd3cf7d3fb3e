use tiered_storage::byte_block::ByteBlockWriter;
use tiered_storage::error::TieredStorageError;
use tiered_storage::footer::AccountBlockFormat;
use tiered_storage::meta::{
    AccountHash, AccountMetaFlags, AccountMetaOptionalFields, HotAccountMeta, MAX_HOT_OWNER_INDEX,
    MAX_HOT_PADDING,
};
use tiered_storage::writer::padding_bytes;

fn unique_hash(seed: u8) -> AccountHash {
    let mut bytes = [0u8; 32];
    for (i, b) in bytes.iter_mut().enumerate() {
        *b = seed.wrapping_add(i as u8).wrapping_mul(31).wrapping_add(1);
    }
    AccountHash::new(bytes)
}

#[test]
fn meta_test_account_meta_flags_new() {
    let flags = AccountMetaFlags::new();

    assert!(!flags.has_rent_epoch);
    assert!(!flags.has_account_hash);
    assert!(!flags.has_write_version);
    assert!(!flags.executable);
    assert_eq!(flags.to_u32(), 0u32);
}

fn verify_flags_serialization(flags: &AccountMetaFlags) {
    assert_eq!(AccountMetaFlags::from_u32(flags.to_u32()), *flags);
}

#[test]
fn meta_test_account_meta_flags_set() {
    let mut flags = AccountMetaFlags::new();

    flags.has_rent_epoch = true;

    assert!(flags.has_rent_epoch);
    assert!(!flags.has_account_hash);
    assert!(!flags.has_write_version);
    verify_flags_serialization(&flags);

    flags.has_account_hash = true;

    assert!(flags.has_rent_epoch);
    assert!(flags.has_account_hash);
    assert!(!flags.has_write_version);
    verify_flags_serialization(&flags);

    flags.has_write_version = true;

    assert!(flags.has_rent_epoch);
    assert!(flags.has_account_hash);
    assert!(flags.has_write_version);
    verify_flags_serialization(&flags);

    // make sure the reserved bits are untouched.
    assert_eq!(flags.to_u32() >> 4, 0u32);
}

fn update_and_verify_flags(opt_fields: &AccountMetaOptionalFields) {
    let flags: AccountMetaFlags = AccountMetaFlags::new_from(opt_fields);
    assert_eq!(flags.has_rent_epoch, opt_fields.rent_epoch.is_some());
    assert_eq!(flags.has_account_hash, opt_fields.account_hash.is_some());
    assert_eq!(flags.has_write_version, opt_fields.write_version.is_some());
    assert_eq!(flags.to_u32() >> 4, 0u32);
}

#[test]
fn meta_test_optional_fields_update_flags() {
    let test_epoch = 5432312;
    let test_write_version = 231;

    for rent_epoch in [None, Some(test_epoch)] {
        for account_hash in [None, Some(unique_hash(3))] {
            for write_version in [None, Some(test_write_version)] {
                update_and_verify_flags(&AccountMetaOptionalFields {
                    rent_epoch,
                    account_hash,
                    write_version,
                });
            }
        }
    }
}

#[test]
fn meta_test_optional_fields_size() {
    let test_epoch = 5432312;
    let test_write_version = 231;

    for rent_epoch in [None, Some(test_epoch)] {
        for account_hash in [None, Some(unique_hash(5))] {
            for write_version in [None, Some(test_write_version)] {
                let opt_fields = AccountMetaOptionalFields {
                    rent_epoch,
                    account_hash,
                    write_version,
                };
                assert_eq!(
                    opt_fields.size(),
                    rent_epoch.map_or(0, |_| 8) + account_hash.map_or(0, |_| 32)
                        + write_version.map_or(0, |_| 8)
                );
                let flags = AccountMetaFlags::new_from(&opt_fields);
                assert_eq!(AccountMetaOptionalFields::size_from_flags(&flags), opt_fields.size());
            }
        }
    }
}

#[test]
fn test_optional_fields_offset() {
    let test_epoch = 5432312;
    let test_write_version = 2314312321321;

    for rent_epoch in [None, Some(test_epoch)] {
        for account_hash in [None, Some(unique_hash(7))] {
            for write_version in [None, Some(test_write_version)] {
                let opt_fields = AccountMetaOptionalFields {
                    rent_epoch,
                    account_hash,
                    write_version,
                };
                let flags = AccountMetaFlags::new_from(&opt_fields);
                assert_eq!(AccountMetaOptionalFields::rent_epoch_offset(&flags), 0);
                assert_eq!(
                    AccountMetaOptionalFields::account_hash_offset(&flags),
                    rent_epoch.map_or(0, |_| 8)
                );
                assert_eq!(
                    AccountMetaOptionalFields::write_version_offset(&flags),
                    rent_epoch.map_or(0, |_| 8) + account_hash.map_or(0, |_| 32)
                );
                assert_eq!(
                    AccountMetaOptionalFields::size_from_flags(&flags),
                    rent_epoch.map_or(0, |_| 8)
                        + account_hash.map_or(0, |_| 32)
                        + write_version.map_or(0, |_| 8)
                );
            }
        }
    }
}

#[test]
fn test_hot_account_meta_layout() {
    let meta = HotAccountMeta::new()
        .with_lamports(0x0807_0605_0403_0201)
        .with_account_data_padding(5)
        .with_owner_index(0x1234)
        .with_flags(&AccountMetaFlags {
            has_rent_epoch: true,
            has_account_hash: false,
            has_write_version: false,
            executable: true,
        });
    let mut bytes = Vec::new();
    meta.write(&mut bytes);
    assert_eq!(bytes.len(), 16);
    // lamports at 0x00, packed fields at 0x08, flags at 0x0C
    assert_eq!(&bytes[0..8], &[1, 2, 3, 4, 5, 6, 7, 8]);
    assert_eq!(
        u32::from_le_bytes(bytes[8..12].try_into().unwrap()),
        (5u32 << 29) | 0x1234
    );
    assert_eq!(u32::from_le_bytes(bytes[12..16].try_into().unwrap()), 0b1001);
}

#[test]
fn test_packed_fields() {
    const TEST_PADDING: u8 = 7;
    const TEST_OWNER_INDEX: u32 = 0x1fff_ef98;
    let meta = HotAccountMeta::new()
        .with_account_data_padding(TEST_PADDING)
        .with_owner_index(TEST_OWNER_INDEX);
    let mut bytes = Vec::new();
    meta.write(&mut bytes);
    let read = HotAccountMeta::read(&bytes, 0);
    assert_eq!(read.account_data_padding(), TEST_PADDING);
    assert_eq!(read.owner_index(), TEST_OWNER_INDEX);
}

#[test]
fn test_packed_fields_max_values() {
    let meta = HotAccountMeta::new()
        .with_account_data_padding(MAX_HOT_PADDING)
        .with_owner_index(MAX_HOT_OWNER_INDEX);
    let mut bytes = Vec::new();
    meta.write(&mut bytes);
    let read = HotAccountMeta::read(&bytes, 0);
    assert_eq!(read.account_data_padding(), MAX_HOT_PADDING);
    assert_eq!(read.owner_index(), MAX_HOT_OWNER_INDEX);
}

#[test]
fn test_hot_meta_max_values() {
    let meta = HotAccountMeta::new()
        .with_account_data_padding(MAX_HOT_PADDING)
        .with_owner_index(MAX_HOT_OWNER_INDEX);

    assert_eq!(meta.account_data_padding(), MAX_HOT_PADDING);
    assert_eq!(meta.owner_index(), MAX_HOT_OWNER_INDEX);
}

#[test]
fn test_hot_account_meta() {
    const TEST_LAMPORTS: u64 = 2314232137;
    const TEST_PADDING: u8 = 5;
    const TEST_OWNER_INDEX: u32 = 0x1fef_1234;
    const TEST_RENT_EPOCH: u64 = 7;

    let optional_fields = AccountMetaOptionalFields {
        rent_epoch: Some(TEST_RENT_EPOCH),
        account_hash: Some(unique_hash(9)),
        write_version: None,
    };

    let flags = AccountMetaFlags::new_from(&optional_fields);
    let meta = HotAccountMeta::new()
        .with_lamports(TEST_LAMPORTS)
        .with_account_data_padding(TEST_PADDING)
        .with_owner_index(TEST_OWNER_INDEX)
        .with_flags(&flags);

    assert_eq!(meta.lamports(), TEST_LAMPORTS);
    assert_eq!(meta.account_data_padding(), TEST_PADDING);
    assert_eq!(meta.owner_index(), TEST_OWNER_INDEX);
    assert_eq!(*meta.flags(), flags);
}

#[test]
fn test_hot_account_meta_full() {
    let account_data = [11u8; 83];
    let padding = [0u8; 5];

    const TEST_LAMPORT: u64 = 2314232137;
    const OWNER_INDEX: u32 = 0x1fef_1234;
    const TEST_RENT_EPOCH: u64 = 7;
    const TEST_WRITE_VERSION: u64 = 0;

    let hash = unique_hash(11);
    let optional_fields = AccountMetaOptionalFields {
        rent_epoch: Some(TEST_RENT_EPOCH),
        account_hash: Some(hash),
        write_version: Some(TEST_WRITE_VERSION),
    };

    let flags = AccountMetaFlags::new_from(&optional_fields);
    let expected_meta = HotAccountMeta::new()
        .with_lamports(TEST_LAMPORT)
        .with_account_data_padding(padding.len().try_into().unwrap())
        .with_owner_index(OWNER_INDEX)
        .with_flags(&flags);

    let mut buffer = Vec::new();
    expected_meta.write(&mut buffer);
    buffer.extend_from_slice(&account_data);
    buffer.extend_from_slice(&padding);
    optional_fields.write(&mut buffer);

    let meta = HotAccountMeta::read(&buffer, 0);
    assert_eq!(expected_meta, meta);
    assert!(meta.flags().has_rent_epoch);
    assert!(meta.flags().has_account_hash);
    assert!(meta.flags().has_write_version);
    assert_eq!(meta.account_data_padding() as usize, padding.len());

    let account_block = &buffer[16..];
    let optional_offset = meta.optional_fields_offset(account_block);
    assert_eq!(
        optional_offset,
        account_block.len() - AccountMetaOptionalFields::size_from_flags(&flags)
    );
    assert_eq!(account_data.len(), meta.account_data_size(account_block));
    assert_eq!(
        &account_data[..],
        &account_block[..meta.account_data_size(account_block)]
    );
    let rent = u64::from_le_bytes(
        account_block[optional_offset..optional_offset + 8]
            .try_into()
            .unwrap(),
    );
    assert_eq!(Some(rent), optional_fields.rent_epoch);
    assert_eq!(
        &account_block[optional_offset + 8..optional_offset + 40],
        &hash.bytes[..]
    );
    let write_version = u64::from_le_bytes(
        account_block[optional_offset + 40..optional_offset + 48]
            .try_into()
            .unwrap(),
    );
    assert_eq!(Some(write_version), optional_fields.write_version);
}

#[test]
fn padding_of_exact_multiple_is_zero() {
    assert_eq!(padding_bytes(0), 0);
    assert_eq!(padding_bytes(8), 0);
    assert_eq!(padding_bytes(80), 0);
}

#[test]
fn padding_one_short_of_multiple_is_one() {
    assert_eq!(padding_bytes(7), 1);
    assert_eq!(padding_bytes(15), 1);
    assert_eq!(padding_bytes(1), 7);
    assert_eq!(padding_bytes(83), 5);
}

#[test]
fn zero_hash_is_absent() {
    assert!(AccountHash::zeroed().is_zero());
    assert!(!unique_hash(1).is_zero());
}

#[test]
fn byte_block_writer_stages_a_block() {
    let mut writer = ByteBlockWriter::new(AccountBlockFormat::AlignedRaw);
    writer.write_meta(&HotAccountMeta::new().with_lamports(3));
    writer.write(&[1, 2, 3]);
    writer.write_padding(5);
    writer.write_optional_fields(&AccountMetaOptionalFields {
        rent_epoch: Some(9),
        account_hash: None,
        write_version: None,
    });
    let block = writer.finish().unwrap();
    assert_eq!(block.len(), 16 + 3 + 5 + 8);
    assert_eq!(&block[16..24], &[1, 2, 3, 0, 0, 0, 0, 0]);
    assert_eq!(u64::from_le_bytes(block[24..32].try_into().unwrap()), 9);

    let compressed = ByteBlockWriter::new(AccountBlockFormat::Lz4);
    assert!(matches!(compressed.finish(), Err(TieredStorageError::Unsupported)));
}
