//! What the reader makes of a file that the writer wrote.
use vstd::prelude::*;
use crate::account::{Account, StorableAccountsWithHashesAndWriteVersions};
use crate::bytes::{
    lemma_located_concat, lemma_located_trans, lemma_located_u32, lemma_located_u64,
    lemma_u32_le_round_trip, lemma_u64_le_round_trip, located, u32_le, u64_at, u64_le,
};
use crate::meta::{
    flags_for, flags_of, flags_word, lemma_flags_round_trip, lemma_optional_bytes_len,
    lemma_packed_round_trip, meta_at, meta_bytes, optional_bytes, optional_size, packed_word,
    AccountHash, AccountMetaFlags, AccountMetaOptionalFields, HotAccountMeta,
};
use crate::footer::{
    footer_at, footer_bytes, footer_head_bytes, footer_rest_bytes, lemma_footer_round_trip,
    lemma_footer_sizes, spec_array32, TieredStorageFooter, FOOTER_MAGIC_NUMBER,
};
use crate::error::TieredStorageError;
use crate::hash::blake3_of;
use crate::meta::{zero_32, NO_WRITE_VERSION, RENT_EXEMPT_RENT_EPOCH};
use crate::owners::{lemma_owner_table, lemma_owner_table_prefix, owner_table, owners_block_bytes};
use crate::reader::{
    read_as, HotStorageReader, address_of, block_end_at, block_offset_at, block_ok, data_of, file_footer, hash_of, layout_ok,
    meta_of, owner_of, rent_epoch_of, valid_file, write_version_of,
};
use crate::writer::{
    addresses_spec, batch_len, batch_owner_table, batch_owners, block_bytes, block_spec,
    blocks_spec, file_image, footer_spec, hashed_prefix, offsets_spec, optional_fields_of,
    owner_index_spec, padding_of,
};

verus! {

/// Every account block stands in the blocks where the offsets say, one
/// after the other.
pub proof fn lemma_blocks_located(b: StorableAccountsWithHashesAndWriteVersions, skip: int, k: int)
    requires
        0 <= k,
    ensures
        forall|i: int|
            0 <= i < k ==> located(
                blocks_spec(b, skip, k),
                blocks_spec(b, skip, i).len() as int,
                #[trigger] block_spec(b, skip, i),
            ),
    decreases k,
{
    if k > 0 {
        lemma_blocks_located(b, skip, k - 1);
        let x = blocks_spec(b, skip, k - 1);
        let y = block_spec(b, skip, k - 1);
        lemma_located_concat(x, y);
        assert forall|i: int| 0 <= i < k implies located(
            blocks_spec(b, skip, k),
            blocks_spec(b, skip, i).len() as int,
            #[trigger] block_spec(b, skip, i),
        ) by {
            if i < k - 1 {
                lemma_located_trans(x + y, 0, x, blocks_spec(b, skip, i).len() as int, block_spec(b, skip, i));
            }
        }
    }
}

/// The offsets of the blocks grow with the position.
pub proof fn lemma_blocks_monotone(b: StorableAccountsWithHashesAndWriteVersions, skip: int, i: int, k: int)
    requires
        0 <= i <= k,
    ensures
        blocks_spec(b, skip, i).len() <= blocks_spec(b, skip, k).len(),
    decreases k,
{
    if i < k {
        lemma_blocks_monotone(b, skip, i, k - 1);
    }
}

/// Every address and every block offset stands in the index block where
/// its position says.
pub proof fn lemma_index_located(b: StorableAccountsWithHashesAndWriteVersions, skip: int, k: int)
    requires
        0 <= k,
    ensures
        forall|i: int|
            0 <= i < k ==> located(
                addresses_spec(b, skip, k),
                32 * i,
                #[trigger] b.accounts@[skip + i].0.bytes@,
            ),
        forall|i: int|
            0 <= i < k ==> located(
                offsets_spec(b, skip, k),
                8 * i,
                u64_le(#[trigger] blocks_spec(b, skip, i).len() as u64),
            ),
        addresses_spec(b, skip, k).len() == 32 * k,
        offsets_spec(b, skip, k).len() == 8 * k,
    decreases k,
{
    if k > 0 {
        lemma_index_located(b, skip, k - 1);
        let xa = addresses_spec(b, skip, k - 1);
        let ya = b.accounts@[skip + k - 1].0.bytes@;
        lemma_located_concat(xa, ya);
        let xo = offsets_spec(b, skip, k - 1);
        let yo = u64_le(blocks_spec(b, skip, k - 1).len() as u64);
        lemma_u64_le_round_trip(blocks_spec(b, skip, k - 1).len() as u64);
        lemma_located_concat(xo, yo);
        assert forall|i: int| 0 <= i < k implies located(
            addresses_spec(b, skip, k),
            32 * i,
            #[trigger] b.accounts@[skip + i].0.bytes@,
        ) by {
            if i < k - 1 {
                lemma_located_trans(xa + ya, 0, xa, 32 * i, b.accounts@[skip + i].0.bytes@);
            }
        }
        assert forall|i: int| 0 <= i < k implies located(
            offsets_spec(b, skip, k),
            8 * i,
            u64_le(#[trigger] blocks_spec(b, skip, i).len() as u64),
        ) by {
            if i < k - 1 {
                lemma_located_trans(xo + yo, 0, xo, 8 * i, u64_le(blocks_spec(b, skip, i).len() as u64));
            }
        }
    }
}

/// Every owner stands in the owners block where its index says.
pub proof fn lemma_owners_located(t: Seq<Seq<u8>>)
    requires
        forall|k: int| 0 <= k < t.len() ==> (#[trigger] t[k]).len() == 32,
    ensures
        forall|k: int| 0 <= k < t.len() ==> located(owners_block_bytes(t), 32 * k, #[trigger] t[k]),
        owners_block_bytes(t).len() == 32 * t.len(),
    decreases t.len(),
{
    if t.len() > 0 {
        let pre = t.drop_last();
        assert forall|k: int| 0 <= k < pre.len() implies (#[trigger] pre[k]).len() == 32 by {
            assert(pre[k] == t[k]);
        }
        lemma_owners_located(pre);
        let x = owners_block_bytes(pre);
        let y = t.last();
        lemma_located_concat(x, y);
        assert forall|k: int| 0 <= k < t.len() implies located(owners_block_bytes(t), 32 * k, #[trigger] t[k]) by {
            if k < t.len() - 1 {
                assert(pre[k] == t[k]);
                lemma_located_trans(x + y, 0, x, 32 * k, t[k]);
            }
        }
    }
}

/// The metadata entry of an account block.
pub open spec fn block_meta(a: Account, h: AccountHash, wv: u64, owner_index: u32) -> HotAccountMeta {
    HotAccountMeta {
        lamports: a.lamports,
        padding: padding_of(a.data@.len() as int) as u8,
        owner_index,
        flags: AccountMetaFlags { executable: a.executable, ..flags_for(optional_fields_of(a, h, wv)) },
    }
}

/// A metadata entry stands where it was written.
pub proof fn lemma_meta_located(s: Seq<u8>, p: int, m: HotAccountMeta)
    requires
        m.wf(),
        located(s, p, meta_bytes(m)),
    ensures
        meta_at(s, p) == m,
{
    let w = packed_word(m.padding, m.owner_index);
    let fw = flags_word(m.flags);
    lemma_u64_le_round_trip(m.lamports);
    lemma_u32_le_round_trip(w);
    lemma_u32_le_round_trip(fw);
    lemma_packed_round_trip(m.padding, m.owner_index);
    lemma_flags_round_trip(m.flags);
    let mb = meta_bytes(m);
    assert(mb.subrange(0, 8) =~= u64_le(m.lamports));
    assert(mb.subrange(8, 12) =~= u32_le(w));
    assert(mb.subrange(12, 16) =~= u32_le(fw));
    lemma_located_trans(s, p, mb, 0, u64_le(m.lamports));
    lemma_located_trans(s, p, mb, 8, u32_le(w));
    lemma_located_trans(s, p, mb, 12, u32_le(fw));
    lemma_located_u64(s, p, m.lamports);
    lemma_located_u32(s, p + 8, w);
    lemma_located_u32(s, p + 12, fw);
}

/// What an account block holds, read where the block stands.
pub proof fn lemma_block_read(s: Seq<u8>, p: int, a: Account, h: AccountHash, wv: u64, owner_index: u32)
    requires
        owner_index <= 0x1fff_ffff,
        located(s, p, block_bytes(a, h, wv, owner_index)),
    ensures
        ({
            let o = optional_fields_of(a, h, wv);
            let m = block_meta(a, h, wv, owner_index);
            let len = block_bytes(a, h, wv, owner_index).len();
            let q = p + len - optional_size(m.flags);
            let r = if o.rent_epoch is Some { 8int } else { 0 };
            let hl = if o.account_hash is Some { 32int } else { 0 };
            &&& len == 16 + a.data@.len() + padding_of(a.data@.len() as int) + optional_size(m.flags)
            &&& optional_size(m.flags) == optional_size(flags_for(o))
            &&& meta_at(s, p) == m
            &&& located(s, p + 16, a.data@)
            &&& (o.rent_epoch matches Some(e) ==> u64_at(s, q) == e)
            &&& (o.account_hash matches Some(hh) ==> s.subrange(q + r, q + r + 32) == hh.bytes@)
            &&& (o.write_version matches Some(v) ==> u64_at(s, q + r + hl) == v)
        }),
{
    let o = optional_fields_of(a, h, wv);
    let m = block_meta(a, h, wv, owner_index);
    let blk = block_bytes(a, h, wv, owner_index);
    let mb = meta_bytes(m);
    let zeros = Seq::new(padding_of(a.data@.len() as int) as nat, |k: int| 0u8);
    let ob = optional_bytes(o);
    lemma_u64_le_round_trip(m.lamports);
    lemma_u32_le_round_trip(packed_word(m.padding, m.owner_index));
    lemma_u32_le_round_trip(flags_word(m.flags));
    lemma_optional_bytes_len(o);
    assert(blk == mb + a.data@ + zeros + ob);
    assert(mb.len() == 16);
    // the metadata entry
    lemma_located_concat(mb + a.data@ + zeros, ob);
    lemma_located_concat(mb + a.data@, zeros);
    lemma_located_concat(mb, a.data@);
    lemma_located_trans(blk, 0, mb + a.data@ + zeros, 0, mb + a.data@);
    lemma_located_trans(blk, 0, mb + a.data@, 0, mb);
    lemma_located_trans(s, p, blk, 0, mb);
    lemma_meta_located(s, p, m);
    // the data
    lemma_located_trans(blk, 0, mb + a.data@, 16, a.data@);
    lemma_located_trans(s, p, blk, 16, a.data@);
    // the optional fields
    let q0 = blk.len() - ob.len();
    lemma_located_trans(s, p, blk, q0, ob);
    let re = match o.rent_epoch {
        Some(e) => u64_le(e),
        None => Seq::<u8>::empty(),
    };
    let he = match o.account_hash {
        Some(hh) => hh.bytes@,
        None => Seq::<u8>::empty(),
    };
    let ve = match o.write_version {
        Some(v) => u64_le(v),
        None => Seq::<u8>::empty(),
    };
    assert(ob == re + he + ve);
    lemma_located_concat(re + he, ve);
    lemma_located_concat(re, he);
    lemma_located_trans(ob, 0, re + he, 0, re);
    lemma_located_trans(ob, 0, re + he, re.len() as int, he);
    if let Some(e) = o.rent_epoch {
        lemma_u64_le_round_trip(e);
        lemma_located_trans(s, p + q0, ob, 0, re);
        lemma_located_u64(s, p + q0, e);
    }
    if let Some(hh) = o.account_hash {
        lemma_located_trans(s, p + q0, ob, re.len() as int, he);
    }
    if let Some(v) = o.write_version {
        lemma_u64_le_round_trip(v);
        lemma_located_trans(s, p + q0, ob, (re.len() + he.len()) as int, ve);
        lemma_located_u64(s, p + q0 + re.len() + he.len(), v);
    }
}

/// The hash field of the written file.
pub open spec fn image_hash(b: StorableAccountsWithHashesAndWriteVersions, skip: int) -> AccountHash {
    AccountHash { bytes: spec_array32(blake3_of(hashed_prefix(b, skip))) }
}

/// What a writable batch asks of its sizes: the counts fit their fields
/// and the file fits the offsets.
pub open spec fn batch_fits(b: StorableAccountsWithHashesAndWriteVersions, skip: int) -> bool {
    &&& b.wf()
    &&& 0 <= skip
    &&& batch_len(b, skip) <= 0xffff_ffff
    &&& batch_owner_table(b, skip).len() <= 0x2000_0000
    &&& hashed_prefix(b, skip).len() + 56 <= 0xffff_ffff_ffff_ffff
}

/// Where each of four parts stands in their concatenation.
pub proof fn lemma_four_parts(p1: Seq<u8>, p2: Seq<u8>, p3: Seq<u8>, p4: Seq<u8>)
    ensures
        located(p1 + p2 + p3 + p4, 0, p1),
        located(p1 + p2 + p3 + p4, p1.len() as int, p2),
        located(p1 + p2 + p3 + p4, (p1.len() + p2.len()) as int, p3),
        located(p1 + p2 + p3 + p4, (p1.len() + p2.len() + p3.len()) as int, p4),
{
    let s = p1 + p2 + p3 + p4;
    lemma_located_concat(p1 + p2 + p3, p4);
    lemma_located_concat(p1 + p2, p3);
    lemma_located_concat(p1, p2);
    lemma_located_trans(s, 0, p1 + p2 + p3, 0, p1 + p2);
    lemma_located_trans(s, 0, p1 + p2 + p3, (p1.len() + p2.len()) as int, p3);
    lemma_located_trans(s, 0, p1 + p2, 0, p1);
    lemma_located_trans(s, 0, p1 + p2, p1.len() as int, p2);
}

/// The file regrouped as body, footer and magic number.
proof fn lemma_regroup(body: Seq<u8>, head: Seq<u8>, rest: Seq<u8>, magic: Seq<u8>)
    ensures
        located(body + head + rest + magic, 0, body),
        located(body + head + rest + magic, body.len() as int, head + rest),
        located(body + head + rest + magic, (body.len() + head.len() + rest.len()) as int, magic),
        (body + head + rest + magic).take((body.len() + head.len()) as int) == body + head,
{
    let s = body + head + rest + magic;
    assert(s =~= body + (head + rest) + magic);
    lemma_located_concat(body + (head + rest), magic);
    lemma_located_concat(body, head + rest);
    lemma_located_trans(s, 0, body + (head + rest), 0, body);
    lemma_located_trans(s, 0, body + (head + rest), body.len() as int, head + rest);
    assert(s.take((body.len() + head.len()) as int) =~= body + head);
}

/// The footer of the written file is the one the writer built, and the
/// parts of the file stand where the footer says.
#[verifier::rlimit(100)]
pub proof fn lemma_image_layout(b: StorableAccountsWithHashesAndWriteVersions, skip: int)
    requires
        batch_fits(b, skip),
    ensures
        ({
            let n = batch_len(b, skip);
            let s = file_image(b, skip);
            let bl = blocks_spec(b, skip, n).len() as int;
            let t = batch_owner_table(b, skip);
            &&& s.len() == bl + 40 * n + 32 * t.len() + 192
            &&& footer_at(s, s.len() - 192) == Ok::<TieredStorageFooter, TieredStorageError>(
                footer_spec(b, skip, image_hash(b, skip)),
            )
            &&& located(s, 0, blocks_spec(b, skip, n))
            &&& located(s, bl, addresses_spec(b, skip, n))
            &&& located(s, bl + 32 * n, offsets_spec(b, skip, n))
            &&& located(s, bl + 40 * n, owners_block_bytes(t))
            &&& s.take(s.len() - 56) == hashed_prefix(b, skip)
            &&& u64_at(s, s.len() - 8) == FOOTER_MAGIC_NUMBER
            &&& forall|k: int| 0 <= k < t.len() ==> (#[trigger] t[k]).len() == 32
        }),
{
    let n = batch_len(b, skip);
    let os = batch_owners(b, skip);
    let t = batch_owner_table(b, skip);
    let bb = blocks_spec(b, skip, n);
    let aa = addresses_spec(b, skip, n);
    let oo = offsets_spec(b, skip, n);
    lemma_owner_table(os);
    assert forall|k: int| 0 <= k < t.len() implies (#[trigger] t[k]).len() == 32 by {
        assert(os.contains(t[k]));
        let j = choose|j: int| 0 <= j < os.len() && os[j] == t[k];
        assert(os[j] == b.accounts@[skip + j].1.owner.bytes@);
    }
    lemma_owners_located(t);
    let ww = owners_block_bytes(t);
    lemma_index_located(b, skip, n);
    let zf = footer_spec(b, skip, AccountHash { bytes: spec_array32(zero_32()) });
    let f = footer_spec(b, skip, image_hash(b, skip));
    let hh = footer_head_bytes(zf);
    assert(footer_head_bytes(f) == hh);
    lemma_footer_sizes(f);
    let body = bb + aa + oo + ww;
    let rr = footer_rest_bytes(f);
    let mm = u64_le(FOOTER_MAGIC_NUMBER);
    lemma_u64_le_round_trip(FOOTER_MAGIC_NUMBER);
    let s = file_image(b, skip);
    assert(hashed_prefix(b, skip) == body + hh) by {
        reveal(hashed_prefix);
    }
    assert(s == body + hh + rr + mm) by {
        reveal(file_image);
    }
    lemma_regroup(body, hh, rr, mm);
    assert(footer_bytes(f) == hh + rr);
    lemma_footer_round_trip(s, body.len() as int, f);
    lemma_located_u64(s, s.len() - 8, FOOTER_MAGIC_NUMBER);
    lemma_four_parts(bb, aa, oo, ww);
    lemma_located_trans(s, 0, body, 0, bb);
    lemma_located_trans(s, 0, body, bb.len() as int, aa);
    lemma_located_trans(s, 0, body, (bb.len() + aa.len()) as int, oo);
    lemma_located_trans(s, 0, body, (bb.len() + aa.len() + oo.len()) as int, ww);
}

/// The `i`-th account that the reader finds in `s` with footer `f` is the
/// account at `skip + i` of `b`, with its address, hash and write version.
pub open spec fn reads_back(
    s: Seq<u8>,
    f: TieredStorageFooter,
    b: StorableAccountsWithHashesAndWriteVersions,
    skip: int,
    i: int,
) -> bool {
    let a = b.accounts@[skip + i].1;
    let h = b.hashes@[skip + i];
    let wv = b.write_versions@[skip + i];
    &&& address_of(s, f, i) == b.accounts@[skip + i].0.bytes@
    &&& owner_of(s, f, i) == a.owner.bytes@
    &&& meta_of(s, f, i).lamports == a.lamports
    &&& meta_of(s, f, i).flags.executable == a.executable
    &&& rent_epoch_of(s, f, i) == if a.rent_epoch == RENT_EXEMPT_RENT_EPOCH {
        None
    } else {
        Some(a.rent_epoch)
    }
    &&& hash_of(s, f, i) == if h.bytes@ == zero_32() {
        None
    } else {
        Some(h.bytes@)
    }
    &&& write_version_of(s, f, i) == if wv == NO_WRITE_VERSION {
        None
    } else {
        Some(wv)
    }
    &&& data_of(s, f, i) == a.data@
    &&& meta_of(s, f, i).padding as int == padding_of(a.data@.len() as int)
}

/// The offset of the `i`-th block stands in the index block.
proof fn lemma_offset_read(b: StorableAccountsWithHashesAndWriteVersions, skip: int, i: int)
    requires
        batch_fits(b, skip),
        0 <= i < batch_len(b, skip),
    ensures
        block_offset_at(file_image(b, skip), footer_spec(b, skip, image_hash(b, skip)), i)
            == blocks_spec(b, skip, i).len(),
{
    let n = batch_len(b, skip);
    let s = file_image(b, skip);
    let f = footer_spec(b, skip, image_hash(b, skip));
    let bn = blocks_spec(b, skip, n).len() as int;
    lemma_image_layout(b, skip);
    lemma_index_located(b, skip, n);
    lemma_blocks_monotone(b, skip, i, n);
    let bi = blocks_spec(b, skip, i).len();
    assert(located(offsets_spec(b, skip, n), 8 * i, u64_le(bi as u64)));
    lemma_located_trans(s, bn + 32 * n, offsets_spec(b, skip, n), 8 * i, u64_le(bi as u64));
    lemma_located_u64(s, bn + 32 * n + 8 * i, bi as u64);
    assert(f.index_block_offset == bn);
    assert(f.account_entry_count == n);
}

/// An account block that stands where the index says reads back.
proof fn lemma_account_in_file(
    s: Seq<u8>,
    f: TieredStorageFooter,
    i: int,
    a: Account,
    addr: Seq<u8>,
    h: AccountHash,
    wv: u64,
    oi: u32,
    owner: Seq<u8>,
)
    requires
        oi <= 0x1fff_ffff,
        oi < f.owner_count,
        located(s, block_offset_at(s, f, i), block_bytes(a, h, wv, oi)),
        block_end_at(s, f, i) == block_offset_at(s, f, i) + block_bytes(a, h, wv, oi).len(),
        block_end_at(s, f, i) <= f.index_block_offset,
        located(s, f.index_block_offset + 32 * i, addr),
        addr.len() == 32,
        located(s, f.owners_block_offset + 32 * oi, owner),
        owner.len() == 32,
    ensures
        block_ok(s, f, i),
        address_of(s, f, i) == addr,
        owner_of(s, f, i) == owner,
        meta_of(s, f, i).lamports == a.lamports,
        meta_of(s, f, i).flags.executable == a.executable,
        rent_epoch_of(s, f, i) == if a.rent_epoch == RENT_EXEMPT_RENT_EPOCH {
            None
        } else {
            Some(a.rent_epoch)
        },
        hash_of(s, f, i) == if h.bytes@ == zero_32() {
            None
        } else {
            Some(h.bytes@)
        },
        write_version_of(s, f, i) == if wv == NO_WRITE_VERSION {
            None
        } else {
            Some(wv)
        },
        data_of(s, f, i) == a.data@,
        meta_of(s, f, i).padding as int == padding_of(a.data@.len() as int),
{
    let p = block_offset_at(s, f, i);
    lemma_block_read(s, p, a, h, wv, oi);
    assert(meta_of(s, f, i) == block_meta(a, h, wv, oi));
    assert(data_of(s, f, i) =~= a.data@);
}

/// The owner index of the `i`-th written account names its owner in the
/// owners table.
proof fn lemma_owner_index(b: StorableAccountsWithHashesAndWriteVersions, skip: int, i: int)
    requires
        batch_fits(b, skip),
        0 <= i < batch_len(b, skip),
    ensures
        0 <= owner_index_spec(b, skip, i) < batch_owner_table(b, skip).len(),
        batch_owner_table(b, skip)[owner_index_spec(b, skip, i)] == b.accounts@[skip + i].1.owner.bytes@,
{
    let os = batch_owners(b, skip);
    let t = batch_owner_table(b, skip);
    let tp = owner_table(os.take(i + 1));
    lemma_owner_table(os.take(i + 1));
    lemma_owner_table_prefix(os, i + 1);
    assert(os.take(i + 1)[i] == os[i]);
    assert(tp.contains(os[i]));
    let oi = owner_index_spec(b, skip, i);
    assert(0 <= oi < tp.len() && tp[oi] == os[i]);
    assert(tp == t.take(tp.len() as int));
    assert(t[oi] == os[i]);
}

proof fn lemma_block_at(b: StorableAccountsWithHashesAndWriteVersions, skip: int, k: int, i: int)
    requires
        0 <= i < k,
    ensures
        located(blocks_spec(b, skip, k), blocks_spec(b, skip, i).len() as int, block_spec(b, skip, i)),
{
    lemma_blocks_located(b, skip, k);
}

proof fn lemma_address_at(b: StorableAccountsWithHashesAndWriteVersions, skip: int, k: int, i: int)
    requires
        0 <= i < k,
    ensures
        located(addresses_spec(b, skip, k), 32 * i, b.accounts@[skip + i].0.bytes@),
{
    lemma_index_located(b, skip, k);
}

proof fn lemma_owner_at(t: Seq<Seq<u8>>, k: int)
    requires
        forall|j: int| 0 <= j < t.len() ==> (#[trigger] t[j]).len() == 32,
        0 <= k < t.len(),
    ensures
        located(owners_block_bytes(t), 32 * k, t[k]),
{
    lemma_owners_located(t);
}

/// The `i`-th account of the written file reads back as written.
#[verifier::rlimit(80)]
pub proof fn lemma_account_reads_back(b: StorableAccountsWithHashesAndWriteVersions, skip: int, i: int)
    requires
        batch_fits(b, skip),
        0 <= i < batch_len(b, skip),
    ensures
        block_ok(file_image(b, skip), footer_spec(b, skip, image_hash(b, skip)), i),
        reads_back(file_image(b, skip), footer_spec(b, skip, image_hash(b, skip)), b, skip, i),
{
    let n = batch_len(b, skip);
    let s = file_image(b, skip);
    let f = footer_spec(b, skip, image_hash(b, skip));
    let bn = blocks_spec(b, skip, n).len() as int;
    let t = batch_owner_table(b, skip);
    lemma_image_layout(b, skip);
    lemma_blocks_monotone(b, skip, i + 1, n);
    let bi = blocks_spec(b, skip, i).len() as int;
    let bi1 = blocks_spec(b, skip, i + 1).len() as int;
    assert(f.index_block_offset == bn);
    assert(f.account_entry_count == n);
    assert(f.owner_count == t.len());
    assert(f.owners_block_offset == bn + 40 * n);
    lemma_offset_read(b, skip, i);
    if i + 1 < n {
        lemma_offset_read(b, skip, i + 1);
    }
    assert(block_offset_at(s, f, i) == bi);
    lemma_owner_index(b, skip, i);
    let oi = owner_index_spec(b, skip, i);
    let a = b.accounts@[skip + i].1;
    let h = b.hashes@[skip + i];
    let wv = b.write_versions@[skip + i];
    assert(block_spec(b, skip, i) == block_bytes(a, h, wv, oi as u32));
    lemma_block_at(b, skip, n, i);
    lemma_located_trans(s, 0, blocks_spec(b, skip, n), bi, block_spec(b, skip, i));
    assert(bi1 == bi + block_spec(b, skip, i).len());
    lemma_block_read(s, bi, a, h, wv, oi as u32);
    assert(bi1 >= bi + 16);
    assert(block_end_at(s, f, i) == bi1);
    let addr = b.accounts@[skip + i].0.bytes@;
    lemma_address_at(b, skip, n, i);
    lemma_located_trans(s, bn, addresses_spec(b, skip, n), 32 * i, addr);
    lemma_owner_at(t, oi);
    lemma_located_trans(s, bn + 40 * n, owners_block_bytes(t), 32 * oi, t[oi]);
    lemma_account_in_file(s, f, i, a, addr, h, wv, oi as u32, t[oi]);
}

/// Writing a batch and opening the file gives the batch back: the file is
/// valid, holds one account per written entry, and its `i`-th account is
/// the batch's entry at `skip + i`, with the same address, owner, balance,
/// executable flag, rent epoch, hash, write version and data (an absent
/// optional field standing for its marker value).
pub proof fn lemma_round_trip(b: StorableAccountsWithHashesAndWriteVersions, skip: int)
    requires
        batch_fits(b, skip),
    ensures
        valid_file(file_image(b, skip)),
        file_footer(file_image(b, skip)) == footer_spec(b, skip, image_hash(b, skip)),
        file_footer(file_image(b, skip)).account_entry_count == batch_len(b, skip),
        forall|i: int|
            0 <= i < batch_len(b, skip) ==> #[trigger] reads_back(
                file_image(b, skip),
                file_footer(file_image(b, skip)),
                b,
                skip,
                i,
            ),
{
    let n = batch_len(b, skip);
    let s = file_image(b, skip);
    let f = footer_spec(b, skip, image_hash(b, skip));
    let bn = blocks_spec(b, skip, n).len() as int;
    let t = batch_owner_table(b, skip);
    lemma_image_layout(b, skip);
    assert(file_footer(s) == f);
    assert(u64_at(s, s.len() - 16) == f.format_version);
    assert(u64_at(s, s.len() - 24) == f.footer_size);
    assert(f.index_block_offset == bn);
    assert(f.owners_block_offset == bn + 40 * n);
    assert forall|i: int| 0 <= i < f.account_entry_count implies #[trigger] block_ok(s, f, i) by {
        lemma_account_reads_back(b, skip, i);
    }
    assert(layout_ok(s, f));
    assert forall|i: int| 0 <= i < n implies #[trigger] reads_back(s, f, b, skip, i) by {
        lemma_account_reads_back(b, skip, i);
    }
}

/// The content hash stored in a written file is the hash of every byte
/// before the hash field.
pub proof fn lemma_stored_hash(b: StorableAccountsWithHashesAndWriteVersions, skip: int)
    requires
        batch_fits(b, skip),
    ensures
        file_footer(file_image(b, skip)).hash.bytes == spec_array32(
            blake3_of(file_image(b, skip).take(file_image(b, skip).len() - 56)),
        ),
{
    lemma_round_trip(b, skip);
}

/// The owners table of a written file holds every owner of the written
/// accounts once: its length is the number of distinct owners, and every
/// account's owner index falls inside it.
pub proof fn lemma_owners_deduplicated(b: StorableAccountsWithHashesAndWriteVersions, skip: int)
    requires
        batch_fits(b, skip),
    ensures
        ({
            let s = file_image(b, skip);
            let f = file_footer(s);
            let t = batch_owner_table(b, skip);
            let os = batch_owners(b, skip);
            &&& f.owner_count == t.len()
            &&& t.len() <= batch_len(b, skip)
            &&& crate::owners::distinct(t)
            &&& forall|k: int| 0 <= k < t.len() ==> os.contains(#[trigger] t[k])
            &&& forall|i: int| 0 <= i < os.len() ==> t.contains(#[trigger] os[i])
            &&& forall|i: int|
                0 <= i < f.account_entry_count ==> #[trigger] meta_of(s, f, i).owner_index
                    < f.owner_count
        }),
{
    let s = file_image(b, skip);
    let f = file_footer(s);
    lemma_round_trip(b, skip);
    lemma_owner_table(batch_owners(b, skip));
    assert forall|i: int| 0 <= i < f.account_entry_count implies #[trigger] meta_of(s, f, i).owner_index
        < f.owner_count by {
        assert(block_ok(s, f, i));
    }
}

/// Every written account block is aligned: its data and padding fill a
/// multiple of 8 bytes, with at most 7 bytes of padding.
pub proof fn lemma_blocks_aligned(b: StorableAccountsWithHashesAndWriteVersions, skip: int, i: int)
    requires
        batch_fits(b, skip),
        0 <= i < batch_len(b, skip),
    ensures
        (data_of(file_image(b, skip), file_footer(file_image(b, skip)), i).len() + meta_of(
            file_image(b, skip),
            file_footer(file_image(b, skip)),
            i,
        ).padding) % 8 == 0,
        meta_of(file_image(b, skip), file_footer(file_image(b, skip)), i).padding <= 7,
{
    let s = file_image(b, skip);
    let f = footer_spec(b, skip, image_hash(b, skip));
    lemma_image_layout(b, skip);
    assert(file_footer(s) == f);
    lemma_account_reads_back(b, skip, i);
    let len = data_of(s, f, i).len() as int;
    lemma_padding_of(len);
}

/// The padding brings a length up to a multiple of 8.
pub proof fn lemma_padding_of(len: int)
    requires
        0 <= len,
    ensures
        0 <= padding_of(len) <= 7,
        (len + padding_of(len)) % 8 == 0,
{
}

/// Opening the same bytes twice gives readers that agree: the same footer,
/// and the same account at every position.
pub proof fn lemma_open_twice(
    r1: HotStorageReader,
    r2: HotStorageReader,
    a1: crate::reader::TieredReadableAccount,
    a2: crate::reader::TieredReadableAccount,
    i: int,
)
    requires
        r1.wf(),
        r2.wf(),
        r1.bytes@ == r2.bytes@,
        read_as(a1, r1.bytes@, r1.footer, i),
        read_as(a2, r2.bytes@, r2.footer, i),
    ensures
        r1.footer == r2.footer,
        a1.address == a2.address,
        a1.owner == a2.owner,
        a1.lamports == a2.lamports,
        a1.executable == a2.executable,
        a1.rent_epoch == a2.rent_epoch,
        a1.account_hash == a2.account_hash,
        a1.write_version == a2.write_version,
        a1.data@ == a2.data@,
{
    assert(a1.address.bytes =~= a2.address.bytes);
    assert(a1.owner.bytes =~= a2.owner.bytes);
    if let Some(h1) = a1.account_hash {
        let h2 = a2.account_hash.unwrap();
        assert(h1.bytes =~= h2.bytes);
    }
}

/// A reader over a written file holds one account per written entry, and
/// the account that it reads at position `i` is the batch's entry at
/// `skip + i`: same address, owner, balance, executable flag and data; the
/// rent epoch, hash and write version present exactly when they do not
/// hold their marker value, and then equal to it.
pub proof fn lemma_reader_returns_batch(
    r: HotStorageReader,
    b: StorableAccountsWithHashesAndWriteVersions,
    skip: int,
    i: int,
    a: crate::reader::TieredReadableAccount,
)
    requires
        r.wf(),
        batch_fits(b, skip),
        r.bytes@ == file_image(b, skip),
        0 <= i < batch_len(b, skip),
        read_as(a, r.bytes@, r.footer, i),
    ensures
        r.footer.account_entry_count == batch_len(b, skip),
        a.address == b.accounts@[skip + i].0,
        a.owner == b.accounts@[skip + i].1.owner,
        a.lamports == b.accounts@[skip + i].1.lamports,
        a.executable == b.accounts@[skip + i].1.executable,
        a.data@ == b.accounts@[skip + i].1.data@,
        a.rent_epoch == if b.accounts@[skip + i].1.rent_epoch == RENT_EXEMPT_RENT_EPOCH {
            None
        } else {
            Some(b.accounts@[skip + i].1.rent_epoch)
        },
        a.account_hash == if b.hashes@[skip + i].bytes@ == zero_32() {
            None
        } else {
            Some(b.hashes@[skip + i])
        },
        a.write_version == if b.write_versions@[skip + i] == NO_WRITE_VERSION {
            None
        } else {
            Some(b.write_versions@[skip + i])
        },
{
    lemma_round_trip(b, skip);
    assert(reads_back(r.bytes@, r.footer, b, skip, i));
    assert(a.address.bytes =~= b.accounts@[skip + i].0.bytes);
    assert(a.owner.bytes =~= b.accounts@[skip + i].1.owner.bytes);
    if let Some(h) = a.account_hash {
        assert(h.bytes =~= b.hashes@[skip + i].bytes);
    }
}

} // verus!
