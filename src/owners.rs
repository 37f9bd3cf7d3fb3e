//! The owners table: every distinct owner address once, in order of first
//! appearance.
use vstd::prelude::*;
use crate::bytes::push_bytes;
use crate::meta::Pubkey;

verus! {

/// The distinct addresses of `os`, in order of first appearance.
pub open spec fn owner_table(os: Seq<Seq<u8>>) -> Seq<Seq<u8>>
    decreases os.len(),
{
    if os.len() == 0 {
        Seq::empty()
    } else {
        let t = owner_table(os.drop_last());
        if t.contains(os.last()) {
            t
        } else {
            t.push(os.last())
        }
    }
}

/// No address stands twice in `t`.
pub open spec fn distinct(t: Seq<Seq<u8>>) -> bool {
    forall|i: int, j: int| 0 <= i < j < t.len() ==> t[i] != t[j]
}

/// The position of `o` in `t`.
pub open spec fn position_of(t: Seq<Seq<u8>>, o: Seq<u8>) -> int {
    choose|k: int| 0 <= k < t.len() && t[k] == o
}

/// The owners block: the addresses of `t`, one after another.
pub open spec fn owners_block_bytes(t: Seq<Seq<u8>>) -> Seq<u8>
    decreases t.len(),
{
    if t.len() == 0 {
        Seq::empty()
    } else {
        owners_block_bytes(t.drop_last()) + t.last()
    }
}

/// The owner table of a sequence is made of its addresses, has each of
/// them once, and is no longer than the sequence.
pub proof fn lemma_owner_table(os: Seq<Seq<u8>>)
    ensures
        distinct(owner_table(os)),
        owner_table(os).len() <= os.len(),
        forall|k: int| 0 <= k < os.len() ==> owner_table(os).contains(#[trigger] os[k]),
        forall|k: int|
            0 <= k < owner_table(os).len() ==> os.contains(#[trigger] owner_table(os)[k]),
    decreases os.len(),
{
    if os.len() > 0 {
        let pre = os.drop_last();
        lemma_owner_table(pre);
        let t = owner_table(pre);
        assert forall|k: int| 0 <= k < os.len() implies owner_table(os).contains(#[trigger] os[k]) by {
            if k < os.len() - 1 {
                assert(pre[k] == os[k]);
                assert(t.contains(pre[k]));
                if !t.contains(os.last()) {
                    let j = choose|j: int| 0 <= j < t.len() && t[j] == pre[k];
                    assert(t.push(os.last())[j] == os[k]);
                }
            } else {
                if !t.contains(os.last()) {
                    assert(t.push(os.last())[t.len() as int] == os[k]);
                }
            }
        }
        assert forall|k: int| 0 <= k < owner_table(os).len() implies os.contains(
            #[trigger] owner_table(os)[k],
        ) by {
            if k < t.len() {
                assert(pre.contains(t[k]));
                let j = choose|j: int| 0 <= j < pre.len() && pre[j] == t[k];
                assert(os[j] == t[k]);
            } else {
                assert(os[os.len() - 1] == os.last());
            }
        }
    }
}

/// The owner table of a prefix is a prefix of the owner table.
pub proof fn lemma_owner_table_prefix(os: Seq<Seq<u8>>, n: int)
    requires
        0 <= n <= os.len(),
    ensures
        owner_table(os.take(n)).len() <= owner_table(os).len(),
        owner_table(os.take(n)) == owner_table(os).take(owner_table(os.take(n)).len() as int),
    decreases os.len(),
{
    if n < os.len() {
        let pre = os.drop_last();
        assert(pre.take(n) =~= os.take(n));
        lemma_owner_table_prefix(pre, n);
        let t = owner_table(pre);
        let tn = owner_table(os.take(n));
        assert(tn == t.take(tn.len() as int));
        if !t.contains(os.last()) {
            assert(t.push(os.last()).take(tn.len() as int) =~= t.take(tn.len() as int));
        }
    } else {
        assert(os.take(n) =~= os);
        assert(owner_table(os).take(owner_table(os).len() as int) =~= owner_table(os));
    }
}

/// In a table without repeats, the position of an address is where it stands.
pub proof fn lemma_position_of(t: Seq<Seq<u8>>, k: int)
    requires
        distinct(t),
        0 <= k < t.len(),
    ensures
        position_of(t, t[k]) == k,
{
    let p = position_of(t, t[k]);
    assert(0 <= p < t.len() && t[p] == t[k]);
}

/// The owners table of the write path.
pub struct AccountOwnersTable {
    pub owners_vec: Vec<Pubkey>,
}

impl AccountOwnersTable {
    /// The addresses of the table.
    pub open spec fn view(&self) -> Seq<Seq<u8>> {
        Seq::new(self.owners_vec@.len(), |i: int| self.owners_vec@[i].bytes@)
    }

    /// An empty table.
    pub fn new() -> (r: AccountOwnersTable)
        ensures
            r.view() == Seq::<Seq<u8>>::empty(),
    {
        let r = AccountOwnersTable { owners_vec: Vec::new() };
        assert(r.view() =~= Seq::<Seq<u8>>::empty());
        r
    }

    /// Adds `address` unless it is already present; in either case returns
    /// its index in the table.
    pub fn try_insert(&mut self, address: &Pubkey) -> (r: u32)
        requires
            old(self).owners_vec@.len() < 0xffff_ffff,
        ensures
            old(self).view().contains(address.bytes@) ==> final(self).view() == old(self).view(),
            !old(self).view().contains(address.bytes@) ==> final(self).view() == old(
                self,
            ).view().push(address.bytes@),
            r < final(self).view().len(),
            final(self).view()[r as int] == address.bytes@,
    {
        let mut i: usize = 0;
        while i < self.owners_vec.len()
            invariant
                i <= self.owners_vec@.len(),
                self.owners_vec@.len() < 0xffff_ffff,
                forall|k: int| 0 <= k < i ==> self.view()[k] != address.bytes@,
            decreases self.owners_vec@.len() - i,
        {
            if self.owners_vec[i].same_as(address) {
                assert(self.view()[i as int] == address.bytes@);
                return i as u32;
            }
            i = i + 1;
        }
        assert(!self.view().contains(address.bytes@));
        let ghost before = self.view();
        let index = self.owners_vec.len() as u32;
        self.owners_vec.push(*address);
        assert(self.view() =~= before.push(address.bytes@));
        index
    }

    pub fn len(&self) -> (r: usize)
        ensures
            r == self.view().len(),
    {
        self.owners_vec.len()
    }

    /// Appends the owners block to `out` and returns the number of bytes
    /// appended.
    pub fn write_owners_block(&self, out: &mut Vec<u8>) -> (r: usize)
        requires
            forall|k: int| 0 <= k < self.view().len() ==> (#[trigger] self.view()[k]).len() == 32,
        ensures
            final(out)@ == old(out)@ + owners_block_bytes(self.view()),
            r == 32 * self.view().len(),
    {
        let ghost start = out@;
        let start_len = out.len();
        let mut i: usize = 0;
        while i < self.owners_vec.len()
            invariant
                i <= self.owners_vec@.len(),
                start_len == start.len(),
                forall|k: int| 0 <= k < self.view().len() ==> (#[trigger] self.view()[k]).len() == 32,
                out@ == start + owners_block_bytes(self.view().take(i as int)),
                owners_block_bytes(self.view().take(i as int)).len() == 32 * i,
            decreases self.owners_vec@.len() - i,
        {
            push_bytes(out, self.owners_vec[i].bytes.as_slice());
            assert(self.view().take(i + 1).drop_last() =~= self.view().take(i as int));
            i = i + 1;
        }
        assert(self.view().take(i as int) =~= self.view());
        out.len() - start_len
    }
}

} // verus!
