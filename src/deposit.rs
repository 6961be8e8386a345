use vstd::prelude::*;

use crate::bytes::{bytes_equal, copy_bytes};

verus! {

/// What the bridge knows of a watched deposit address: the request's nonce
/// and the account-chain address that the deposit is for.
#[derive(Debug, Clone)]
pub struct DepositInfo {
    pub nonce: u64,
    pub eth_address: Vec<u8>,
}

pub struct DepositInfoView {
    pub nonce: u64,
    pub eth_address: Seq<u8>,
}

impl View for DepositInfo {
    type V = DepositInfoView;

    open spec fn view(&self) -> DepositInfoView {
        DepositInfoView { nonce: self.nonce, eth_address: self.eth_address@ }
    }
}

impl DepositInfo {
    pub fn new(nonce: u64, eth_address: Vec<u8>) -> (r: Self)
        ensures
            r.nonce == nonce,
            r.eth_address == eth_address,
    {
        DepositInfo { nonce, eth_address }
    }

    /// A field-by-field copy.
    pub fn copy(&self) -> (r: Self)
        ensures
            r@ == self@,
    {
        DepositInfo { nonce: self.nonce, eth_address: copy_bytes(&self.eth_address) }
    }
}

pub struct DepositEntryView {
    pub address: Seq<u8>,
    pub info: DepositInfoView,
}

/// The deposit information stored for `address`: that of the entry inserted
/// last under it.
pub open spec fn lookup_deposit(entries: Seq<DepositEntryView>, address: Seq<u8>) -> Option<
    DepositInfoView,
>
    decreases entries.len(),
{
    if entries.len() == 0 {
        None
    } else if entries.last().address == address {
        Some(entries.last().info)
    } else {
        lookup_deposit(entries.drop_last(), address)
    }
}

/// The watched addresses, each (as the bytes of its text form) mapped to its
/// deposit information.
#[derive(Debug, Clone)]
pub struct DepositIndex {
    addresses: Vec<Vec<u8>>,
    infos: Vec<DepositInfo>,
}

impl View for DepositIndex {
    type V = Seq<DepositEntryView>;

    closed spec fn view(&self) -> Seq<DepositEntryView> {
        Seq::new(
            self.addresses@.len(),
            |i: int| DepositEntryView { address: self.addresses@[i]@, info: self.infos@[i]@ },
        )
    }
}

impl DepositIndex {
    pub closed spec fn wf(&self) -> bool {
        self.addresses@.len() == self.infos@.len()
    }

    /// An index that watches no address.
    pub fn new() -> (r: Self)
        ensures
            r.wf(),
            r@.len() == 0,
    {
        DepositIndex { addresses: Vec::new(), infos: Vec::new() }
    }

    /// Watches `address`, replacing what was stored for it before.
    pub fn insert(&mut self, address: Vec<u8>, info: DepositInfo)
        requires
            old(self).wf(),
        ensures
            final(self).wf(),
            final(self)@ == old(self)@.push(DepositEntryView { address: address@, info: info@ }),
            lookup_deposit(final(self)@, address@) == Some(info@),
    {
        let ghost e = DepositEntryView { address: address@, info: info@ };
        self.addresses.push(address);
        self.infos.push(info);
        assert(self@ =~= old(self)@.push(e));
        assert(self@.drop_last() =~= old(self)@);
    }

    /// The deposit information stored for `address`, if it is watched.
    pub fn get(&self, address: &[u8]) -> (r: Option<DepositInfo>)
        requires
            self.wf(),
        ensures
            r matches Some(i) ==> lookup_deposit(self@, address@) == Some(i@),
            r is None ==> lookup_deposit(self@, address@) is None,
    {
        let ghost es = self@;
        let mut i: usize = self.addresses.len();
        assert(es.subrange(0, i as int) =~= es);
        while i > 0
            invariant
                self.wf(),
                i <= es.len(),
                es == self@,
                lookup_deposit(es, address@) == lookup_deposit(es.subrange(0, i as int), address@),
            decreases i,
        {
            let ghost pre = es.subrange(0, i as int);
            assert(pre.last() == es[i - 1]);
            assert(pre.drop_last() =~= es.subrange(0, i - 1));
            if bytes_equal(self.addresses[i - 1].as_slice(), address) {
                return Some(self.infos[i - 1].copy());
            }
            i = i - 1;
        }
        None
    }
}

} // verus!
