use crate::error::ScopeError;
use crate::oracle_twaps::{EmaType, TwapEnabledBitmask, MAX_ENTRIES};
use vstd::prelude::*;

verus! {

/// Whether every byte of an account key is zero, the unset key.
pub open spec fn is_unset_key(k: [u8; 32]) -> bool {
    forall|i: int| 0 <= i < 32 ==> k@[i] == 0
}

fn same_key(a: &[u8; 32], b: &[u8; 32]) -> (r: bool)
    ensures
        r == (a@ == b@),
{
    let mut i: usize = 0;
    while i < 32
        invariant
            i <= 32,
            forall|j: int| 0 <= j < i ==> a@[j] == b@[j],
        decreases 32 - i,
    {
        if a[i] != b[i] {
            return false;
        }
        i = i + 1;
    }
    assert(a@ =~= b@);
    true
}

fn is_unset(k: &[u8; 32]) -> (r: bool)
    ensures
        r == is_unset_key(*k),
{
    let mut i: usize = 0;
    while i < 32
        invariant
            i <= 32,
            forall|j: int| 0 <= j < i ==> k@[j] == 0,
        decreases 32 - i,
    {
        if k[i] != 0 {
            return false;
        }
        i = i + 1;
    }
    true
}

/// Per-entry configuration that the averaging engine reads: which record an
/// entry's averages come from, which timeframes it maintains, and its
/// reference price entry.
pub struct OracleMappings {
    pub price_info_accounts: Vec<[u8; 32]>,
    pub price_types: Vec<u8>,
    pub twap_source: Vec<u16>,
    pub twap_enabled_bitmask: Vec<TwapEnabledBitmask>,
    pub ref_price: Vec<u16>,
    pub generic: Vec<[u8; 20]>,
}

impl OracleMappings {
    /// Every table holds `MAX_ENTRIES` slots.
    pub open spec fn wf(&self) -> bool {
        &&& self.price_info_accounts@.len() == MAX_ENTRIES
        &&& self.price_types@.len() == MAX_ENTRIES
        &&& self.twap_source@.len() == MAX_ENTRIES
        &&& self.twap_enabled_bitmask@.len() == MAX_ENTRIES
        &&& self.ref_price@.len() == MAX_ENTRIES
        &&& self.generic@.len() == MAX_ENTRIES
    }

    /// Every slot unused: no type, no timeframe, no source, no reference price.
    pub fn new() -> (r: OracleMappings)
        ensures
            r.wf(),
            forall|i: int|
                0 <= i < MAX_ENTRIES ==> {
                    &&& r.price_types@[i] == 0
                    &&& r.twap_source@[i] == u16::MAX
                    &&& r.twap_enabled_bitmask@[i].bitmask == 0
                    &&& r.ref_price@[i] == u16::MAX
                },
            forall|i: int| 0 <= i < MAX_ENTRIES ==> is_unset_key(#[trigger] r.price_info_accounts@[i]),
    {
        let mut price_info_accounts: Vec<[u8; 32]> = Vec::new();
        let mut generic: Vec<[u8; 20]> = Vec::new();
        let mut price_types: Vec<u8> = Vec::new();
        let mut twap_source: Vec<u16> = Vec::new();
        let mut twap_enabled_bitmask: Vec<TwapEnabledBitmask> = Vec::new();
        let mut ref_price: Vec<u16> = Vec::new();
        let mut i: usize = 0;
        while i < MAX_ENTRIES
            invariant
                i <= MAX_ENTRIES,
                price_info_accounts@.len() == i,
                generic@.len() == i,
                price_types@.len() == i,
                twap_source@.len() == i,
                twap_enabled_bitmask@.len() == i,
                ref_price@.len() == i,
                forall|j: int|
                    0 <= j < i ==> {
                        &&& price_types@[j] == 0
                        &&& twap_source@[j] == u16::MAX
                        &&& twap_enabled_bitmask@[j].bitmask == 0
                        &&& ref_price@[j] == u16::MAX
                    },
                forall|j: int| 0 <= j < i ==> is_unset_key(#[trigger] price_info_accounts@[j]),
            decreases MAX_ENTRIES - i,
        {
            let unset: [u8; 32] = [0u8; 32];
            assert(is_unset_key(unset));
            price_info_accounts.push(unset);
            generic.push([0u8; 20]);
            price_types.push(0);
            twap_source.push(u16::MAX);
            twap_enabled_bitmask.push(TwapEnabledBitmask::new());
            ref_price.push(u16::MAX);
            i = i + 1;
        }
        OracleMappings { price_info_accounts, price_types, twap_source, twap_enabled_bitmask, ref_price, generic }
    }

    /// Whether the entry maintains any timeframe.
    pub fn is_twap_enabled(&self, entry_id: usize) -> (r: bool)
        requires
            self.wf(),
            entry_id < MAX_ENTRIES,
        ensures
            r == (self.twap_enabled_bitmask@[entry_id as int].bitmask > 0),
    {
        self.twap_enabled_bitmask[entry_id].is_twap_enabled()
    }

    /// Whether the entry maintains timeframe `ema_type`.
    pub fn is_twap_enabled_for_ema_type(&self, entry_id: usize, ema_type: EmaType) -> (r: bool)
        requires
            self.wf(),
            entry_id < MAX_ENTRIES,
        ensures
            r == self.twap_enabled_bitmask@[entry_id as int].enabled(ema_type),
    {
        self.twap_enabled_bitmask[entry_id].is_twap_enabled_for_ema_type(ema_type)
    }

    /// The timeframes the entry maintains.
    pub fn get_twap_enabled_bitmask(&self, entry_id: usize) -> (r: TwapEnabledBitmask)
        requires
            self.wf(),
            entry_id < MAX_ENTRIES,
        ensures
            r == self.twap_enabled_bitmask@[entry_id as int],
    {
        self.twap_enabled_bitmask[entry_id]
    }

    /// Set the timeframes the entry maintains.
    pub fn set_twap_enabled_bitmask(&mut self, entry_id: usize, twap_enabled_bitmask: TwapEnabledBitmask)
        requires
            old(self).wf(),
            entry_id < MAX_ENTRIES,
        ensures
            final(self).wf(),
            final(self).twap_enabled_bitmask@ == old(self).twap_enabled_bitmask@.update(
                entry_id as int,
                twap_enabled_bitmask,
            ),
            final(self).price_types@ == old(self).price_types@,
            final(self).twap_source@ == old(self).twap_source@,
            final(self).ref_price@ == old(self).ref_price@,
            final(self).price_info_accounts@ == old(self).price_info_accounts@,
            final(self).generic@ == old(self).generic@,
    {
        self.twap_enabled_bitmask.set(entry_id, twap_enabled_bitmask);
    }

    /// The record the entry's averages are read from.
    pub fn get_twap_source(&self, entry_id: usize) -> (r: usize)
        requires
            self.wf(),
            entry_id < MAX_ENTRIES,
        ensures
            r == self.twap_source@[entry_id as int],
    {
        self.twap_source[entry_id] as usize
    }

    /// Make the entry read its averages from record `twap_source`, with
    /// price type `new_twap_type`; its account becomes `program_id` and its
    /// generic data is cleared. A source outside the table is an error and
    /// changes nothing.
    pub fn set_twap_source(
        &mut self,
        entry_id: usize,
        new_twap_type: u8,
        twap_source: u16,
        program_id: [u8; 32],
    ) -> (r: Result<
        (),
        ScopeError,
    >)
        requires
            old(self).wf(),
            entry_id < MAX_ENTRIES,
        ensures
            final(self).wf(),
            twap_source >= MAX_ENTRIES ==> r == Err::<(), ScopeError>(ScopeError::TwapSourceIndexOutOfRange)
                && final(self).price_types@ == old(self).price_types@ && final(self).twap_source@ == old(
                self,
            ).twap_source@ && final(self).price_info_accounts@ == old(self).price_info_accounts@
                && final(self).generic@ == old(self).generic@,
            twap_source < MAX_ENTRIES ==> r == Ok::<(), ScopeError>(()) && final(self).price_types@ == old(
                self,
            ).price_types@.update(entry_id as int, new_twap_type) && final(self).twap_source@ == old(
                self,
            ).twap_source@.update(entry_id as int, twap_source) && final(self).price_info_accounts@ == old(
                self,
            ).price_info_accounts@.update(entry_id as int, program_id) && final(self).generic@ == old(
                self,
            ).generic@.update(entry_id as int, final(self).generic@[entry_id as int]) && forall|i: int|
                0 <= i < 20 ==> final(self).generic@[entry_id as int]@[i] == 0,
            final(self).twap_enabled_bitmask@ == old(self).twap_enabled_bitmask@,
            final(self).ref_price@ == old(self).ref_price@,
    {
        if twap_source as usize >= MAX_ENTRIES {
            return Err(ScopeError::TwapSourceIndexOutOfRange);
        }
        self.price_info_accounts.set(entry_id, program_id);
        self.price_types.set(entry_id, new_twap_type);
        self.twap_source.set(entry_id, twap_source);
        self.generic.set(entry_id, [0u8; 20]);
        Ok(())
    }

    /// Clear the entry's configuration.
    pub fn reset_entry(&mut self, entry_id: usize)
        requires
            old(self).wf(),
            entry_id < MAX_ENTRIES,
        ensures
            final(self).wf(),
            final(self).price_types@ == old(self).price_types@.update(entry_id as int, 0),
            final(self).twap_source@ == old(self).twap_source@.update(entry_id as int, u16::MAX),
            final(self).twap_enabled_bitmask@ == old(self).twap_enabled_bitmask@.update(
                entry_id as int,
                TwapEnabledBitmask { bitmask: 0 },
            ),
            final(self).ref_price@ == old(self).ref_price@.update(entry_id as int, u16::MAX),
            final(self).price_info_accounts@ == old(self).price_info_accounts@.update(
                entry_id as int,
                final(self).price_info_accounts@[entry_id as int],
            ),
            is_unset_key(final(self).price_info_accounts@[entry_id as int]),
            final(self).generic@ == old(self).generic@.update(entry_id as int, final(self).generic@[entry_id as int]),
            forall|i: int| 0 <= i < 20 ==> final(self).generic@[entry_id as int]@[i] == 0,
    {
        let unset: [u8; 32] = [0u8; 32];
        assert(is_unset_key(unset));
        self.price_info_accounts.set(entry_id, unset);
        self.generic.set(entry_id, [0u8; 20]);
        self.price_types.set(entry_id, 0);
        self.twap_enabled_bitmask.set(entry_id, TwapEnabledBitmask::new());
        self.twap_source.set(entry_id, u16::MAX);
        self.ref_price.set(entry_id, u16::MAX);
    }

    /// Whether the entry is configured: it has a price type or an account.
    pub fn is_entry_used(&self, entry_id: usize) -> (r: bool)
        requires
            self.wf(),
            entry_id < MAX_ENTRIES,
        ensures
            r == (self.price_types@[entry_id as int] != 0 || !is_unset_key(
                self.price_info_accounts@[entry_id as int],
            )),
    {
        self.price_types[entry_id] != 0 || !is_unset(&self.price_info_accounts[entry_id])
    }

    /// The account the entry's price is read from, unless it is unset or is
    /// the program itself.
    pub fn get_entry_mapping_pk(&self, entry_id: usize, program_id: [u8; 32]) -> (r: Option<[u8; 32]>)
        requires
            self.wf(),
            entry_id < MAX_ENTRIES,
        ensures
            ({
                let pk = self.price_info_accounts@[entry_id as int];
                if is_unset_key(pk) || pk@ == program_id@ {
                    r == None::<[u8; 32]>
                } else {
                    r == Some(pk)
                }
            }),
    {
        let pk = self.price_info_accounts[entry_id];
        if is_unset(&pk) || same_key(&pk, &program_id) {
            None
        } else {
            Some(pk)
        }
    }

    /// Point the entry at an account, or at the program itself when none is
    /// given, with price type `price_type` and its generic data.
    pub fn set_entry_mapping(
        &mut self,
        entry_id: usize,
        price_info: Option<[u8; 32]>,
        price_type: u8,
        generic_data: [u8; 20],
        program_id: [u8; 32],
    )
        requires
            old(self).wf(),
            entry_id < MAX_ENTRIES,
        ensures
            final(self).wf(),
            final(self).price_info_accounts@ == old(self).price_info_accounts@.update(
                entry_id as int,
                match price_info {
                    Some(pk) => pk,
                    None => program_id,
                },
            ),
            final(self).price_types@ == old(self).price_types@.update(entry_id as int, price_type),
            final(self).generic@ == old(self).generic@.update(entry_id as int, generic_data),
            final(self).twap_source@ == old(self).twap_source@,
            final(self).twap_enabled_bitmask@ == old(self).twap_enabled_bitmask@,
            final(self).ref_price@ == old(self).ref_price@,
    {
        let pk = match price_info {
            Some(pk) => pk,
            None => program_id,
        };
        self.price_info_accounts.set(entry_id, pk);
        self.price_types.set(entry_id, price_type);
        self.generic.set(entry_id, generic_data);
    }

    /// The entry's reference price entry, if it has one.
    pub fn get_ref_price(&self, entry_id: usize) -> (r: Option<u16>)
        requires
            self.wf(),
            entry_id < MAX_ENTRIES,
        ensures
            self.ref_price@[entry_id as int] == u16::MAX ==> r == None::<u16>,
            self.ref_price@[entry_id as int] != u16::MAX ==> r == Some(self.ref_price@[entry_id as int]),
    {
        let raw_ref_price = self.ref_price[entry_id];
        if raw_ref_price == u16::MAX {
            None
        } else {
            Some(raw_ref_price)
        }
    }

    /// Set or clear the entry's reference price entry.
    pub fn set_ref_price(&mut self, entry_id: usize, ref_price_index: Option<u16>)
        requires
            old(self).wf(),
            entry_id < MAX_ENTRIES,
        ensures
            final(self).wf(),
            final(self).ref_price@ == old(self).ref_price@.update(
                entry_id as int,
                match ref_price_index {
                    Some(v) => v,
                    None => u16::MAX,
                },
            ),
            final(self).price_types@ == old(self).price_types@,
            final(self).twap_source@ == old(self).twap_source@,
            final(self).twap_enabled_bitmask@ == old(self).twap_enabled_bitmask@,
            final(self).price_info_accounts@ == old(self).price_info_accounts@,
            final(self).generic@ == old(self).generic@,
    {
        let v = match ref_price_index {
            Some(v) => v,
            None => u16::MAX,
        };
        self.ref_price.set(entry_id, v);
    }
}

} // verus!
