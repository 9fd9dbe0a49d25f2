//! The store: one chain for each chain key that an append was accepted for.
use vstd::prelude::*;
use crate::chain::{append_result, not_found_text, read_chain, records_since, CellState};
use crate::error::{ChcServiceError, ErrorModel};
use crate::key::{ChainKey, KeyModel};
use crate::record::{payload_models, record_models, AddRecordPayload, RecordItem, RecordModel};

verus! {

/// One chain of the store with the key that names it.
#[derive(Debug)]
struct ChainSlot {
    key: ChainKey,
    state: CellState,
}

/// The chains of the service, each under its own key.
#[derive(Debug)]
pub struct AppState {
    chains: Vec<ChainSlot>,
}

/// The slot at place `i` is the one of `key`.
spec fn holds(slots: Seq<ChainSlot>, key: KeyModel, i: int) -> bool {
    0 <= i < slots.len() && slots[i].key@ == key
}

/// No two slots have the same key.
spec fn distinct_keys(slots: Seq<ChainSlot>) -> bool {
    forall|i: int, j: int|
        0 <= i < slots.len() && 0 <= j < slots.len() && i != j ==> (#[trigger] slots[i]).key@
            != (#[trigger] slots[j]).key@
}

impl View for AppState {
    type V = Map<KeyModel, Seq<RecordModel>>;

    closed spec fn view(&self) -> Map<KeyModel, Seq<RecordModel>> {
        Map::new(
            |key: KeyModel| exists|i: int| holds(self.chains@, key, i),
            |key: KeyModel| self.chains@[choose|i: int| holds(self.chains@, key, i)].state@,
        )
    }
}

/// The records of the chain of `key`, or none where the store has no such
/// chain.
pub open spec fn chain_of(chains: Map<KeyModel, Seq<RecordModel>>, key: KeyModel) -> Seq<
    RecordModel,
> {
    if chains.contains_key(key) {
        chains[key]
    } else {
        Seq::empty()
    }
}

/// What a read of the chain of `key` gives: nothing where the store has no
/// such chain, and otherwise what the read of that chain gives.
pub open spec fn read_result(
    chains: Map<KeyModel, Seq<RecordModel>>,
    key: KeyModel,
    since: Option<Seq<u8>>,
) -> Option<Seq<RecordModel>> {
    if chains.contains_key(key) {
        records_since(chains[key], since)
    } else {
        None
    }
}

impl Default for AppState {
    /// A store without chains.
    fn default() -> (r: AppState)
        ensures
            r.wf(),
            r@ == Map::<KeyModel, Seq<RecordModel>>::empty(),
    {
        AppState::new()
    }
}

impl AppState {
    /// The store is valid: each chain is, and no key names two chains.
    #[verifier::type_invariant]
    pub closed spec fn wf(&self) -> bool {
        &&& distinct_keys(self.chains@)
        &&& forall|i: int| 0 <= i < self.chains@.len() ==> (#[trigger] self.chains@[i]).state.wf()
    }

    /// A store without chains.
    pub fn new() -> (r: AppState)
        ensures
            r.wf(),
            r@ == Map::<KeyModel, Seq<RecordModel>>::empty(),
    {
        let r = AppState { chains: Vec::new() };
        assert(r@ =~= Map::<KeyModel, Seq<RecordModel>>::empty());
        r
    }

    /// The place of the slot of `key`, if the store has one.
    fn find(&self, key: &ChainKey) -> (r: Option<usize>)
        ensures
            match r {
                Some(i) => holds(self.chains@, key@, i as int),
                None => !self@.contains_key(key@) && forall|j: int|
                    !holds(self.chains@, key@, j),
            },
    {
        let mut i: usize = 0;
        while i < self.chains.len()
            invariant
                i <= self.chains@.len(),
                forall|j: int| 0 <= j < i ==> !holds(self.chains@, key@, j),
            decreases self.chains@.len() - i,
        {
            if self.chains[i].key.same(key) {
                return Some(i);
            }
            i += 1;
        }
        None
    }

    /// The number of chains.
    pub fn len(&self) -> (r: usize)
        ensures
            r == self@.dom().len(),
            self@.dom().finite(),
    {
        proof {
            use_type_invariant(self);
            lemma_dom_size(self.chains@);
            assert(self@.dom() =~= keys_of(self.chains@));
        }
        self.chains.len()
    }

    /// Appends a batch to the chain of `key`, or refuses it and leaves the
    /// store as it was.
    ///
    /// The batch is judged against the chain of `key` as
    /// [`append_result`] says, with an empty chain where the store has none
    /// for `key`. An accepted batch that is not empty puts the extended chain
    /// under `key`; an empty batch changes nothing. No other chain is
    /// touched.
    pub fn add_records(&mut self, key: &ChainKey, batch: Vec<AddRecordPayload>) -> (r: Result<
        (),
        ChcServiceError,
    >)
        ensures
            final(self).wf(),
            match append_result(chain_of(old(self)@, key@), payload_models(batch@)) {
                Ok(chain) => r.is_ok() && final(self)@ == (if batch@.len() == 0 {
                    old(self)@
                } else {
                    old(self)@.insert(key@, chain)
                }),
                Err(e) => r matches Err(err) && err@ == e && final(self)@ == old(self)@,
            },
            forall|other: KeyModel|
                other != key@ ==> final(self)@.contains_key(other) == old(self)@.contains_key(
                    other,
                ) && chain_of(final(self)@, other) == chain_of(old(self)@, other),
    {
        proof {
            use_type_invariant(&*self);
        }
        if batch.len() == 0 {
            return Ok(());
        }
        let ghost before = self.chains@;
        match self.find(key) {
            Some(i) => {
                proof {
                    lemma_view_at(before, key@, i as int);
                }
                let mut taken = AppState::new();
                std::mem::swap(self, &mut taken);
                let mut chains = taken.chains;
                let outcome = chains[i].state.append(batch);
                proof {
                    let after = chains@;
                    assert(after.len() == before.len());
                    assert(forall|j: int|
                        0 <= j < after.len() ==> (#[trigger] after[j]).key == before[j].key);
                    assert(forall|j: int|
                        0 <= j < after.len() && j != i ==> (#[trigger] after[j]) == before[j]);
                    lemma_view_after_change(before, after, i as int);
                    assert(distinct_keys(after));
                    lemma_view_at(after, key@, i as int);
                }
                *self = AppState { chains };
                proof {
                    let after = self.chains@;
                    if outcome.is_ok() {
                        assert(self@ =~= old(self)@.insert(key@, after[i as int].state@));
                    } else {
                        assert(after[i as int] == before[i as int]);
                        assert(after =~= before);
                    }
                }
                outcome
            },
            None => {
                let mut state = CellState::new();
                match state.append(batch) {
                    Err(e) => Err(e),
                    Ok(()) => {
                        let ghost added = state@;
                        let mut taken = AppState::new();
                        std::mem::swap(self, &mut taken);
                        let mut chains = taken.chains;
                        chains.push(ChainSlot { key: key.duplicate(), state });
                        proof {
                            let after = chains@;
                            let last = before.len() as int;
                            assert(after[last].key@ == key@);
                            assert(after[last].state@ == added);
                            assert forall|a: int, b: int|
                                0 <= a < after.len() && 0 <= b < after.len() && a != b implies (
                            #[trigger] after[a]).key@ != (#[trigger] after[b]).key@ by {
                                if a < last && b < last {
                                    assert(after[a] == before[a] && after[b] == before[b]);
                                } else if a < last {
                                    assert(after[a] == before[a]);
                                    assert(!holds(before, key@, a));
                                } else {
                                    assert(after[b] == before[b]);
                                    assert(!holds(before, key@, b));
                                }
                            }
                            assert(distinct_keys(after));
                            lemma_view_after_push(before, after);
                        }
                        *self = AppState { chains };
                        proof {
                            let after = self.chains@;
                            let last = before.len() as int;
                            let wanted = old(self)@.insert(key@, added);
                            assert forall|k: KeyModel| self@.contains_key(k) implies wanted.contains_key(
                                k,
                            ) && wanted[k] == self@[k] by {
                                let j = choose|j: int| holds(after, k, j);
                                assert(holds(after, k, j));
                                if j != last {
                                    assert(holds(before, k, j));
                                }
                            }
                            assert forall|k: KeyModel| wanted.contains_key(k) implies self@.contains_key(
                                k,
                            ) by {
                                if k == key@ {
                                    assert(holds(after, k, last));
                                } else {
                                    let j = choose|j: int| holds(before, k, j);
                                    assert(holds(before, k, j));
                                }
                            }
                            assert(self@ =~= wanted);
                        }
                        Ok(())
                    },
                }
            },
        }
    }

    /// Reads the chain of `key` from an anchor on.
    ///
    /// The result is what [`CellState::records_since`] gives for that chain.
    /// A key without a chain is `HashNotFound`, as an empty chain is.
    pub fn get_record_data(&self, key: &ChainKey, since: &Option<Vec<u8>>) -> (r: Result<
        Vec<RecordItem>,
        ChcServiceError,
    >)
        ensures
            match read_result(self@, key@, crate::bytes::opt_bytes(*since)) {
                Some(records) => r matches Ok(items) && record_models(items@) == records,
                None => r matches Err(e) && e@ == ErrorModel::HashNotFound(not_found_text()),
            },
    {
        match self.find(key) {
            Some(i) => {
                proof {
                    use_type_invariant(self);
                    lemma_view_at(self.chains@, key@, i as int);
                }
                read_chain(Some(&self.chains[i].state), since)
            },
            None => read_chain(None, since),
        }
    }
}

/// The keys of the slots.
spec fn keys_of(slots: Seq<ChainSlot>) -> Set<KeyModel> {
    Set::new(|key: KeyModel| exists|i: int| holds(slots, key, i))
}

/// With distinct keys there are as many keys as slots.
proof fn lemma_dom_size(slots: Seq<ChainSlot>)
    requires
        distinct_keys(slots),
    ensures
        keys_of(slots).finite(),
        keys_of(slots).len() == slots.len(),
    decreases slots.len(),
{
    if slots.len() == 0 {
        assert(keys_of(slots) =~= Set::<KeyModel>::empty());
    } else {
        let front = slots.drop_last();
        let key = slots.last().key@;
        assert(distinct_keys(front)) by {
            assert(forall|i: int| 0 <= i < front.len() ==> front[i] == slots[i]);
        }
        lemma_dom_size(front);
        assert(!keys_of(front).contains(key)) by {
            if keys_of(front).contains(key) {
                let i = choose|i: int| holds(front, key, i);
                assert(slots[i].key@ == slots[slots.len() - 1].key@);
            }
        }
        assert(keys_of(slots) =~= keys_of(front).insert(key)) by {
            assert forall|k: KeyModel| keys_of(slots).contains(k) implies keys_of(front).insert(
                key,
            ).contains(k) by {
                let i = choose|i: int| holds(slots, k, i);
                if i < front.len() {
                    assert(holds(front, k, i));
                }
            }
            assert forall|k: KeyModel| keys_of(front).insert(key).contains(k) implies keys_of(
                slots,
            ).contains(k) by {
                if k == key {
                    assert(holds(slots, k, slots.len() - 1));
                } else {
                    let i = choose|i: int| holds(front, k, i);
                    assert(holds(slots, k, i));
                }
            }
        }
    }
}

/// The store's value at a key is the chain of the slot that holds it.
proof fn lemma_view_at(slots: Seq<ChainSlot>, key: KeyModel, i: int)
    requires
        distinct_keys(slots),
        holds(slots, key, i),
    ensures
        (choose|j: int| holds(slots, key, j)) == i,
{
    let j = choose|j: int| holds(slots, key, j);
    if j != i {
        assert(slots[i].key@ == slots[j].key@);
    }
}

/// What changing the chain of the slot at `i` does to the store's value.
proof fn lemma_view_after_change(before: Seq<ChainSlot>, after: Seq<ChainSlot>, i: int)
    requires
        distinct_keys(before),
        0 <= i < before.len(),
        after.len() == before.len(),
        forall|j: int| 0 <= j < after.len() ==> (#[trigger] after[j]).key == before[j].key,
        forall|j: int| 0 <= j < after.len() && j != i ==> (#[trigger] after[j]) == before[j],
    ensures
        forall|k: KeyModel, j: int| holds(after, k, j) == holds(before, k, j),
        forall|k: KeyModel, j: int|
            #![trigger holds(before, k, j)]
            holds(before, k, j) ==> (choose|m: int| holds(after, k, m)) == j && (choose|m: int|
                holds(before, k, m)) == j,
{
    assert forall|k: KeyModel, j: int| holds(after, k, j) == holds(before, k, j) by {
        if 0 <= j < after.len() {
            assert(after[j].key == before[j].key);
        }
    }
    assert(distinct_keys(after)) by {
        assert forall|a: int, b: int|
            0 <= a < after.len() && 0 <= b < after.len() && a != b implies (#[trigger] after[a]).key@
            != (#[trigger] after[b]).key@ by {
            assert(after[a].key == before[a].key);
            assert(after[b].key == before[b].key);
        }
    }
    assert forall|k: KeyModel, j: int| #![trigger holds(before, k, j)] holds(before, k, j) implies (
    choose|m: int| holds(after, k, m)) == j && (choose|m: int| holds(before, k, m)) == j by {
        assert(holds(after, k, j));
        lemma_view_at(after, k, j);
        lemma_view_at(before, k, j);
    }
}

/// What adding a slot with a new key does to the store's value.
proof fn lemma_view_after_push(before: Seq<ChainSlot>, after: Seq<ChainSlot>)
    requires
        distinct_keys(after),
        after.len() == before.len() + 1,
        forall|j: int| 0 <= j < before.len() ==> (#[trigger] after[j]) == before[j],
    ensures
        forall|k: KeyModel, j: int|
            #![trigger holds(before, k, j)]
            holds(before, k, j) ==> holds(after, k, j) && (choose|m: int| holds(after, k, m)) == j
                && (choose|m: int| holds(before, k, m)) == j,
        forall|k: KeyModel, j: int|
            #![trigger holds(after, k, j)]
            holds(after, k, j) ==> (j == before.len() || holds(before, k, j)) && (choose|m: int|
                holds(after, k, m)) == j,
{
    assert(distinct_keys(before)) by {
        assert forall|a: int, b: int|
            0 <= a < before.len() && 0 <= b < before.len() && a != b implies (
        #[trigger] before[a]).key@ != (#[trigger] before[b]).key@ by {
            assert(after[a] == before[a]);
            assert(after[b] == before[b]);
        }
    }
    assert forall|k: KeyModel, j: int| #![trigger holds(before, k, j)] holds(before, k, j) implies
        holds(after, k, j) && (choose|m: int| holds(after, k, m)) == j && (choose|m: int|
        holds(before, k, m)) == j by {
        assert(after[j] == before[j]);
        lemma_view_at(after, k, j);
        lemma_view_at(before, k, j);
    }
    assert forall|k: KeyModel, j: int| #![trigger holds(after, k, j)] holds(after, k, j) implies (j
        == before.len() || holds(before, k, j)) && (choose|m: int| holds(after, k, m)) == j by {
        if j < before.len() {
            assert(after[j] == before[j]);
        }
        lemma_view_at(after, k, j);
    }
}

} // verus!
