//! One chain: its records in order, the rule that links them, the append
//! that extends it or refuses, and the read of what follows an anchor.
use vstd::prelude::*;
use crate::bytes::{bytes_eq, copy_bytes, opt_bytes};
use crate::error::{ChcServiceError, ErrorModel};
use crate::record::{
    payload_models, record_models, ActionDecoding, AddRecordPayload, DecodingModel, PayloadModel,
    RecordItem, RecordModel,
};

verus! {

/// The record that opens a chain has sequence number 0 and no previous
/// action.
pub open spec fn is_genesis(r: RecordModel) -> bool {
    r.action.seq == 0 && r.action.prev_action.is_none()
}

/// `next` follows `prev`: its sequence number is one more, and it names the
/// hash of `prev` as its previous action.
pub open spec fn links_to(prev: RecordModel, next: RecordModel) -> bool {
    next.action.seq == prev.action.seq + 1 && next.action.prev_action == Some(prev.action.hash)
}

/// A sequence of records is a chain when it is empty, or starts with a
/// genesis record and each later record follows the one before it.
pub open spec fn linked(s: Seq<RecordModel>) -> bool {
    &&& s.len() > 0 ==> is_genesis(s[0])
    &&& forall|i: int| 0 < i < s.len() ==> links_to(#[trigger] s[i - 1], s[i])
}

/// Every record of the sequence is well formed.
pub open spec fn all_well_formed(s: Seq<RecordModel>) -> bool {
    forall|i: int| 0 <= i < s.len() ==> (#[trigger] s[i]).well_formed()
}

/// The sequence number and previous-action hash that the next record of a
/// chain must have: one more than the head's and the head's hash, or 0 and
/// none for an empty chain.
pub open spec fn expected_link(s: Seq<RecordModel>) -> (int, Option<Seq<u8>>) {
    if s.len() == 0 {
        (0, None)
    } else {
        (s.last().action.seq + 1, Some(s.last().action.hash))
    }
}

/// `r` can stand right behind the records of `s`.
pub open spec fn fits(s: Seq<RecordModel>, r: RecordModel) -> bool {
    r.action.seq == expected_link(s).0 && r.action.prev_action == expected_link(s).1
}

/// The text of the failure for an item that brings an encrypted entry though
/// its action declares none.
pub open spec fn unexpected_entry_text() -> Seq<char> {
    "Unexpected encrypted entry provided with action in payload"@
}

/// The text of the failure for an item whose action declares an entry though
/// the item brings none.
pub open spec fn missing_entry_text() -> Seq<char> {
    "Missing encrypted entry for action in payload"@
}

/// The record that one batch item becomes, or the failure it ends in: an
/// item whose bytes were no signed action is a bad request, one on which the
/// decoder broke down an internal error, and one whose entry does not match
/// what its action declares a bad request again.
pub open spec fn stage_item(p: PayloadModel) -> Result<RecordModel, ErrorModel> {
    match p.signed_action {
        DecodingModel::Malformed(text) => Err(ErrorModel::BadRequest(text)),
        DecodingModel::Failed(text) => Err(ErrorModel::InternalError(text)),
        DecodingModel::Decoded(action) => {
            if p.encrypted_entry.is_some() && action.entry_hash.is_none() {
                Err(ErrorModel::BadRequest(unexpected_entry_text()))
            } else if p.encrypted_entry.is_none() && action.entry_hash.is_some() {
                Err(ErrorModel::BadRequest(missing_entry_text()))
            } else {
                Ok(RecordModel { action, encrypted_entry: p.encrypted_entry })
            }
        },
    }
}

/// The records that a batch becomes, in order, or the failure of the first
/// item that fails.
pub open spec fn stage(batch: Seq<PayloadModel>) -> Result<Seq<RecordModel>, ErrorModel>
    decreases batch.len(),
{
    if batch.len() == 0 {
        Ok(Seq::empty())
    } else {
        match stage(batch.drop_last()) {
            Err(e) => Err(e),
            Ok(records) => match stage_item(batch.last()) {
                Err(e) => Err(e),
                Ok(r) => Ok(records.push(r)),
            },
        }
    }
}

/// Walks `staged` behind `chain`. The result is none when every staged
/// record fits behind what stands before it, and otherwise the link that was
/// expected at the first record that does not fit.
pub open spec fn link_check(chain: Seq<RecordModel>, staged: Seq<RecordModel>) -> Option<
    (int, Option<Seq<u8>>),
>
    decreases staged.len(),
{
    if staged.len() == 0 {
        None
    } else if !fits(chain, staged.first()) {
        Some(expected_link(chain))
    } else {
        link_check(chain.push(staged.first()), staged.drop_first())
    }
}

/// What appending `batch` to `chain` gives: the extended chain, or the
/// failure. An empty batch changes nothing. Otherwise every item is staged
/// first, so a broken item is reported before any broken link.
pub open spec fn append_result(chain: Seq<RecordModel>, batch: Seq<PayloadModel>) -> Result<
    Seq<RecordModel>,
    ErrorModel,
> {
    if batch.len() == 0 {
        Ok(chain)
    } else {
        match stage(batch) {
            Err(e) => Err(e),
            Ok(staged) => match link_check(chain, staged) {
                Some(expected) => Err(ErrorModel::InvalidChain(expected.0, expected.1)),
                None => Ok(chain + staged),
            },
        }
    }
}

/// `k` is the place of the first record of `chain` whose action hash is
/// `hash`.
pub open spec fn first_at(chain: Seq<RecordModel>, hash: Seq<u8>, k: int) -> bool {
    &&& 0 <= k < chain.len()
    &&& chain[k].action.hash == hash
    &&& forall|j: int| 0 <= j < k ==> (#[trigger] chain[j]).action.hash != hash
}

/// What a read of `chain` gives. An empty chain has nothing to read. Without
/// an anchor the read gives every record; with one it gives the records
/// behind the first record whose action hash is the anchor, and nothing if
/// no record has that hash.
pub open spec fn records_since(chain: Seq<RecordModel>, since: Option<Seq<u8>>) -> Option<
    Seq<RecordModel>,
> {
    if chain.len() == 0 {
        None
    } else {
        match since {
            None => Some(chain),
            Some(hash) => {
                if exists|k: int| first_at(chain, hash, k) {
                    let k = choose|k: int| first_at(chain, hash, k);
                    Some(chain.subrange(k + 1, chain.len() as int))
                } else {
                    None
                }
            },
        }
    }
}

/// The text of the failure of a read that finds no chain or no anchor.
pub open spec fn not_found_text() -> Seq<char> {
    "Hash was not found in the CHC"@
}

/// Turns one batch item into the record to store, or into its failure.
pub fn stage_payload(p: AddRecordPayload) -> (r: Result<RecordItem, ChcServiceError>)
    ensures
        match stage_item(p@) {
            Ok(record) => r matches Ok(item) && item@ == record,
            Err(e) => r matches Err(err) && err@ == e,
        },
{
    match p.signed_action {
        ActionDecoding::Malformed(text) => Err(ChcServiceError::BadRequest(text)),
        ActionDecoding::Failed(text) => Err(ChcServiceError::InternalError(text)),
        ActionDecoding::Decoded(action) => {
            if p.encrypted_entry.is_some() && action.entry_hash.is_none() {
                Err(
                    ChcServiceError::BadRequest(
                        "Unexpected encrypted entry provided with action in payload".to_string(),
                    ),
                )
            } else if p.encrypted_entry.is_none() && action.entry_hash.is_some() {
                Err(
                    ChcServiceError::BadRequest(
                        "Missing encrypted entry for action in payload".to_string(),
                    ),
                )
            } else {
                Ok(RecordItem { action, encrypted_entry: p.encrypted_entry })
            }
        },
    }
}

/// Turns a batch into the records to store, in order, or into the failure of
/// its first item that fails.
pub fn stage_batch(batch: Vec<AddRecordPayload>) -> (r: Result<Vec<RecordItem>, ChcServiceError>)
    ensures
        match stage(payload_models(batch@)) {
            Ok(records) => r matches Ok(items) && record_models(items@) == records,
            Err(e) => r matches Err(err) && err@ == e,
        },
{
    let ghost all = payload_models(batch@);
    let mut staged: Vec<RecordItem> = Vec::new();
    proof {
        assert(all.subrange(0, 0) =~= Seq::<PayloadModel>::empty());
        assert(record_models(staged@) =~= Seq::<RecordModel>::empty());
    }
    for p in it: batch
        invariant
            all == payload_models(it.seq()),
            stage(all.subrange(0, it.index() as int)) == Ok::<Seq<RecordModel>, ErrorModel>(
                record_models(staged@),
            ),
    {
        let ghost k = it.index() as int;
        proof {
            assert(all.subrange(0, k + 1).drop_last() =~= all.subrange(0, k));
            assert(all.subrange(0, k + 1).last() == p@);
        }
        match stage_payload(p) {
            Err(e) => {
                proof {
                    lemma_stage_fails_on(all, k + 1);
                }
                return Err(e);
            },
            Ok(item) => {
                let ghost before = record_models(staged@);
                staged.push(item);
                assert(record_models(staged@) =~= before.push(item@));
            },
        }
    }
    proof {
        assert(all.subrange(0, all.len() as int) =~= all);
    }
    Ok(staged)
}

/// A batch fails as its prefix of length `n` fails.
pub proof fn lemma_stage_fails_on(batch: Seq<PayloadModel>, n: int)
    requires
        0 <= n <= batch.len(),
        stage(batch.subrange(0, n)) is Err,
    ensures
        stage(batch) == stage(batch.subrange(0, n)),
    decreases batch.len() - n,
{
    if n == batch.len() {
        assert(batch.subrange(0, n) =~= batch);
    } else {
        assert(batch.subrange(0, n + 1).drop_last() =~= batch.subrange(0, n));
        lemma_stage_fails_on(batch, n + 1);
    }
}


/// The hash and sequence number of the last record of a chain, if it has
/// one.
pub open spec fn head_of(s: Seq<RecordModel>) -> Option<(Seq<u8>, int)> {
    if s.len() == 0 {
        None
    } else {
        Some((s.last().action.hash, s.last().action.seq))
    }
}

/// The state of one chain: its records in the order in which they were
/// accepted, and the hash and sequence number of the last of them.
#[derive(Debug)]
pub struct CellState {
    records: Vec<RecordItem>,
    latest_action_hash: Option<Vec<u8>>,
    latest_action_seq: u32,
}

impl View for CellState {
    type V = Seq<RecordModel>;

    closed spec fn view(&self) -> Seq<RecordModel> {
        record_models(self.records@)
    }
}

impl Default for CellState {
    /// A chain without records.
    fn default() -> (r: CellState)
        ensures
            r.wf(),
            r@ == Seq::<RecordModel>::empty(),
    {
        CellState::new()
    }
}

impl CellState {
    /// The head that the state keeps beside its records.
    spec fn cached_head(&self) -> Option<(Seq<u8>, int)> {
        match self.latest_action_hash {
            Some(hash) => Some((hash@, self.latest_action_seq as int)),
            None => None,
        }
    }

    /// The state is valid: its records form a chain, each of them is well
    /// formed, and the head kept beside them is that of the last record, or
    /// absent when there is none.
    #[verifier::type_invariant]
    pub closed spec fn wf(&self) -> bool {
        &&& linked(self@)
        &&& all_well_formed(self@)
        &&& self.cached_head() == head_of(self@)
    }

    /// A chain without records.
    pub fn new() -> (r: CellState)
        ensures
            r.wf(),
            r@ == Seq::<RecordModel>::empty(),
    {
        let r = CellState { records: Vec::new(), latest_action_hash: None, latest_action_seq: 0 };
        assert(r@ =~= Seq::<RecordModel>::empty());
        r
    }

    /// The number of records.
    pub fn len(&self) -> (r: usize)
        ensures
            r == self@.len(),
    {
        self.records.len()
    }

    /// Whether the chain has no record.
    pub fn is_empty(&self) -> (r: bool)
        ensures
            r == (self@.len() == 0),
    {
        self.records.len() == 0
    }

    /// The hash and sequence number of the last record, if there is one.
    pub fn head(&self) -> (r: Option<(Vec<u8>, u32)>)
        ensures
            match r {
                Some(h) => head_of(self@) == Some((h.0@, h.1 as int)),
                None => head_of(self@).is_none(),
            },
    {
        proof {
            use_type_invariant(self);
        }
        match &self.latest_action_hash {
            Some(hash) => Some((copy_bytes(hash), self.latest_action_seq)),
            None => None,
        }
    }

    /// The sequence number and previous-action hash that the next record
    /// must have.
    pub fn expected_next(&self) -> (r: (u64, Option<Vec<u8>>))
        ensures
            (r.0 as int, opt_bytes(r.1)) == expected_link(self@),
    {
        proof {
            use_type_invariant(self);
        }
        match &self.latest_action_hash {
            Some(hash) => (self.latest_action_seq as u64 + 1, Some(copy_bytes(hash))),
            None => (0, None),
        }
    }

    /// Walks `staged` behind the chain. The result is none when every staged
    /// record fits behind what stands before it, and otherwise the link that
    /// was expected at the first one that does not.
    pub fn check_links(&self, staged: &Vec<RecordItem>) -> (r: Option<(u64, Option<Vec<u8>>)>)
        ensures
            match link_check(self@, record_models(staged@)) {
                Some(expected) => r matches Some(e) && (e.0 as int, opt_bytes(e.1)) == expected,
                None => r.is_none(),
            },
    {
        proof {
            use_type_invariant(self);
        }
        let ghost chain = self@;
        let ghost all = record_models(staged@);
        let mut want_seq: u64 = 0;
        let mut want_prev: Option<&Vec<u8>> = None;
        match &self.latest_action_hash {
            Some(hash) => {
                want_seq = self.latest_action_seq as u64 + 1;
                want_prev = Some(hash);
            },
            None => {},
        }
        let mut i: usize = 0;
        proof {
            assert(chain + all.subrange(0, 0) =~= chain);
            assert(all.subrange(0, all.len() as int) =~= all);
        }
        while i < staged.len()
            invariant
                i <= staged.len(),
                chain == self@,
                all == record_models(staged@),
                want_seq <= u32::MAX as u64 + 1,
                (want_seq as int, opt_ref_bytes(want_prev)) == expected_link(
                    chain + all.subrange(0, i as int),
                ),
                link_check(chain, all) == link_check(
                    chain + all.subrange(0, i as int),
                    all.subrange(i as int, all.len() as int),
                ),
            decreases staged.len() - i,
        {
            let item = &staged[i];
            let ghost before = chain + all.subrange(0, i as int);
            let ghost rest = all.subrange(i as int, all.len() as int);
            proof {
                assert(rest.first() == item@);
                assert(before.push(item@) =~= chain + all.subrange(0, i + 1));
                assert(rest.drop_first() =~= all.subrange(i + 1, all.len() as int));
            }
            let same_prev = match (&item.action.prev_action, want_prev) {
                (None, None) => true,
                (Some(a), Some(b)) => bytes_eq(a, b),
                _ => false,
            };
            assert(same_prev == (item@.action.prev_action == opt_ref_bytes(want_prev)));
            if item.action.seq as u64 != want_seq || !same_prev {
                let prev = match want_prev {
                    Some(hash) => Some(copy_bytes(hash)),
                    None => None,
                };
                assert(!fits(before, rest.first()));
                assert(opt_bytes(prev) == opt_ref_bytes(want_prev));
                return Some((want_seq, prev));
            }
            assert(fits(before, rest.first()));
            want_seq = item.action.seq as u64 + 1;
            want_prev = Some(&item.action.hash);
            i += 1;
        }
        None
    }

    /// Appends a batch, or refuses it and leaves the chain as it was.
    ///
    /// An empty batch is accepted and changes nothing. Otherwise each item
    /// must have been decoded and must bring an encrypted entry exactly if
    /// its action declares one; the first item that does not gives the
    /// failure. Then the first record must follow the head of the chain, or
    /// be a genesis record if the chain is empty, and each later one must
    /// follow the one before it; the first that does not gives
    /// `InvalidChain` with the link that was expected there.
    pub fn append(&mut self, batch: Vec<AddRecordPayload>) -> (r: Result<(), ChcServiceError>)
        ensures
            final(self).wf(),
            match append_result(old(self)@, payload_models(batch@)) {
                Ok(chain) => r.is_ok() && final(self)@ == chain,
                Err(e) => r matches Err(err) && err@ == e && *final(self) == *old(self),
            },
    {
        proof {
            use_type_invariant(&*self);
        }
        if batch.len() == 0 {
            return Ok(());
        }
        let ghost items = payload_models(batch@);
        let mut staged = match stage_batch(batch) {
            Ok(staged) => staged,
            Err(e) => {
                return Err(e);
            },
        };
        match self.check_links(&staged) {
            Some(expected) => {
                return Err(ChcServiceError::InvalidChain(expected.0, expected.1));
            },
            None => {},
        }
        let ghost chain = self@;
        let ghost added = record_models(staged@);
        proof {
            lemma_stage_len(items);
            lemma_stage_well_formed(items);
            lemma_link_check_extends(chain, added);
        }
        let last = &staged[staged.len() - 1];
        let hash = copy_bytes(&last.action.hash);
        let seq: u32 = last.action.seq;
        assert((chain + added).last() == last@);
        let mut taken = CellState::new();
        std::mem::swap(self, &mut taken);
        let mut records = taken.records;
        records.append(&mut staged);
        assert(record_models(records@) =~= chain + added);
        *self = CellState { records, latest_action_hash: Some(hash), latest_action_seq: seq };
        Ok(())
    }

    /// Reads the chain from an anchor on.
    ///
    /// Without an anchor the result is every record in order. With one it is
    /// the records behind the first record whose action hash is the anchor;
    /// that is no record at all when the anchor is the head. An empty chain,
    /// or an anchor that no record has, is `HashNotFound`.
    pub fn records_since(&self, since: &Option<Vec<u8>>) -> (r: Result<
        Vec<RecordItem>,
        ChcServiceError,
    >)
        ensures
            match records_since(self@, opt_bytes(*since)) {
                Some(records) => r matches Ok(items) && record_models(items@) == records,
                None => r matches Err(e) && e@ == ErrorModel::HashNotFound(not_found_text()),
            },
    {
        let n: usize = self.records.len();
        if n == 0 {
            return Err(ChcServiceError::HashNotFound("Hash was not found in the CHC".to_string()));
        }
        let mut start: usize = 0;
        match since {
            None => {
                assert(self@.subrange(0, n as int) =~= self@);
                assert(records_since(self@, opt_bytes(*since)) == Some(
                    self@.subrange(0, n as int),
                ));
            },
            Some(hash) => {
                let mut k: usize = 0;
                while k < n && !bytes_eq(&self.records[k].action.hash, hash)
                    invariant
                        k <= n,
                        n == self.records@.len(),
                        forall|j: int| 0 <= j < k ==> (#[trigger] self@[j]).action.hash != hash@,
                    decreases n - k,
                {
                    k += 1;
                }
                if k == n {
                    assert(!exists|j: int| first_at(self@, hash@, j));
                    return Err(
                        ChcServiceError::HashNotFound("Hash was not found in the CHC".to_string()),
                    );
                }
                assert(first_at(self@, hash@, k as int));
                proof {
                    let chosen = choose|j: int| first_at(self@, hash@, j);
                    assert(chosen == k);
                    assert(opt_bytes(*since) == Some(hash@));
                }
                start = k + 1;
                assert(records_since(self@, opt_bytes(*since)) == Some(
                    self@.subrange(start as int, n as int),
                ));
            },
        }
        let mut out: Vec<RecordItem> = Vec::new();
        let mut i: usize = start;
        assert(record_models(out@) =~= self@.subrange(start as int, i as int));
        while i < n
            invariant
                start <= i <= n,
                n == self.records@.len(),
                record_models(out@) == self@.subrange(start as int, i as int),
            decreases n - i,
        {
            let ghost before = record_models(out@);
            out.push(self.records[i].duplicate());
            assert(record_models(out@) =~= before.push(self@[i as int]));
            assert(before.push(self@[i as int]) =~= self@.subrange(start as int, i + 1));
            i += 1;
        }
        Ok(out)
    }
}

/// What a read gives where the chain may be absent: an absent chain is read
/// as an empty one.
pub open spec fn read_of(chain: Option<Seq<RecordModel>>, since: Option<Seq<u8>>) -> Option<
    Seq<RecordModel>,
> {
    match chain {
        Some(records) => records_since(records, since),
        None => None,
    }
}

/// Reads a chain that may be absent, from an anchor on. An absent chain is
/// `HashNotFound`, as an empty one is; nothing is made for it.
pub fn read_chain(chain: Option<&CellState>, since: &Option<Vec<u8>>) -> (r: Result<
    Vec<RecordItem>,
    ChcServiceError,
>)
    ensures
        match read_of(
            match chain {
                Some(state) => Some(state@),
                None => None,
            },
            opt_bytes(*since),
        ) {
            Some(records) => r matches Ok(items) && record_models(items@) == records,
            None => r matches Err(e) && e@ == ErrorModel::HashNotFound(not_found_text()),
        },
{
    match chain {
        Some(state) => state.records_since(since),
        None => Err(ChcServiceError::HashNotFound("Hash was not found in the CHC".to_string())),
    }
}

/// The value of an optional borrowed byte string.
spec fn opt_ref_bytes(o: Option<&Vec<u8>>) -> Option<Seq<u8>> {
    match o {
        Some(v) => Some(v@),
        None => None,
    }
}

/// A batch that stages has as many records as it has items.
pub proof fn lemma_stage_len(batch: Seq<PayloadModel>)
    ensures
        stage(batch) matches Ok(records) ==> records.len() == batch.len(),
    decreases batch.len(),
{
    if batch.len() > 0 {
        lemma_stage_len(batch.drop_last());
    }
}

/// The records of a batch that stages are well formed.
pub proof fn lemma_stage_well_formed(batch: Seq<PayloadModel>)
    ensures
        stage(batch) matches Ok(records) ==> all_well_formed(records),
    decreases batch.len(),
{
    if batch.len() > 0 {
        lemma_stage_well_formed(batch.drop_last());
    }
}

/// Records that pass the walk behind a chain extend it to a chain.
pub proof fn lemma_link_check_extends(chain: Seq<RecordModel>, staged: Seq<RecordModel>)
    requires
        linked(chain),
        link_check(chain, staged).is_none(),
    ensures
        linked(chain + staged),
    decreases staged.len(),
{
    if staged.len() == 0 {
        assert(chain + staged =~= chain);
    } else {
        let next = chain.push(staged.first());
        assert(linked(next)) by {
            assert forall|i: int| 0 < i < next.len() implies links_to(
                #[trigger] next[i - 1],
                next[i],
            ) by {
                if i < chain.len() {
                    assert(links_to(chain[i - 1], chain[i]));
                }
            }
        }
        lemma_link_check_extends(next, staged.drop_first());
        assert(next + staged.drop_first() =~= chain + staged);
    }
}


/// The sequence number of the head of a chain, or -1 for an empty chain.
pub open spec fn head_seq(s: Seq<RecordModel>) -> int {
    if s.len() == 0 {
        -1
    } else {
        s.last().action.seq
    }
}

/// In a chain the sequence number of each record is its place.
pub proof fn lemma_seq_is_index(s: Seq<RecordModel>, i: int)
    requires
        linked(s),
        0 <= i < s.len(),
    ensures
        s[i].action.seq == i,
    decreases i,
{
    if i > 0 {
        lemma_seq_is_index(s, i - 1);
        assert(links_to(s[i - 1], s[i]));
    }
}

/// Linkage: in a chain every record but the first names the hash of the
/// record before it as its previous action, and every record's sequence
/// number is its place.
pub proof fn law_linkage(s: Seq<RecordModel>)
    requires
        linked(s),
    ensures
        forall|i: int|
            0 < i < s.len() ==> (#[trigger] s[i]).action.prev_action == Some(
                s[i - 1].action.hash,
            ),
        forall|i: int| 0 <= i < s.len() ==> (#[trigger] s[i]).action.seq == i,
{
    assert forall|i: int| 0 < i < s.len() implies (#[trigger] s[i]).action.prev_action == Some(
        s[i - 1].action.hash,
    ) by {
        assert(links_to(s[i - 1], s[i]));
    }
    assert forall|i: int| 0 <= i < s.len() implies (#[trigger] s[i]).action.seq == i by {
        lemma_seq_is_index(s, i);
    }
}

/// A valid state holds a chain of well-formed records.
pub proof fn law_state_is_chain(state: &CellState)
    requires
        state.wf(),
    ensures
        linked(state@),
        all_well_formed(state@),
{
}

/// Monotonicity: an accepted append keeps the records that were there, adds
/// one record for each item of the batch, leaves a chain, and moves the
/// sequence number of the head forward by the length of the batch.
pub proof fn law_append_advances_head(chain: Seq<RecordModel>, batch: Seq<PayloadModel>)
    requires
        linked(chain),
        append_result(chain, batch) is Ok,
    ensures
        ({
            let after = append_result(chain, batch)->Ok_0;
            &&& linked(after)
            &&& after.len() == chain.len() + batch.len()
            &&& after.subrange(0, chain.len() as int) == chain
            &&& head_seq(after) == head_seq(chain) + batch.len()
        }),
{
    let after = append_result(chain, batch)->Ok_0;
    if batch.len() == 0 {
        assert(after.subrange(0, chain.len() as int) =~= chain);
    } else {
        let staged = stage(batch)->Ok_0;
        lemma_stage_len(batch);
        lemma_link_check_extends(chain, staged);
        assert(after.subrange(0, chain.len() as int) =~= chain);
        lemma_seq_is_index(after, after.len() - 1);
        if chain.len() > 0 {
            lemma_seq_is_index(chain, chain.len() - 1);
        }
    }
}

/// A batch whose items all decode and are well formed, but whose first
/// record does not follow the head, is refused with the link that the head
/// asks for: its sequence number plus one and its hash, or 0 and none for an
/// empty chain.
pub proof fn law_out_of_sync_reports_head(chain: Seq<RecordModel>, batch: Seq<PayloadModel>)
    requires
        stage(batch) matches Ok(staged) && staged.len() > 0 && !fits(chain, staged[0]),
    ensures
        append_result(chain, batch) == Err::<Seq<RecordModel>, ErrorModel>(
            ErrorModel::InvalidChain(expected_link(chain).0, expected_link(chain).1),
        ),
{
    lemma_stage_len(batch);
}

/// Read idempotence: a read leaves the chain as it is, and what it gives is
/// fixed by the records and the anchor; so two reads of a chain that no
/// append has touched in between give the same.
pub proof fn law_read_idempotent(first: &CellState, second: &CellState, since: Option<Seq<u8>>)
    requires
        first@ == second@,
    ensures
        records_since(first@, since) == records_since(second@, since),
{
}

/// A batch stages exactly if each of its items does, and then item by item.
pub proof fn law_stage_all(batch: Seq<PayloadModel>)
    requires
        forall|i: int| 0 <= i < batch.len() ==> stage_item(#[trigger] batch[i]) is Ok,
    ensures
        stage(batch) == Ok::<Seq<RecordModel>, ErrorModel>(
            Seq::new(batch.len(), |i: int| stage_item(batch[i])->Ok_0),
        ),
    decreases batch.len(),
{
    if batch.len() > 0 {
        let front = batch.drop_last();
        assert forall|i: int| 0 <= i < front.len() implies stage_item(#[trigger] front[i]) is Ok by {
            assert(front[i] == batch[i]);
        }
        law_stage_all(front);
        assert(stage_item(batch[batch.len() - 1]) is Ok);
        assert(Seq::new(front.len(), |i: int| stage_item(front[i])->Ok_0).push(
            stage_item(batch.last())->Ok_0,
        ) =~= Seq::new(batch.len(), |i: int| stage_item(batch[i])->Ok_0));
    } else {
        assert(Seq::new(batch.len(), |i: int| stage_item(batch[i])->Ok_0) =~= Seq::<
            RecordModel,
        >::empty());
    }
}

/// A batch with an item that fails ends in the failure of the first such
/// item.
pub proof fn law_stage_first_failure(batch: Seq<PayloadModel>, k: int)
    requires
        0 <= k < batch.len(),
        stage_item(batch[k]) is Err,
        forall|i: int| 0 <= i < k ==> stage_item(#[trigger] batch[i]) is Ok,
    ensures
        stage(batch) == Err::<Seq<RecordModel>, ErrorModel>(stage_item(batch[k])->Err_0),
{
    let upto = batch.subrange(0, k + 1);
    let front = upto.drop_last();
    assert forall|i: int| 0 <= i < front.len() implies stage_item(#[trigger] front[i]) is Ok by {
        assert(front[i] == batch[i]);
    }
    law_stage_all(front);
    assert(upto.last() == batch[k]);
    lemma_stage_fails_on(batch, k + 1);
}

/// The walk behind a chain stops at the first staged record that does not
/// fit behind the chain and the staged records before it, and reports the
/// link that was expected at that place.
pub proof fn law_link_check_first_break(
    chain: Seq<RecordModel>,
    staged: Seq<RecordModel>,
    k: int,
)
    requires
        0 <= k < staged.len(),
        !fits(chain + staged.subrange(0, k), staged[k]),
        forall|i: int|
            0 <= i < k ==> fits(chain + staged.subrange(0, i), #[trigger] staged[i]),
    ensures
        link_check(chain, staged) == Some(expected_link(chain + staged.subrange(0, k))),
    decreases k,
{
    assert(chain + staged.subrange(0, 0) =~= chain);
    if k > 0 {
        let next = chain.push(staged.first());
        let rest = staged.drop_first();
        assert(fits(chain + staged.subrange(0, 0), staged[0]));
        assert forall|i: int| 0 <= i < k - 1 implies fits(
            next + rest.subrange(0, i),
            #[trigger] rest[i],
        ) by {
            assert(next + rest.subrange(0, i) =~= chain + staged.subrange(0, i + 1));
            assert(fits(chain + staged.subrange(0, i + 1), staged[i + 1]));
        }
        assert(next + rest.subrange(0, k - 1) =~= chain + staged.subrange(0, k));
        law_link_check_first_break(next, rest, k - 1);
    }
}

/// Staged records all of which fit behind the chain and the staged records
/// before them pass the walk.
pub proof fn law_link_check_all(chain: Seq<RecordModel>, staged: Seq<RecordModel>)
    requires
        forall|i: int|
            0 <= i < staged.len() ==> fits(chain + staged.subrange(0, i), #[trigger] staged[i]),
    ensures
        link_check(chain, staged).is_none(),
    decreases staged.len(),
{
    assert(chain + staged.subrange(0, 0) =~= chain);
    if staged.len() > 0 {
        let next = chain.push(staged.first());
        let rest = staged.drop_first();
        assert(fits(chain + staged.subrange(0, 0), staged[0]));
        assert forall|i: int| 0 <= i < rest.len() implies fits(
            next + rest.subrange(0, i),
            #[trigger] rest[i],
        ) by {
            assert(next + rest.subrange(0, i) =~= chain + staged.subrange(0, i + 1));
            assert(fits(chain + staged.subrange(0, i + 1), staged[i + 1]));
        }
        law_link_check_all(next, rest);
    }
}

/// Suffix law: a read from an anchor gives exactly the records behind the
/// first record whose action hash is the anchor.
pub proof fn law_read_is_suffix(chain: Seq<RecordModel>, hash: Seq<u8>) -> (k: int)
    requires
        records_since(chain, Some(hash)) is Some,
    ensures
        first_at(chain, hash, k),
        records_since(chain, Some(hash)) == Some(chain.subrange(k + 1, chain.len() as int)),
{
    choose|k: int| first_at(chain, hash, k)
}

/// In a chain, what a read from an anchor gives is empty or starts with the
/// record that names the anchor as its previous action, and goes on without
/// a gap up to the head.
pub proof fn law_read_follows_anchor(chain: Seq<RecordModel>, hash: Seq<u8>)
    requires
        linked(chain),
        records_since(chain, Some(hash)) is Some,
    ensures
        ({
            let suffix = records_since(chain, Some(hash))->Some_0;
            &&& suffix.len() > 0 ==> suffix[0].action.prev_action == Some(hash)
            &&& suffix.len() > 0 ==> suffix.last() == chain.last()
            &&& forall|j: int|
                0 <= j < suffix.len() ==> (#[trigger] suffix[j]).action.seq == chain.len()
                    - suffix.len() + j
        }),
{
    let k = law_read_is_suffix(chain, hash);
    let suffix = chain.subrange(k + 1, chain.len() as int);
    if suffix.len() > 0 {
        assert(links_to(chain[k + 1 - 1], chain[k + 1]));
    }
    assert forall|j: int| 0 <= j < suffix.len() implies (#[trigger] suffix[j]).action.seq
        == chain.len() - suffix.len() + j by {
        lemma_seq_is_index(chain, k + 1 + j);
    }
}

} // verus!
