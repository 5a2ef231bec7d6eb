//! A bounded in-memory store for captured assets.
//!
//! Memory is reserved before a payload is received and is accounted for until the published asset
//! is released. Nothing is ever spilled to disk: what does not fit is refused.
use crate::text::{blank, is_blank, same_text};
use std::sync::Arc;
use vstd::prelude::*;

verus! {

/// Budgets of a store, in bytes.
#[derive(Clone, Copy, Debug, PartialEq, Eq, Structural)]
pub struct CaptureStoreLimits {
    pub per_operation_bytes: usize,
    pub global_bytes: usize,
}

impl CaptureStoreLimits {
    /// Whether the budgets are non-zero and one operation's does not exceed the whole.
    pub open spec fn usable(self) -> bool {
        0 < self.per_operation_bytes <= self.global_bytes
    }

    pub fn new(per_operation_bytes: usize, global_bytes: usize) -> (r: Result<
        CaptureStoreLimits,
        CaptureStoreError,
    >)
        ensures
            match r {
                Ok(limits) => limits == (CaptureStoreLimits { per_operation_bytes, global_bytes })
                    && limits.usable(),
                Err(CaptureStoreError::ZeroBudget) => per_operation_bytes == 0 || global_bytes
                    == 0,
                Err(
                    CaptureStoreError::PerOperationLimitExceedsGlobal {
                        per_operation_bytes: p,
                        global_bytes: g,
                    },
                ) => p == per_operation_bytes && g == global_bytes && p > g > 0,
                Err(_) => false,
            },
    {
        if per_operation_bytes == 0 || global_bytes == 0 {
            return Err(CaptureStoreError::ZeroBudget);
        }
        if per_operation_bytes > global_bytes {
            return Err(
                CaptureStoreError::PerOperationLimitExceedsGlobal {
                    per_operation_bytes,
                    global_bytes,
                },
            );
        }
        Ok(CaptureStoreLimits { per_operation_bytes, global_bytes })
    }
}

/// The ledger of a store.
#[derive(Clone, Copy, Debug, PartialEq, Eq, Structural)]
pub struct CaptureStoreStats {
    pub reserved_bytes: usize,
    pub published_bytes: usize,
    pub reservation_count: usize,
    pub asset_count: usize,
}

impl Default for CaptureStoreStats {
    fn default() -> (r: Self)
        ensures
            r == (CaptureStoreStats {
                reserved_bytes: 0,
                published_bytes: 0,
                reservation_count: 0,
                asset_count: 0,
            }),
    {
        CaptureStoreStats {
            reserved_bytes: 0,
            published_bytes: 0,
            reservation_count: 0,
            asset_count: 0,
        }
    }
}

/// The operation that memory is reserved for.
#[derive(Debug, PartialEq, Eq)]
pub struct OperationId {
    pub value: String,
}

/// The name of a published asset.
#[derive(Debug, PartialEq, Eq)]
pub struct AssetId {
    pub value: String,
}

impl Clone for OperationId {
    fn clone(&self) -> (r: Self)
        ensures
            r == *self,
    {
        OperationId { value: self.value.clone() }
    }
}

impl Clone for AssetId {
    fn clone(&self) -> (r: Self)
        ensures
            r == *self,
    {
        AssetId { value: self.value.clone() }
    }
}

impl OperationId {
    pub fn new(value: &str) -> (r: Option<OperationId>)
        ensures
            match r {
                Some(id) => !blank(value@) && id.value@ == value@,
                None => blank(value@),
            },
    {
        if is_blank(value) {
            None
        } else {
            Some(OperationId { value: value.to_owned() })
        }
    }
}

impl AssetId {
    pub fn new(value: &str) -> (r: Option<AssetId>)
        ensures
            match r {
                Some(id) => !blank(value@) && id.value@ == value@,
                None => blank(value@),
            },
    {
        if is_blank(value) {
            None
        } else {
            Some(AssetId { value: value.to_owned() })
        }
    }
}

/// Whether the content of an asset was checked on the way in.
#[derive(Debug)]
pub enum IntegrityState {
    Verified { algorithm: String, digest: String },
    Unverified,
}

impl IntegrityState {
    pub fn is_verified(&self) -> (r: bool)
        ensures
            r == (*self is Verified),
    {
        match self {
            IntegrityState::Verified { .. } => true,
            IntegrityState::Unverified => false,
        }
    }
}

/// A captured payload with its name.
#[derive(Debug)]
pub struct EphemeralAsset {
    pub id: AssetId,
    pub payload: Vec<u8>,
    pub source_name: String,
    pub integrity: IntegrityState,
}

impl EphemeralAsset {
    pub fn byte_len(&self) -> (r: usize)
        ensures
            r == self.payload@.len(),
    {
        self.payload.len()
    }
}

/// Errors of the store.
#[derive(Debug, PartialEq, Eq)]
pub enum CaptureStoreError {
    ZeroBudget,
    PerOperationLimitExceedsGlobal { per_operation_bytes: usize, global_bytes: usize },
    EmptyReservation,
    BudgetArithmeticOverflow,
    PerOperationBudgetExceeded { limit: usize, requested: usize },
    GlobalBudgetExceeded { limit: usize, requested: usize },
    ReservationIdExhausted,
    ForeignReservation,
    IntegrityNotVerified,
    PayloadExceedsReservation { reserved: usize, actual: usize },
    ReservationAlreadyConsumed,
    ReservationLedgerMismatch,
    DuplicateAsset(AssetId),
    UnknownAsset(AssetId),
    AssetInUse { id: AssetId, external_references: usize },
}

/// One reservation in the ledger.
#[derive(Debug)]
struct ReservationRecord {
    reservation_id: u64,
    operation_id: OperationId,
    bytes: usize,
}

/// A reservation in the ledger by its values.
pub struct RecordView {
    pub reservation_id: u64,
    pub operation: Seq<char>,
    pub bytes: usize,
}

/// The right to publish up to a number of bytes.
#[derive(Debug)]
pub struct AssetReservation {
    store_id: u64,
    reservation_id: u64,
    operation_id: OperationId,
    reserved_bytes: usize,
}

/// A reservation by its values.
pub struct ReservationView {
    pub store_id: u64,
    pub reservation_id: u64,
    pub operation: Seq<char>,
    pub bytes: usize,
}

impl View for AssetReservation {
    type V = ReservationView;

    closed spec fn view(&self) -> ReservationView {
        ReservationView {
            store_id: self.store_id,
            reservation_id: self.reservation_id,
            operation: self.operation_id.value@,
            bytes: self.reserved_bytes,
        }
    }
}

impl AssetReservation {
    pub fn operation_id(&self) -> (r: &OperationId)
        ensures
            r.value@ == self@.operation,
    {
        &self.operation_id
    }

    pub fn reserved_bytes(&self) -> (r: usize)
        ensures
            r == self@.bytes,
    {
        self.reserved_bytes
    }
}

/// A bounded store of captured assets.
pub struct CaptureStore {
    store_id: u64,
    limits: CaptureStoreLimits,
    next_reservation_id: u64,
    wrapped: Ghost<bool>,
    reserved_bytes: usize,
    published_bytes: usize,
    reservations: Vec<ReservationRecord>,
    assets: Vec<Arc<EphemeralAsset>>,
}

/// A store by its values. `wrapped` tells whether the identity counter has run through its range.
#[verifier::ext_equal]
pub struct StoreState {
    pub store_id: u64,
    pub limits: CaptureStoreLimits,
    pub next_id: u64,
    pub wrapped: bool,
    pub records: Seq<RecordView>,
    pub assets: Seq<Arc<EphemeralAsset>>,
}

spec fn record_view(record: ReservationRecord) -> RecordView {
    RecordView {
        reservation_id: record.reservation_id,
        operation: record.operation_id.value@,
        bytes: record.bytes,
    }
}

spec fn record_views(records: Seq<ReservationRecord>) -> Seq<RecordView> {
    records.map_values(|record: ReservationRecord| record_view(record))
}

impl View for CaptureStore {
    type V = StoreState;

    closed spec fn view(&self) -> StoreState {
        StoreState {
            store_id: self.store_id,
            limits: self.limits,
            next_id: self.next_reservation_id,
            wrapped: self.wrapped@,
            records: record_views(self.reservations@),
            assets: self.assets@,
        }
    }
}

/// The bytes of some reservations.
pub open spec fn reserved_total(records: Seq<RecordView>) -> nat
    decreases records.len(),
{
    if records.len() == 0 {
        0
    } else {
        reserved_total(records.drop_last()) + records.last().bytes as nat
    }
}

/// The bytes of the reservations of one operation.
pub open spec fn operation_total(records: Seq<RecordView>, operation: Seq<char>) -> nat
    decreases records.len(),
{
    if records.len() == 0 {
        0
    } else {
        operation_total(records.drop_last(), operation) + if records.last().operation == operation {
            records.last().bytes as nat
        } else {
            0nat
        }
    }
}

/// The bytes of some assets.
pub open spec fn published_total(assets: Seq<Arc<EphemeralAsset>>) -> nat
    decreases assets.len(),
{
    if assets.len() == 0 {
        0
    } else {
        published_total(assets.drop_last()) + assets.last().payload@.len()
    }
}

/// The reservation with the given identity.
pub open spec fn record_index(records: Seq<RecordView>, id: u64) -> Option<int>
    decreases records.len(),
{
    if records.len() == 0 {
        None
    } else {
        match record_index(records.drop_last(), id) {
            Some(i) => Some(i),
            None => if records.last().reservation_id == id {
                Some(records.len() - 1)
            } else {
                None
            },
        }
    }
}

/// The asset with the given name.
pub open spec fn asset_index(assets: Seq<Arc<EphemeralAsset>>, id: Seq<char>) -> Option<int>
    decreases assets.len(),
{
    if assets.len() == 0 {
        None
    } else {
        match asset_index(assets.drop_last(), id) {
            Some(i) => Some(i),
            None => if assets.last().id.value@ == id {
                Some(assets.len() - 1)
            } else {
                None
            },
        }
    }
}

impl StoreState {
    /// The budgets are kept: by every operation, and by reservations and assets together.
    pub open spec fn within_budget(self) -> bool {
        &&& reserved_total(self.records) + published_total(self.assets) <= self.limits.global_bytes
        &&& forall|operation: Seq<char>| #[trigger]
            operation_total(self.records, operation) <= self.limits.per_operation_bytes
    }

    /// What forbids a reservation, if anything does.
    pub open spec fn reserve_refusal(self, operation: Seq<char>, bytes: usize) -> Option<
        CaptureStoreError,
    > {
        let requested = operation_total(self.records, operation) + bytes;
        let accounted = reserved_total(self.records) + published_total(self.assets) + bytes;
        if bytes == 0 {
            Some(CaptureStoreError::EmptyReservation)
        } else if requested > usize::MAX {
            Some(CaptureStoreError::BudgetArithmeticOverflow)
        } else if requested > self.limits.per_operation_bytes {
            Some(
                CaptureStoreError::PerOperationBudgetExceeded {
                    limit: self.limits.per_operation_bytes,
                    requested: requested as usize,
                },
            )
        } else if accounted > usize::MAX {
            Some(CaptureStoreError::BudgetArithmeticOverflow)
        } else if accounted > self.limits.global_bytes {
            Some(
                CaptureStoreError::GlobalBudgetExceeded {
                    limit: self.limits.global_bytes,
                    requested: accounted as usize,
                },
            )
        } else if self.next_id == 0 || record_index(self.records, self.next_id) is Some {
            Some(CaptureStoreError::ReservationIdExhausted)
        } else {
            None
        }
    }

    /// The identity counter has moved on.
    pub open spec fn counted(self) -> StoreState {
        StoreState {
            next_id: following(self.next_id),
            wrapped: self.wrapped || self.next_id == u64::MAX,
            ..self
        }
    }

    /// A reservation was refused. The identity counter moves on once the budgets allow the
    /// reservation, even when the identity turns out to be unusable.
    pub open spec fn refused(self, operation: Seq<char>, bytes: usize) -> StoreState {
        match self.reserve_refusal(operation, bytes) {
            Some(CaptureStoreError::ReservationIdExhausted) => self.counted(),
            _ => self,
        }
    }

    /// A reservation was entered.
    pub open spec fn reserved(self, operation: Seq<char>, bytes: usize) -> StoreState {
        StoreState {
            records: self.records.push(
                RecordView { reservation_id: self.next_id, operation, bytes },
            ),
            ..self.counted()
        }
    }

    /// No reservation has the identity zero. Until the identity counter wraps, every reservation is
    /// older than the next one.
    pub open spec fn numbered(self) -> bool {
        &&& self.wrapped || self.next_id > 0
        &&& forall|i: int|
            0 <= i < self.records.len() ==> {
                &&& 0 < (#[trigger] self.records[i]).reservation_id
                &&& self.wrapped || self.records[i].reservation_id < self.next_id
            }
    }

    /// A reservation was given back; one that is not in the ledger changes nothing.
    pub open spec fn rolled_back(self, id: u64) -> StoreState {
        match record_index(self.records, id) {
            Some(i) => StoreState { records: self.records.remove(i), ..self },
            None => self,
        }
    }
}

/// The identity after `id`.
pub open spec fn following(id: u64) -> u64 {
    if id == u64::MAX {
        0
    } else {
        (id + 1) as u64
    }
}

proof fn lemma_record_index(records: Seq<RecordView>, id: u64)
    ensures
        match record_index(records, id) {
            Some(i) => 0 <= i < records.len() && records[i].reservation_id == id && forall|j: int|
                0 <= j < i ==> (#[trigger] records[j]).reservation_id != id,
            None => forall|j: int|
                0 <= j < records.len() ==> (#[trigger] records[j]).reservation_id != id,
        },
    decreases records.len(),
{
    if records.len() > 0 {
        let init = records.drop_last();
        lemma_record_index(init, id);
        assert forall|j: int| 0 <= j < init.len() implies init[j] == records[j] by {}
        match record_index(init, id) {
            Some(i) => {
                assert(init[i] == records[i]);
                assert forall|j: int| 0 <= j < i implies (#[trigger] records[j]).reservation_id
                    != id by {
                    assert(init[j] == records[j]);
                }
            },
            None => {
                assert forall|j: int|
                    0 <= j < records.len() - 1 implies (#[trigger] records[j]).reservation_id
                    != id by {
                    assert(init[j] == records[j]);
                }
            },
        }
    }
}

proof fn lemma_asset_index(assets: Seq<Arc<EphemeralAsset>>, id: Seq<char>)
    ensures
        match asset_index(assets, id) {
            Some(i) => 0 <= i < assets.len() && assets[i].id.value@ == id && forall|j: int|
                0 <= j < i ==> (#[trigger] assets[j]).id.value@ != id,
            None => forall|j: int| 0 <= j < assets.len() ==> (#[trigger] assets[j]).id.value@ != id,
        },
    decreases assets.len(),
{
    if assets.len() > 0 {
        let init = assets.drop_last();
        lemma_asset_index(init, id);
        match asset_index(init, id) {
            Some(i) => {
                assert(init[i] == assets[i]);
                assert forall|j: int| 0 <= j < i implies (#[trigger] assets[j]).id.value@ != id by {
                    assert(init[j] == assets[j]);
                }
            },
            None => {
                assert forall|j: int| 0 <= j < assets.len() - 1 implies (#[trigger] assets[j]).id.value@
                    != id by {
                    assert(init[j] == assets[j]);
                }
            },
        }
    }
}

proof fn lemma_reserved_total_remove(records: Seq<RecordView>, i: int)
    requires
        0 <= i < records.len(),
    ensures
        reserved_total(records.remove(i)) == reserved_total(records) - records[i].bytes,
        forall|operation: Seq<char>| #[trigger]
            operation_total(records.remove(i), operation) == operation_total(records, operation) - (
            if records[i].operation == operation {
                records[i].bytes as int
            } else {
                0int
            }),
    decreases records.len(),
{
    let rest = records.remove(i);
    if i == records.len() - 1 {
        assert(rest =~= records.drop_last());
    } else {
        assert(rest.drop_last() =~= records.drop_last().remove(i));
        assert(rest.last() == records.last());
        assert(records.drop_last()[i] == records[i]);
        lemma_reserved_total_remove(records.drop_last(), i);
        assert forall|operation: Seq<char>| #[trigger] operation_total(rest, operation)
            == operation_total(records, operation) - (if records[i].operation == operation {
            records[i].bytes as int
        } else {
            0int
        }) by {
            assert(operation_total(records.drop_last().remove(i), operation) == operation_total(
                records.drop_last(),
                operation,
            ) - (if records[i].operation == operation {
                records[i].bytes as int
            } else {
                0int
            }));
        }
    }
}

proof fn lemma_published_total_remove(assets: Seq<Arc<EphemeralAsset>>, i: int)
    requires
        0 <= i < assets.len(),
    ensures
        published_total(assets.remove(i)) == published_total(assets) - assets[i].payload@.len(),
    decreases assets.len(),
{
    let rest = assets.remove(i);
    if i == assets.len() - 1 {
        assert(rest =~= assets.drop_last());
    } else {
        assert(rest.drop_last() =~= assets.drop_last().remove(i));
        assert(rest.last() == assets.last());
        assert(assets.drop_last()[i] == assets[i]);
        lemma_published_total_remove(assets.drop_last(), i);
    }
}

proof fn lemma_operation_total_bound(records: Seq<RecordView>, operation: Seq<char>)
    ensures
        operation_total(records, operation) <= reserved_total(records),
    decreases records.len(),
{
    if records.len() > 0 {
        lemma_operation_total_bound(records.drop_last(), operation);
    }
}

/// Distinct identities: no reservation identity and no asset name occurs twice.
pub open spec fn distinct_entries(state: StoreState) -> bool {
    &&& forall|i: int, j: int|
        0 <= i < j < state.records.len() ==> (#[trigger] state.records[i]).reservation_id != (
        #[trigger] state.records[j]).reservation_id
    &&& forall|i: int, j: int|
        0 <= i < j < state.assets.len() ==> (#[trigger] state.assets[i]).id.value@ != (
        #[trigger] state.assets[j]).id.value@
}

/// `Arc::clone`: another handle on the same value.
#[verifier::external_body]
pub(crate) fn share<T>(value: &Arc<T>) -> (r: Arc<T>)
    ensures
        r == *value,
{
    Arc::clone(value)
}

/// `Arc::strong_count`: the number of handles on a value, the given one included. It depends on
/// what the rest of the program holds on to.
#[verifier::external_body]
fn handle_count(value: &Arc<EphemeralAsset>) -> (r: usize)
    ensures
        r >= 1,
{
    Arc::strong_count(value)
}

impl CaptureStore {
    /// The ledger agrees with its entries, the entries are distinct and the budgets are kept.
    pub closed spec fn wf(&self) -> bool {
        &&& self.reserved_bytes == reserved_total(self@.records)
        &&& self.published_bytes == published_total(self@.assets)
        &&& self@.within_budget()
        &&& distinct_entries(self@)
        &&& self@.numbered()
    }

    /// A well-formed store keeps its budgets, holds no entry twice and numbers its reservations in
    /// order.
    pub proof fn lemma_wf(&self)
        requires
            self.wf(),
        ensures
            self@.within_budget(),
            distinct_entries(self@),
            self@.numbered(),
    {
    }

    /// An empty store. `store_id` tells the reservations of several stores apart.
    pub fn new(store_id: u64, limits: CaptureStoreLimits) -> (r: CaptureStore)
        ensures
            r.wf(),
            r@ == (StoreState {
                store_id,
                limits,
                next_id: 1,
                wrapped: false,
                records: Seq::empty(),
                assets: Seq::empty(),
            }),
    {
        let r: CaptureStore = CaptureStore {
            store_id,
            limits,
            next_reservation_id: 1,
            wrapped: Ghost(false),
            reserved_bytes: 0,
            published_bytes: 0,
            reservations: Vec::new(),
            assets: Vec::new(),
        };
        proof {
            assert(r@.records =~= Seq::<RecordView>::empty());
        }
        r
    }

    pub fn limits(&self) -> (r: CaptureStoreLimits)
        ensures
            r == self@.limits,
    {
        self.limits
    }

    /// The bytes that an operation has reserved.
    fn operation_reserved(&self, operation_id: &OperationId) -> (r: usize)
        requires
            self.wf(),
        ensures
            r == operation_total(self@.records, operation_id.value@),
    {
        let mut total: usize = 0;
        let mut i: usize = 0;
        let ghost records = self@.records;
        proof {
            assert(records.take(0) =~= Seq::<RecordView>::empty());
        }
        while i < self.reservations.len()
            invariant
                i <= self.reservations@.len() == records.len(),
                records == self@.records,
                self.wf(),
                total == operation_total(records.take(i as int), operation_id.value@),
            decreases self.reservations@.len() - i,
        {
            proof {
                let next = records.take(i + 1);
                assert(next.drop_last() =~= records.take(i as int));
                assert(next.last() == record_view(self.reservations@[i as int]));
                lemma_operation_total_prefix(records, i + 1, operation_id.value@);
                lemma_operation_total_bound(records, operation_id.value@);
            }
            if same_text(
                self.reservations[i].operation_id.value.as_str(),
                operation_id.value.as_str(),
            ) {
                total = total + self.reservations[i].bytes;
            }
            i = i + 1;
        }
        proof {
            assert(records.take(i as int) =~= records);
        }
        total
    }

    fn find_record(&self, id: u64) -> (r: Option<usize>)
        ensures
            match r {
                Some(i) => record_index(self@.records, id) == Some(i as int) && i
                    < self.reservations@.len(),
                None => record_index(self@.records, id) is None,
            },
    {
        let ghost records = self@.records;
        let mut i: usize = 0;
        while i < self.reservations.len()
            invariant
                i <= self.reservations@.len() == records.len(),
                records == self@.records,
                forall|j: int| 0 <= j < i ==> (#[trigger] records[j]).reservation_id != id,
            decreases self.reservations@.len() - i,
        {
            proof {
                assert(records[i as int] == record_view(self.reservations@[i as int]));
            }
            if self.reservations[i].reservation_id == id {
                proof {
                    lemma_record_index(records, id);
                }
                return Some(i);
            }
            i = i + 1;
        }
        proof {
            lemma_record_index(records, id);
        }
        None
    }

    fn find_asset(&self, id: &AssetId) -> (r: Option<usize>)
        ensures
            match r {
                Some(i) => asset_index(self@.assets, id.value@) == Some(i as int) && i
                    < self.assets@.len(),
                None => asset_index(self@.assets, id.value@) is None,
            },
    {
        let mut i: usize = 0;
        while i < self.assets.len()
            invariant
                i <= self.assets@.len(),
                forall|j: int| 0 <= j < i ==> (#[trigger] self.assets@[j]).id.value@ != id.value@,
            decreases self.assets@.len() - i,
        {
            if same_text(self.assets[i].id.value.as_str(), id.value.as_str()) {
                proof {
                    lemma_asset_index(self.assets@, id.value@);
                    assert(self.assets@[i as int].id.value@ == id.value@);
                }
                return Some(i);
            }
            i = i + 1;
        }
        proof {
            lemma_asset_index(self.assets@, id.value@);
        }
        None
    }

    /// Reserves memory for an operation, within its own budget and within the store's.
    pub fn reserve(&mut self, operation_id: OperationId, declared_len: usize) -> (r: Result<
        AssetReservation,
        CaptureStoreError,
    >)
        requires
            old(self).wf(),
        ensures
            final(self).wf(),
            match old(self)@.reserve_refusal(operation_id.value@, declared_len) {
                Some(e) => r == Err::<AssetReservation, CaptureStoreError>(e) && final(self)@
                    == old(self)@.refused(operation_id.value@, declared_len),
                None => {
                    &&& r is Ok
                    &&& r->Ok_0@ == (ReservationView {
                        store_id: old(self)@.store_id,
                        reservation_id: old(self)@.next_id,
                        operation: operation_id.value@,
                        bytes: declared_len,
                    })
                    &&& final(self)@ == old(self)@.reserved(operation_id.value@, declared_len)
                },
            },
    {
        if declared_len == 0 {
            return Err(CaptureStoreError::EmptyReservation);
        }
        let operation_requested: usize = match self.operation_reserved(&operation_id).checked_add(
            declared_len,
        ) {
            Some(n) => n,
            None => {
                return Err(CaptureStoreError::BudgetArithmeticOverflow);
            },
        };
        if operation_requested > self.limits.per_operation_bytes {
            return Err(
                CaptureStoreError::PerOperationBudgetExceeded {
                    limit: self.limits.per_operation_bytes,
                    requested: operation_requested,
                },
            );
        }
        let held: usize = self.reserved_bytes + self.published_bytes;
        let accounted: usize = match held.checked_add(declared_len) {
            Some(n) => n,
            None => {
                return Err(CaptureStoreError::BudgetArithmeticOverflow);
            },
        };
        if accounted > self.limits.global_bytes {
            return Err(
                CaptureStoreError::GlobalBudgetExceeded {
                    limit: self.limits.global_bytes,
                    requested: accounted,
                },
            );
        }
        let reservation_id: u64 = self.next_reservation_id;
        let taken: bool = self.find_record(reservation_id).is_some();
        proof {
            lemma_record_index(self@.records, reservation_id);
        }
        let ghost wrapped: bool = self.wrapped@ || reservation_id == u64::MAX;
        self.wrapped = Ghost(wrapped);
        self.next_reservation_id = if reservation_id == u64::MAX {
            0
        } else {
            reservation_id + 1
        };
        if reservation_id == 0 || taken {
            return Err(CaptureStoreError::ReservationIdExhausted);
        }
        let ghost before = self@;
        self.reserved_bytes = self.reserved_bytes + declared_len;
        let operation: OperationId = operation_id.clone();
        self.reservations.push(
            ReservationRecord { reservation_id, operation_id: operation, bytes: declared_len },
        );
        proof {
            let added = RecordView {
                reservation_id,
                operation: operation_id.value@,
                bytes: declared_len,
            };
            assert(self@.records =~= before.records.push(added));
            assert(self@.records.drop_last() =~= before.records);
            lemma_record_index(before.records, reservation_id);
            assert forall|name: Seq<char>| #[trigger] operation_total(self@.records, name)
                <= self.limits.per_operation_bytes by {
                assert(operation_total(before.records, name) <= self.limits.per_operation_bytes);
            }
            assert forall|i: int, j: int| 0 <= i < j < self@.records.len() implies (
            #[trigger] self@.records[i]).reservation_id != (
            #[trigger] self@.records[j]).reservation_id by {
                assert(self@.records[i] == before.records[i]);
                if j < before.records.len() {
                    assert(self@.records[j] == before.records[j]);
                }
            }
        }
        Ok(
            AssetReservation {
                store_id: self.store_id,
                reservation_id,
                operation_id,
                reserved_bytes: declared_len,
            },
        )
    }

    /// Takes a record out of the ledger.
    fn take_record(&mut self, index: usize)
        requires
            old(self).wf(),
            index < old(self)@.records.len(),
        ensures
            final(self).wf(),
            final(self)@ == (StoreState {
                records: old(self)@.records.remove(index as int),
                ..old(self)@
            }),
    {
        let ghost before = self@;
        let bytes: usize = self.reservations[index].bytes;
        proof {
            lemma_reserved_total_remove(before.records, index as int);
            assert(before.records[index as int].bytes == bytes);
        }
        self.reserved_bytes = self.reserved_bytes - bytes;
        let _record: ReservationRecord = self.reservations.remove(index);
        proof {
            let rest = before.records.remove(index as int);
            assert(self@.records =~= rest);
            assert forall|name: Seq<char>| #[trigger] operation_total(rest, name)
                <= self.limits.per_operation_bytes by {
                assert(operation_total(before.records, name) <= self.limits.per_operation_bytes);
            }
        }
    }

    /// Gives a reservation back. One that was consumed, or is another store's, changes nothing.
    pub fn roll_back(&mut self, reservation: &AssetReservation)
        requires
            old(self).wf(),
        ensures
            final(self).wf(),
            final(self)@ == (if reservation@.store_id == old(self)@.store_id {
                old(self)@.rolled_back(reservation@.reservation_id)
            } else {
                old(self)@
            }),
    {
        if reservation.store_id != self.store_id {
            return;
        }
        match self.find_record(reservation.reservation_id) {
            Some(i) => self.take_record(i),
            None => {},
        }
    }

    /// Publishes a checked payload under a reservation, which is used up by it; what the payload
    /// does not need goes back to the budget. A refused payload gives its reservation back, unless
    /// the reservation is another store's.
    pub fn publish_validated(&mut self, reservation: &AssetReservation, asset: EphemeralAsset) -> (r:
        Result<Arc<EphemeralAsset>, CaptureStoreError>)
        requires
            old(self).wf(),
        ensures
            final(self).wf(),
            publish_answered(old(self)@, final(self)@, reservation@, asset, r),
    {
        if reservation.store_id != self.store_id {
            return Err(CaptureStoreError::ForeignReservation);
        }
        if !asset.integrity.is_verified() {
            self.roll_back(reservation);
            return Err(CaptureStoreError::IntegrityNotVerified);
        }
        let payload_bytes: usize = asset.byte_len();
        if payload_bytes > reservation.reserved_bytes {
            self.roll_back(reservation);
            return Err(
                CaptureStoreError::PayloadExceedsReservation {
                    reserved: reservation.reserved_bytes,
                    actual: payload_bytes,
                },
            );
        }
        if self.find_asset(&asset.id).is_some() {
            self.roll_back(reservation);
            return Err(CaptureStoreError::DuplicateAsset(asset.id));
        }
        let index: usize = match self.find_record(reservation.reservation_id) {
            Some(i) => i,
            None => {
                return Err(CaptureStoreError::ReservationAlreadyConsumed);
            },
        };
        proof {
            lemma_record_index(self@.records, reservation.reservation_id);
            assert(self@.records[index as int] == record_view(self.reservations@[index as int]));
        }
        if !same_text(
            self.reservations[index].operation_id.value.as_str(),
            reservation.operation_id.value.as_str(),
        ) || self.reservations[index].bytes != reservation.reserved_bytes {
            self.roll_back(reservation);
            return Err(CaptureStoreError::ReservationLedgerMismatch);
        }
        let ghost before = self@;
        proof {
            lemma_reserved_total_remove(before.records, index as int);
        }
        self.take_record(index);
        self.published_bytes = self.published_bytes + payload_bytes;
        let shared: Arc<EphemeralAsset> = Arc::new(asset);
        let handle: Arc<EphemeralAsset> = share(&shared);
        self.assets.push(shared);
        proof {
            assert(self@.assets.drop_last() =~= before.assets);
            lemma_asset_index(before.assets, asset.id.value@);
            assert forall|i: int, j: int| 0 <= i < j < self@.assets.len() implies (
            #[trigger] self@.assets[i]).id.value@ != (#[trigger] self@.assets[j]).id.value@ by {
                assert(self@.assets[i] == before.assets[i]);
                if j < before.assets.len() {
                    assert(self@.assets[j] == before.assets[j]);
                }
            }
        }
        Ok(handle)
    }

    /// A handle on a published asset.
    pub fn get(&self, id: &AssetId) -> (r: Option<Arc<EphemeralAsset>>)
        ensures
            r == (match asset_index(self@.assets, id.value@) {
                Some(i) => Some(self@.assets[i]),
                None => None,
            }),
    {
        match self.find_asset(id) {
            Some(i) => Some(share(&self.assets[i])),
            None => None,
        }
    }

    /// Releases a published asset that nobody else holds on to.
    pub fn release(&mut self, id: &AssetId) -> (r: Result<(), CaptureStoreError>)
        requires
            old(self).wf(),
        ensures
            final(self).wf(),
            exists|handles: usize| #[trigger]
                release_answered(old(self)@, final(self)@, id.value@, handles, r),
    {
        let handles: usize = match self.find_asset(id) {
            Some(i) => handle_count(&self.assets[i]),
            None => 1,
        };
        self.release_counted(id, handles)
    }

    /// Releases a published asset on which there are `handles` handles, the store's own included.
    pub fn release_counted(&mut self, id: &AssetId, handles: usize) -> (r: Result<
        (),
        CaptureStoreError,
    >)
        requires
            old(self).wf(),
            handles >= 1,
        ensures
            final(self).wf(),
            release_answered(old(self)@, final(self)@, id.value@, handles, r),
    {
        let index: usize = match self.find_asset(id) {
            Some(i) => i,
            None => {
                return Err(CaptureStoreError::UnknownAsset(id.clone()));
            },
        };
        if handles != 1 {
            return Err(
                CaptureStoreError::AssetInUse {
                    id: id.clone(),
                    external_references: handles - 1,
                },
            );
        }
        let payload_bytes: usize = self.assets[index].byte_len();
        let ghost before = self@;
        proof {
            lemma_published_total_remove(before.assets, index as int);
        }
        let _removed: Arc<EphemeralAsset> = self.assets.remove(index);
        self.published_bytes = self.published_bytes - payload_bytes;
        Ok(())
    }

    /// The ledger.
    pub fn stats(&self) -> (r: CaptureStoreStats)
        requires
            self.wf(),
        ensures
            r.reserved_bytes == reserved_total(self@.records),
            r.published_bytes == published_total(self@.assets),
            r.reservation_count == self@.records.len(),
            r.asset_count == self@.assets.len(),
    {
        CaptureStoreStats {
            reserved_bytes: self.reserved_bytes,
            published_bytes: self.published_bytes,
            reservation_count: self.reservations.len(),
            asset_count: self.assets.len(),
        }
    }
}

proof fn lemma_operation_total_prefix(records: Seq<RecordView>, k: int, operation: Seq<char>)
    requires
        0 <= k <= records.len(),
    ensures
        operation_total(records.take(k), operation) <= operation_total(records, operation),
    decreases records.len() - k,
{
    if k == records.len() {
        assert(records.take(k) =~= records);
    } else {
        lemma_operation_total_prefix(records, k + 1, operation);
        assert(records.take(k + 1).drop_last() =~= records.take(k));
    }
}

/// How a publication is answered and what it changes.
pub open spec fn publish_answered(
    before: StoreState,
    after: StoreState,
    reservation: ReservationView,
    asset: EphemeralAsset,
    r: Result<Arc<EphemeralAsset>, CaptureStoreError>,
) -> bool {
    let record = record_index(before.records, reservation.reservation_id);
    if reservation.store_id != before.store_id {
        r == Err::<Arc<EphemeralAsset>, CaptureStoreError>(CaptureStoreError::ForeignReservation)
            && after == before
    } else if !(asset.integrity is Verified) {
        r == Err::<Arc<EphemeralAsset>, CaptureStoreError>(CaptureStoreError::IntegrityNotVerified)
            && after == before.rolled_back(reservation.reservation_id)
    } else if asset.payload@.len() > reservation.bytes {
        r == Err::<Arc<EphemeralAsset>, CaptureStoreError>(
            CaptureStoreError::PayloadExceedsReservation {
                reserved: reservation.bytes,
                actual: asset.payload@.len() as usize,
            },
        ) && after == before.rolled_back(reservation.reservation_id)
    } else if asset_index(before.assets, asset.id.value@) is Some {
        r == Err::<Arc<EphemeralAsset>, CaptureStoreError>(
            CaptureStoreError::DuplicateAsset(asset.id),
        ) && after == before.rolled_back(reservation.reservation_id)
    } else if record is None {
        r == Err::<Arc<EphemeralAsset>, CaptureStoreError>(
            CaptureStoreError::ReservationAlreadyConsumed,
        ) && after == before
    } else if before.records[record->Some_0].operation != reservation.operation
        || before.records[record->Some_0].bytes != reservation.bytes {
        r == Err::<Arc<EphemeralAsset>, CaptureStoreError>(
            CaptureStoreError::ReservationLedgerMismatch,
        ) && after == before.rolled_back(reservation.reservation_id)
    } else {
        r is Ok && *r->Ok_0 == asset && after == (StoreState {
            assets: before.assets.push(r->Ok_0),
            ..before.rolled_back(reservation.reservation_id)
        })
    }
}

/// How a release is answered and what it changes, given the number of handles on the asset.
pub open spec fn release_answered(
    before: StoreState,
    after: StoreState,
    id: Seq<char>,
    handles: usize,
    r: Result<(), CaptureStoreError>,
) -> bool {
    match asset_index(before.assets, id) {
        None => r is Err && r->Err_0 is UnknownAsset && r->Err_0->UnknownAsset_0.value@ == id
            && after == before,
        Some(i) => if handles != 1 {
            r is Err && r->Err_0 is AssetInUse && r->Err_0->AssetInUse_id.value@ == id
                && r->Err_0->external_references == handles - 1 && after == before
        } else {
            r is Ok && after == (StoreState { assets: before.assets.remove(i), ..before })
        },
    }
}

/// A reservation that is given back leaves the ledger as it was: only the identity is used up.
pub proof fn law_reserve_then_roll_back(state: StoreState, operation: Seq<char>, bytes: usize)
    requires
        state.reserve_refusal(operation, bytes) is None,
    ensures
        state.reserved(operation, bytes).rolled_back(state.next_id) == state.counted(),
{
    let held = state.reserved(operation, bytes);
    assert(held.records.drop_last() =~= state.records);
    assert(record_index(held.records, state.next_id) == Some(state.records.len() as int));
    assert(held.records.remove(state.records.len() as int) =~= state.records);
}

/// What was given back can be reserved again: once its identity is used up, nothing but the next
/// identity can forbid the same reservation, and that one is free unless the identity counter has
/// wrapped.
pub proof fn law_given_back_can_be_reserved_again(
    state: StoreState,
    operation: Seq<char>,
    bytes: usize,
)
    requires
        state.numbered(),
        state.reserve_refusal(operation, bytes) is None,
    ensures
        state.counted().numbered(),
        state.counted().reserve_refusal(operation, bytes) == (if following(state.next_id) == 0
            || record_index(state.records, following(state.next_id)) is Some {
            Some(CaptureStoreError::ReservationIdExhausted)
        } else {
            None
        }),
        !state.counted().wrapped ==> state.counted().reserve_refusal(operation, bytes) is None,
{
    lemma_record_index(state.records, following(state.next_id));
}

/// A refused publication gives its reservation back: the ledger and the assets are as before the
/// reservation, and the same reservation can be made again unless the identity counter has wrapped.
pub proof fn law_refused_publication_restores_the_store(
    state: StoreState,
    after: StoreState,
    operation: Seq<char>,
    bytes: usize,
    asset: EphemeralAsset,
    r: Result<Arc<EphemeralAsset>, CaptureStoreError>,
)
    requires
        state.numbered(),
        state.reserve_refusal(operation, bytes) is None,
        publish_answered(
            state.reserved(operation, bytes),
            after,
            ReservationView {
                store_id: state.store_id,
                reservation_id: state.next_id,
                operation,
                bytes,
            },
            asset,
            r,
        ),
        r is Err,
    ensures
        after == state.counted(),
        after.records == state.records,
        after.assets == state.assets,
        !after.wrapped ==> after.reserve_refusal(operation, bytes) is None,
{
    let held = state.reserved(operation, bytes);
    law_reserve_then_roll_back(state, operation, bytes);
    law_given_back_can_be_reserved_again(state, operation, bytes);
    assert(held.records.drop_last() =~= state.records);
    assert(record_index(held.records, state.next_id) == Some(state.records.len() as int));
}

/// Reserving within the budgets keeps the budgets.
pub proof fn law_reserving_keeps_budgets(state: StoreState, operation: Seq<char>, bytes: usize)
    requires
        state.within_budget(),
        state.reserve_refusal(operation, bytes) is None,
    ensures
        state.reserved(operation, bytes).within_budget(),
{
    let held = state.reserved(operation, bytes);
    assert(held.records.drop_last() =~= state.records);
    assert forall|name: Seq<char>| #[trigger] operation_total(held.records, name)
        <= held.limits.per_operation_bytes by {
        assert(operation_total(state.records, name) <= state.limits.per_operation_bytes);
    }
}

/// Publishing moves bytes from the reserved to the published side and never needs more than was
/// reserved.
pub proof fn law_publishing_keeps_budgets(
    before: StoreState,
    after: StoreState,
    reservation: ReservationView,
    asset: EphemeralAsset,
    r: Result<Arc<EphemeralAsset>, CaptureStoreError>,
)
    requires
        before.within_budget(),
        publish_answered(before, after, reservation, asset, r),
    ensures
        after.within_budget(),
        reserved_total(after.records) + published_total(after.assets) <= reserved_total(
            before.records,
        ) + published_total(before.assets),
{
    lemma_record_index(before.records, reservation.reservation_id);
    match record_index(before.records, reservation.reservation_id) {
        Some(i) => {
            lemma_reserved_total_remove(before.records, i);
            let rest = before.records.remove(i);
            assert forall|name: Seq<char>| #[trigger] operation_total(rest, name)
                <= before.limits.per_operation_bytes by {
                assert(operation_total(before.records, name) <= before.limits.per_operation_bytes);
            }
        },
        None => {},
    }
    if r is Ok {
        assert(after.assets.drop_last() =~= before.assets);
    }
}

/// A published asset that is released returns its bytes: the published total is as before the
/// publication.
pub proof fn law_publish_then_release(
    before: StoreState,
    published: StoreState,
    released: StoreState,
    reservation: ReservationView,
    asset: EphemeralAsset,
    r: Result<Arc<EphemeralAsset>, CaptureStoreError>,
    s: Result<(), CaptureStoreError>,
)
    requires
        publish_answered(before, published, reservation, asset, r),
        r is Ok,
        release_answered(published, released, asset.id.value@, 1, s),
    ensures
        s is Ok,
        released.assets == before.assets,
        released.records == published.records,
{
    lemma_asset_index(before.assets, asset.id.value@);
    lemma_asset_index(published.assets, asset.id.value@);
    assert(published.assets.drop_last() =~= before.assets);
    assert(asset_index(published.assets, asset.id.value@) == Some(before.assets.len() as int));
    assert(published.assets.remove(before.assets.len() as int) =~= before.assets);
}

} // verus!
