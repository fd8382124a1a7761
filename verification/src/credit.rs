//! The credit ledger: minting batches of serial-numbered carbon credits,
//! permanently retiring them, and the time-locked pause governance.
//!
//! Every serial number belongs to at most one batch, a batch never retires
//! more credits than it was minted with, and a retirement hands out the next
//! contiguous slice of the batch's serial range.
use vstd::hash_map::StringHashMap;
use vstd::prelude::*;

use crate::timelock::{Timelock, TimelockRefusal, TimelockState};

verus! {

/// Errors returned by the credit ledger.
#[derive(Clone, Copy, Debug, PartialEq, Eq, Structural, PartialOrd, Ord)]
pub enum CarbonError {
    ProjectNotFound,
    ProjectNotVerified,
    ProjectSuspended,
    InsufficientCredits,
    AlreadyRetired,
    SerialNumberConflict,
    UnauthorizedVerifier,
    UnauthorizedOracle,
    InvalidVintageYear,
    ListingNotFound,
    InsufficientLiquidity,
    PriceNotSet,
    MonitoringDataStale,
    DoubleCountingDetected,
    RetirementIrreversible,
    ZeroAmountNotAllowed,
    ProjectAlreadyExists,
    InvalidSerialRange,
    AlreadyInitialized,
    ReentrancyGuard,
}

impl CarbonError {
    /// The numeric code of the error on the ledger.
    pub open spec fn spec_code(self) -> u32 {
        match self {
            CarbonError::ProjectNotFound => 1,
            CarbonError::ProjectNotVerified => 2,
            CarbonError::ProjectSuspended => 3,
            CarbonError::InsufficientCredits => 4,
            CarbonError::AlreadyRetired => 5,
            CarbonError::SerialNumberConflict => 6,
            CarbonError::UnauthorizedVerifier => 7,
            CarbonError::UnauthorizedOracle => 8,
            CarbonError::InvalidVintageYear => 9,
            CarbonError::ListingNotFound => 10,
            CarbonError::InsufficientLiquidity => 11,
            CarbonError::PriceNotSet => 12,
            CarbonError::MonitoringDataStale => 13,
            CarbonError::DoubleCountingDetected => 14,
            CarbonError::RetirementIrreversible => 15,
            CarbonError::ZeroAmountNotAllowed => 16,
            CarbonError::ProjectAlreadyExists => 17,
            CarbonError::InvalidSerialRange => 18,
            CarbonError::AlreadyInitialized => 19,
            CarbonError::ReentrancyGuard => 20,
        }
    }

    /// The numeric code of the error on the ledger.
    pub fn code(&self) -> (c: u32)
        ensures
            c == self.spec_code(),
    {
        match self {
            CarbonError::ProjectNotFound => 1,
            CarbonError::ProjectNotVerified => 2,
            CarbonError::ProjectSuspended => 3,
            CarbonError::InsufficientCredits => 4,
            CarbonError::AlreadyRetired => 5,
            CarbonError::SerialNumberConflict => 6,
            CarbonError::UnauthorizedVerifier => 7,
            CarbonError::UnauthorizedOracle => 8,
            CarbonError::InvalidVintageYear => 9,
            CarbonError::ListingNotFound => 10,
            CarbonError::InsufficientLiquidity => 11,
            CarbonError::PriceNotSet => 12,
            CarbonError::MonitoringDataStale => 13,
            CarbonError::DoubleCountingDetected => 14,
            CarbonError::RetirementIrreversible => 15,
            CarbonError::ZeroAmountNotAllowed => 16,
            CarbonError::ProjectAlreadyExists => 17,
            CarbonError::InvalidSerialRange => 18,
            CarbonError::AlreadyInitialized => 19,
            CarbonError::ReentrancyGuard => 20,
        }
    }
}

/// Lifecycle status of a credit batch.
#[derive(Clone, Copy, Debug, PartialEq, Eq, Structural)]
pub enum CreditStatus {
    Active,
    PartiallyRetired,
    FullyRetired,
    Suspended,
}

/// A batch of credits minted for one project and vintage, numbered
/// `serial_start..=serial_end`.
#[derive(Clone, Debug)]
pub struct CreditBatch {
    pub batch_id: String,
    pub project_id: String,
    pub vintage_year: u32,
    pub amount: i128,
    pub serial_start: u64,
    pub serial_end: u64,
    pub issued_at: u64,
    pub status: CreditStatus,
    pub metadata_cid: String,
}

impl CreditBatch {
    /// A field-by-field copy of the batch.
    pub fn snapshot(&self) -> (r: CreditBatch)
        ensures
            r == *self,
    {
        CreditBatch {
            batch_id: self.batch_id.clone(),
            project_id: self.project_id.clone(),
            vintage_year: self.vintage_year,
            amount: self.amount,
            serial_start: self.serial_start,
            serial_end: self.serial_end,
            issued_at: self.issued_at,
            status: self.status,
            metadata_cid: self.metadata_cid.clone(),
        }
    }
}

/// Permanent record of a retirement, listing every serial number retired.
#[derive(Clone, Debug)]
pub struct RetirementCertificate {
    pub retirement_id: String,
    pub credit_batch_id: String,
    pub project_id: String,
    pub amount: i128,
    pub retired_by: String,
    pub beneficiary: String,
    pub retirement_reason: String,
    pub vintage_year: u32,
    pub serial_numbers: Vec<u64>,
    pub retired_at: u64,
    pub tx_hash: String,
}

/// Abstract content of a [`RetirementCertificate`].
pub struct CertificateView {
    pub retirement_id: String,
    pub credit_batch_id: String,
    pub project_id: String,
    pub amount: i128,
    pub retired_by: String,
    pub beneficiary: String,
    pub retirement_reason: String,
    pub vintage_year: u32,
    pub serial_numbers: Seq<u64>,
    pub retired_at: u64,
    pub tx_hash: String,
}

impl View for RetirementCertificate {
    type V = CertificateView;

    open spec fn view(&self) -> CertificateView {
        CertificateView {
            retirement_id: self.retirement_id,
            credit_batch_id: self.credit_batch_id,
            project_id: self.project_id,
            amount: self.amount,
            retired_by: self.retired_by,
            beneficiary: self.beneficiary,
            retirement_reason: self.retirement_reason,
            vintage_year: self.vintage_year,
            serial_numbers: self.serial_numbers@,
            retired_at: self.retired_at,
            tx_hash: self.tx_hash,
        }
    }
}

/// Why a certificate is malformed, if it is: the first of its invariants
/// that fails.
pub open spec fn certificate_error(c: CertificateView) -> Option<CarbonError> {
    if c.retirement_id@.len() == 0 || c.credit_batch_id@.len() == 0 || c.project_id@.len() == 0
        || c.tx_hash@.len() == 0 {
        Some(CarbonError::ProjectNotFound)
    } else if c.amount <= 0 {
        Some(CarbonError::ZeroAmountNotAllowed)
    } else if c.serial_numbers.len() == 0 || c.serial_numbers.len() != c.amount {
        Some(CarbonError::InvalidSerialRange)
    } else {
        None
    }
}

/// Certificate `c` belongs to batch `k` and names serial number `n`.
pub open spec fn cert_names(c: CertificateView, k: Seq<char>, n: int) -> bool {
    c.credit_batch_id@ == k && c.serial_numbers[0] <= n < c.serial_numbers[0] + c.amount
}

/// Some certificate among `retirements` belongs to batch `k` and names
/// serial number `n`.
pub open spec fn covered(retirements: Map<Seq<char>, CertificateView>, k: Seq<char>, n: int) -> bool {
    exists|r: Seq<char>| #[trigger] retirements.contains_key(r) && cert_names(retirements[r], k, n)
}

/// Credits of batch `k` retired by the certificates filed under `ids`.
pub open spec fn certified(retirements: Map<Seq<char>, CertificateView>, ids: Seq<Seq<char>>, k: Seq<char>) -> int
    decreases ids.len(),
{
    if ids.len() == 0 {
        0
    } else {
        let c = retirements[ids.last()];
        certified(retirements, ids.drop_last(), k) + if c.credit_batch_id@ == k {
            c.amount as int
        } else {
            0
        }
    }
}

/// The serial spans of two certificates do not meet.
pub open spec fn certs_apart(c1: CertificateView, c2: CertificateView) -> bool {
    c1.serial_numbers[0] + c1.amount <= c2.serial_numbers[0] || c2.serial_numbers[0] + c2.amount <= c1.serial_numbers[0]
}

/// An inclusive range of serial numbers claimed by one batch.
#[derive(Clone, Copy, Debug, PartialEq, Eq, Structural)]
pub struct SerialRange {
    pub start: u64,
    pub end: u64,
}

/// Governance operations of the credit ledger subject to the time-lock.
#[derive(Clone, Copy, Debug, PartialEq, Eq, Structural)]
pub enum GovAction {
    PauseContract,
    /// Part of the ledger's governance vocabulary, but no operation queues
    /// it: nothing lifts an executed pause.
    UnpauseContract,
    ChangeTimelockDelay,
}

/// A pending governance operation of the credit ledger.
pub type PendingOp = crate::timelock::PendingOp<GovAction>;

pub use crate::timelock::ContestRecord;

/// Events the credit ledger publishes, in the order they happened.
#[derive(Clone, Debug)]
pub enum CreditEvent {
    Minted {
        batch_id: String,
        project_id: String,
        amount: i128,
        vintage_year: u32,
        serial_start: u64,
        serial_end: u64,
    },
    Retired {
        retirement_id: String,
        batch_id: String,
        project_id: String,
        amount: i128,
        holder: String,
        beneficiary: String,
    },
    Transferred { batch_id: String, from: String, to: String, amount: i128 },
    PauseQueued { op_id: String, admin: String, reason: String },
    Paused { op_id: String, admin: String },
    Contested { op_id: String, contestant: String, reason: String },
    RolledBack { op_id: String, admin: String },
}

/// Whether the inclusive ranges `r` and `start..=end` share a serial number.
pub open spec fn ranges_overlap(r: SerialRange, start: u64, end: u64) -> bool {
    start <= r.end && end >= r.start
}

/// Whether `start..=end` holds exactly `amount` serial numbers.
pub open spec fn range_holds(start: u64, end: u64, amount: i128) -> bool {
    end - start + 1 <= u64::MAX && end - start + 1 == amount
}

/// The batch `mint_credits` records.
pub open spec fn new_batch(
    now: u64,
    project_id: String,
    amount: i128,
    vintage_year: u32,
    batch_id: String,
    serial_start: u64,
    serial_end: u64,
    metadata_cid: String,
) -> CreditBatch {
    CreditBatch {
        batch_id,
        project_id,
        vintage_year,
        amount,
        serial_start,
        serial_end,
        issued_at: now,
        status: CreditStatus::Active,
        metadata_cid,
    }
}

/// Why a batch record is malformed, if it is: the first of its invariants
/// that fails.
pub open spec fn batch_error(b: CreditBatch) -> Option<CarbonError> {
    if b.batch_id@.len() == 0 {
        Some(CarbonError::SerialNumberConflict)
    } else if b.project_id@.len() == 0 || b.metadata_cid@.len() == 0 {
        Some(CarbonError::ProjectNotFound)
    } else if b.amount <= 0 {
        Some(CarbonError::ZeroAmountNotAllowed)
    } else if b.vintage_year < 2000 || b.vintage_year > 2100 {
        Some(CarbonError::InvalidVintageYear)
    } else if b.serial_end < b.serial_start || !range_holds(b.serial_start, b.serial_end, b.amount) {
        Some(CarbonError::InvalidSerialRange)
    } else {
        None
    }
}

/// Status of a batch of `amount` credits of which `retired` are retired.
pub open spec fn status_for(amount: i128, retired: i128) -> CreditStatus {
    if retired == 0 {
        CreditStatus::Active
    } else if retired == amount {
        CreditStatus::FullyRetired
    } else {
        CreditStatus::PartiallyRetired
    }
}

/// The `n` consecutive serial numbers starting at `start`.
pub open spec fn serial_span(start: u64, n: nat) -> Seq<u64> {
    Seq::new(n, |i: int| (start + i) as u64)
}

/// The batches among `ids` that belong to project `pid`, in the order of `ids`.
pub open spec fn credits_of(batches: Map<Seq<char>, CreditBatch>, ids: Seq<String>, pid: Seq<char>) -> Seq<CreditBatch>
    decreases ids.len(),
{
    if ids.len() == 0 {
        Seq::empty()
    } else {
        let rest = credits_of(batches, ids.drop_last(), pid);
        let b = batches[ids.last()@];
        if b.project_id@ == pid {
            rest.push(b)
        } else {
            rest
        }
    }
}

/// Maps a time-lock refusal to the error the credit ledger reports.
pub open spec fn refusal_error(r: TimelockRefusal) -> CarbonError {
    match r {
        TimelockRefusal::OpNotFound => CarbonError::ProjectNotFound,
        TimelockRefusal::Contested => CarbonError::RetirementIrreversible,
        TimelockRefusal::TooEarly => CarbonError::RetirementIrreversible,
        TimelockRefusal::WindowClosed => CarbonError::AlreadyRetired,
    }
}

fn to_error(r: TimelockRefusal) -> (e: CarbonError)
    ensures
        e == refusal_error(r),
{
    match r {
        TimelockRefusal::OpNotFound => CarbonError::ProjectNotFound,
        TimelockRefusal::Contested => CarbonError::RetirementIrreversible,
        TimelockRefusal::TooEarly => CarbonError::RetirementIrreversible,
        TimelockRefusal::WindowClosed => CarbonError::AlreadyRetired,
    }
}

/// Abstract state of the credit ledger.
pub struct CreditState {
    pub admin: Option<String>,
    pub registry_contract: Option<String>,
    pub batches: Map<Seq<char>, CreditBatch>,
    /// Credits retired so far, per batch.
    pub retired: Map<Seq<char>, i128>,
    pub retirements: Map<Seq<char>, CertificateView>,
    /// Retirement ids in the order their certificates were filed.
    pub retirement_ids: Seq<Seq<char>>,
    /// Batch ids in the order they were minted.
    pub mint_order: Seq<String>,
    /// Serial ranges claimed so far, in mint order.
    pub serial_registry: Seq<SerialRange>,
    pub timelock: TimelockState<GovAction>,
    pub locked: bool,
    /// Set by an executed pause; minting, retiring and transferring are
    /// refused from then on.
    pub paused: bool,
    pub events: Seq<CreditEvent>,
}

impl CreditState {
    /// The ledger as deployed, before `initialize`.
    pub open spec fn initial() -> CreditState {
        CreditState {
            admin: None,
            registry_contract: None,
            batches: Map::empty(),
            retired: Map::empty(),
            retirements: Map::empty(),
            retirement_ids: Seq::empty(),
            mint_order: Seq::empty(),
            serial_registry: Seq::empty(),
            timelock: TimelockState::initial(),
            locked: false,
            paused: false,
            events: Seq::empty(),
        }
    }

    /// Whether `caller` is the stored admin.
    pub open spec fn is_admin(self, caller: String) -> bool {
        self.admin matches Some(a) && a@ == caller@
    }

    /// Whether `start..=end` shares no serial number with a minted batch.
    pub open spec fn serial_range_free(self, start: u64, end: u64) -> bool {
        forall|i: int| 0 <= i < self.serial_registry.len() ==> !ranges_overlap(#[trigger] self.serial_registry[i], start, end)
    }

    /// Credits of batch `k` that are neither retired nor locked by full retirement.
    pub open spec fn active_amount(self, k: Seq<char>) -> int {
        if self.batches[k].status == CreditStatus::FullyRetired {
            0
        } else {
            self.batches[k].amount - self.retired[k]
        }
    }

    /// Everything that holds of batch `k` while it is stored.
    pub open spec fn batch_ok(self, k: Seq<char>) -> bool {
        let b = self.batches[k];
        &&& b.batch_id@ == k
        &&& k.len() > 0
        &&& b.project_id@.len() > 0
        &&& b.metadata_cid@.len() > 0
        &&& 2000 <= b.vintage_year <= 2100
        &&& 0 < b.amount <= u64::MAX
        &&& b.serial_start <= b.serial_end
        &&& b.serial_end - b.serial_start + 1 == b.amount
        &&& self.retired.contains_key(k)
        &&& 0 <= self.retired[k] <= b.amount
        &&& b.status == status_for(b.amount, self.retired[k])
    }

    /// The range claimed by the `i`-th minted batch.
    pub open spec fn claimed(self, i: int) -> SerialRange {
        let b = self.batches[self.mint_order[i]@];
        SerialRange { start: b.serial_start, end: b.serial_end }
    }

    /// The ledger's invariant.
    pub open spec fn wf(self) -> bool {
        &&& forall|k: Seq<char>| #[trigger] self.batches.contains_key(k) ==> self.batch_ok(k)
        &&& self.serial_registry.len() == self.mint_order.len()
        &&& forall|i: int| 0 <= i < self.mint_order.len() ==> #[trigger] self.batches.contains_key(self.mint_order[i]@)
        &&& forall|i: int| 0 <= i < self.mint_order.len() ==> #[trigger] self.serial_registry[i] == self.claimed(i)
        &&& forall|k: Seq<char>| #[trigger] self.batches.contains_key(k) ==> exists|i: int| 0 <= i < self.mint_order.len() && #[trigger] self.mint_order[i]@ == k
        &&& forall|i: int, j: int| 0 <= i < j < self.mint_order.len() ==> #[trigger] self.mint_order[i]@ != #[trigger] self.mint_order[j]@
        &&& forall|i: int, j: int| 0 <= i < j < self.serial_registry.len()
            ==> !ranges_overlap(#[trigger] self.serial_registry[i], self.serial_registry[j].start, #[trigger] self.serial_registry[j].end)
        &&& forall|r: Seq<char>| #[trigger] self.retirements.contains_key(r) ==> self.cert_ok(r)
        &&& forall|r1: Seq<char>, r2: Seq<char>|
            #![trigger self.retirements[r1], self.retirements[r2]]
            self.retirements.contains_key(r1) && self.retirements.contains_key(r2) && r1 != r2
                ==> certs_apart(self.retirements[r1], self.retirements[r2])
        &&& self.retirement_ids.no_duplicates()
        &&& forall|r: Seq<char>| #[trigger] self.retirements.contains_key(r) <==> self.retirement_ids.contains(r)
        &&& forall|k: Seq<char>| #[trigger] self.batches.contains_key(k)
            ==> certified(self.retirements, self.retirement_ids, k) == self.retired[k]
        &&& forall|k: Seq<char>, n: int|
            self.batches.contains_key(k) && self.batches[k].serial_start <= n < self.batches[k].serial_start
                + self.retired[k] ==> #[trigger] covered(self.retirements, k, n)
    }

    /// The certificate filed under `r` names consecutive serial numbers of an
    /// existing batch, all below the batch's retired frontier.
    pub open spec fn cert_ok(self, r: Seq<char>) -> bool {
        let c = self.retirements[r];
        let k = c.credit_batch_id@;
        &&& self.batches.contains_key(k)
        &&& c.amount > 0
        &&& c.serial_numbers.len() == c.amount
        &&& forall|i: int| 0 <= i < c.serial_numbers.len() ==> #[trigger] c.serial_numbers[i] == c.serial_numbers[0] + i
        &&& self.batches[k].serial_start <= c.serial_numbers[0]
        &&& c.serial_numbers[0] + c.amount <= self.batches[k].serial_start + self.retired[k]
    }

    // ── initialize ───────────────────────────────────────────────────────

    pub open spec fn initialize(self, admin: String, registry_contract: String) -> Result<CreditState, CarbonError> {
        if self.admin is Some {
            Err(CarbonError::AlreadyInitialized)
        } else {
            Ok(CreditState { admin: Some(admin), registry_contract: Some(registry_contract), ..self })
        }
    }

    // ── mint ─────────────────────────────────────────────────────────────

    /// The first check `mint_credits` fails, if any.
    pub open spec fn mint_error(
        self,
        now: u64,
        admin: String,
        project_id: String,
        amount: i128,
        vintage_year: u32,
        batch_id: String,
        serial_start: u64,
        serial_end: u64,
        metadata_cid: String,
    ) -> Option<CarbonError> {
        if self.locked {
            Some(CarbonError::ReentrancyGuard)
        } else if self.paused {
            Some(CarbonError::ProjectSuspended)
        } else if !self.is_admin(admin) {
            Some(CarbonError::UnauthorizedVerifier)
        } else if amount <= 0 {
            Some(CarbonError::ZeroAmountNotAllowed)
        } else if serial_end < serial_start {
            Some(CarbonError::InvalidSerialRange)
        } else if vintage_year < 2000 || vintage_year > 2100 {
            Some(CarbonError::InvalidVintageYear)
        } else if self.batches.contains_key(batch_id@) {
            Some(CarbonError::SerialNumberConflict)
        } else if !self.serial_range_free(serial_start, serial_end) {
            Some(CarbonError::DoubleCountingDetected)
        } else {
            batch_error(new_batch(now, project_id, amount, vintage_year, batch_id, serial_start, serial_end, metadata_cid))
        }
    }

    pub open spec fn mint_credits(
        self,
        now: u64,
        admin: String,
        project_id: String,
        amount: i128,
        vintage_year: u32,
        batch_id: String,
        serial_start: u64,
        serial_end: u64,
        metadata_cid: String,
    ) -> Result<CreditState, CarbonError> {
        match self.mint_error(now, admin, project_id, amount, vintage_year, batch_id, serial_start, serial_end, metadata_cid) {
            Some(e) => Err(e),
            None => {
                let batch = new_batch(now, project_id, amount, vintage_year, batch_id, serial_start, serial_end, metadata_cid);
                Ok(CreditState {
                    batches: self.batches.insert(batch_id@, batch),
                    retired: self.retired.insert(batch_id@, 0),
                    mint_order: self.mint_order.push(batch_id),
                    serial_registry: self.serial_registry.push(SerialRange { start: serial_start, end: serial_end }),
                    events: self.events.push(
                        CreditEvent::Minted { batch_id, project_id, amount, vintage_year, serial_start, serial_end },
                    ),
                    ..self
                })
            },
        }
    }

    // ── retire ───────────────────────────────────────────────────────────

    /// The first check `retire_credits` fails before it writes the
    /// certificate, if any.
    pub open spec fn retire_error(self, batch_id: String, amount: i128, retirement_id: String) -> Option<CarbonError> {
        let k = batch_id@;
        if self.locked {
            Some(CarbonError::ReentrancyGuard)
        } else if self.paused {
            Some(CarbonError::ProjectSuspended)
        } else if amount <= 0 {
            Some(CarbonError::ZeroAmountNotAllowed)
        } else if !self.batches.contains_key(k) {
            Some(CarbonError::ProjectNotFound)
        } else if self.batches[k].status == CreditStatus::FullyRetired {
            Some(CarbonError::AlreadyRetired)
        } else if self.batches[k].status == CreditStatus::Suspended {
            Some(CarbonError::ProjectSuspended)
        } else if amount > self.active_amount(k) {
            Some(CarbonError::InsufficientCredits)
        } else if self.retirements.contains_key(retirement_id@) {
            Some(CarbonError::AlreadyRetired)
        } else {
            None
        }
    }

    /// The certificate a successful retirement issues.
    pub open spec fn certificate(
        self,
        now: u64,
        holder: String,
        batch_id: String,
        amount: i128,
        retirement_reason: String,
        beneficiary: String,
        retirement_id: String,
        tx_hash: String,
    ) -> CertificateView {
        let b = self.batches[batch_id@];
        CertificateView {
            retirement_id,
            credit_batch_id: batch_id,
            project_id: b.project_id,
            amount,
            retired_by: holder,
            beneficiary,
            retirement_reason,
            vintage_year: b.vintage_year,
            serial_numbers: serial_span((b.serial_start + self.retired[batch_id@]) as u64, amount as nat),
            retired_at: now,
            tx_hash,
        }
    }

    pub open spec fn retire_credits(
        self,
        now: u64,
        holder: String,
        batch_id: String,
        amount: i128,
        retirement_reason: String,
        beneficiary: String,
        retirement_id: String,
        tx_hash: String,
    ) -> Result<(CreditState, CertificateView), CarbonError> {
        match self.retire_error(batch_id, amount, retirement_id) {
            Some(e) => Err(e),
            None => {
                let k = batch_id@;
                let b = self.batches[k];
                let after = (self.retired[k] + amount) as i128;
                let cert = self.certificate(
                    now,
                    holder,
                    batch_id,
                    amount,
                    retirement_reason,
                    beneficiary,
                    retirement_id,
                    tx_hash,
                );
                let status = if b.amount - after == 0 {
                    CreditStatus::FullyRetired
                } else {
                    CreditStatus::PartiallyRetired
                };
                match certificate_error(cert) {
                    Some(e) => Err(e),
                    None => Ok(
                        (
                            CreditState {
                                batches: self.batches.insert(k, CreditBatch { status, ..b }),
                                retired: self.retired.insert(k, after),
                                retirements: self.retirements.insert(retirement_id@, cert),
                                retirement_ids: self.retirement_ids.push(retirement_id@),
                                events: self.events.push(
                                    CreditEvent::Retired {
                                        retirement_id,
                                        batch_id,
                                        project_id: b.project_id,
                                        amount,
                                        holder,
                                        beneficiary,
                                    },
                                ),
                                ..self
                            },
                            cert,
                        ),
                    ),
                }
            },
        }
    }

    // ── transfer ─────────────────────────────────────────────────────────

    /// The first check `transfer_credits` fails, if any.
    pub open spec fn transfer_error(self, batch_id: String, amount: i128) -> Option<CarbonError> {
        let k = batch_id@;
        if self.locked {
            Some(CarbonError::ReentrancyGuard)
        } else if self.paused {
            Some(CarbonError::ProjectSuspended)
        } else if amount <= 0 {
            Some(CarbonError::ZeroAmountNotAllowed)
        } else if !self.batches.contains_key(k) {
            Some(CarbonError::ProjectNotFound)
        } else if self.batches[k].status == CreditStatus::FullyRetired {
            Some(CarbonError::AlreadyRetired)
        } else if self.batches[k].status == CreditStatus::Suspended {
            Some(CarbonError::ProjectSuspended)
        } else if amount > self.active_amount(k) {
            Some(CarbonError::InsufficientCredits)
        } else {
            None
        }
    }

    pub open spec fn transfer_credits(self, from: String, to: String, batch_id: String, amount: i128) -> Result<
        CreditState,
        CarbonError,
    > {
        match self.transfer_error(batch_id, amount) {
            Some(e) => Err(e),
            None => Ok(
                CreditState {
                    events: self.events.push(CreditEvent::Transferred { batch_id, from, to, amount }),
                    ..self
                },
            ),
        }
    }

    // ── queries ──────────────────────────────────────────────────────────

    pub open spec fn get_credit_batch(self, batch_id: Seq<char>) -> Result<CreditBatch, CarbonError> {
        if self.batches.contains_key(batch_id) {
            Ok(self.batches[batch_id])
        } else {
            Err(CarbonError::ProjectNotFound)
        }
    }

    pub open spec fn get_retirement_certificate(self, retirement_id: Seq<char>) -> Result<CertificateView, CarbonError> {
        if self.retirements.contains_key(retirement_id) {
            Ok(self.retirements[retirement_id])
        } else {
            Err(CarbonError::ProjectNotFound)
        }
    }

    pub open spec fn get_project_credits(self, project_id: Seq<char>) -> Seq<CreditBatch> {
        credits_of(self.batches, self.mint_order, project_id)
    }

    pub open spec fn get_pending_op(self, op_id: Seq<char>) -> Result<PendingOp, CarbonError> {
        if self.timelock.ops.contains_key(op_id) {
            Ok(self.timelock.ops[op_id])
        } else {
            Err(CarbonError::ProjectNotFound)
        }
    }

    pub open spec fn get_contest(self, op_id: Seq<char>) -> Result<ContestRecord, CarbonError> {
        if self.timelock.contests.contains_key(op_id) {
            Ok(self.timelock.contests[op_id])
        } else {
            Err(CarbonError::ProjectNotFound)
        }
    }

    // ── governance ───────────────────────────────────────────────────────

    /// The operation `propose_pause` queues; `target` is the literal "contract".
    pub open spec fn pause_op(self, now: u64, admin: String, op_id: String, reason: String, target: String) -> PendingOp {
        PendingOp {
            op_id,
            action: GovAction::PauseContract,
            target,
            initiated_by: admin,
            eta: (now + self.timelock.delay) as u64,
            payload: reason,
        }
    }

    /// Why a call by `caller` to an admin-only function is refused before any other check.
    pub open spec fn admin_gate(self, caller: String) -> Option<CarbonError> {
        if self.locked {
            Some(CarbonError::ReentrancyGuard)
        } else if !self.is_admin(caller) {
            Some(CarbonError::UnauthorizedVerifier)
        } else {
            None
        }
    }

    /// Whether `propose_pause` would compute an earliest execution time past `u64::MAX`.
    pub open spec fn pause_eta_overflows(self, now: u64, admin: String) -> bool {
        !self.locked && self.is_admin(admin) && now + self.timelock.delay > u64::MAX
    }

    pub open spec fn propose_pause(self, now: u64, admin: String, op_id: String, reason: String, target: String) -> Result<
        CreditState,
        CarbonError,
    > {
        if let Some(e) = self.admin_gate(admin) {
            Err(e)
        } else {
            Ok(
                CreditState {
                    timelock: self.timelock.with_op(self.pause_op(now, admin, op_id, reason, target)),
                    events: self.events.push(CreditEvent::PauseQueued { op_id, admin, reason }),
                    ..self
                },
            )
        }
    }

    pub open spec fn execute_pause(self, now: u64, admin: String, op_id: String) -> Result<CreditState, CarbonError> {
        if self.locked {
            Err(CarbonError::ReentrancyGuard)
        } else if !self.is_admin(admin) {
            Err(CarbonError::UnauthorizedVerifier)
        } else if let Some(r) = self.timelock.execution_refusal(op_id@, now) {
            Err(refusal_error(r))
        } else {
            Ok(
                CreditState {
                    timelock: self.timelock.without_op(op_id@),
                    paused: true,
                    events: self.events.push(CreditEvent::Paused { op_id, admin }),
                    ..self
                },
            )
        }
    }

    pub open spec fn contest_operation(self, now: u64, contestant: String, op_id: String, reason: String) -> Result<
        CreditState,
        CarbonError,
    > {
        if self.locked {
            Err(CarbonError::ReentrancyGuard)
        } else if let Some(r) = self.timelock.contest_refusal(op_id@, now) {
            Err(refusal_error(r))
        } else {
            let record = ContestRecord { op_id, contested_by: contestant, reason, contested_at: now };
            Ok(
                CreditState {
                    timelock: self.timelock.with_contest(record),
                    events: self.events.push(CreditEvent::Contested { op_id, contestant, reason }),
                    ..self
                },
            )
        }
    }

    pub open spec fn rollback_operation(self, admin: String, op_id: String) -> Result<CreditState, CarbonError> {
        if self.locked {
            Err(CarbonError::ReentrancyGuard)
        } else if !self.is_admin(admin) {
            Err(CarbonError::UnauthorizedVerifier)
        } else if !self.timelock.ops.contains_key(op_id@) {
            Err(CarbonError::ProjectNotFound)
        } else {
            Ok(
                CreditState {
                    timelock: self.timelock.cancelled(op_id@),
                    events: self.events.push(CreditEvent::RolledBack { op_id, admin }),
                    ..self
                },
            )
        }
    }

    pub open spec fn set_timelock_delay(self, admin: String, delay_secs: u64) -> Result<CreditState, CarbonError> {
        if self.locked {
            Err(CarbonError::ReentrancyGuard)
        } else if !self.is_admin(admin) {
            Err(CarbonError::UnauthorizedVerifier)
        } else if delay_secs == 0 {
            Err(CarbonError::ZeroAmountNotAllowed)
        } else {
            Ok(CreditState { timelock: self.timelock.with_delay(delay_secs), ..self })
        }
    }
}

/// A successful mint keeps the ledger's invariant.
proof fn lemma_mint_keeps_wf(
    s: CreditState,
    now: u64,
    admin: String,
    project_id: String,
    amount: i128,
    vintage_year: u32,
    batch_id: String,
    serial_start: u64,
    serial_end: u64,
    metadata_cid: String,
)
    requires
        s.wf(),
        s.mint_credits(now, admin, project_id, amount, vintage_year, batch_id, serial_start, serial_end, metadata_cid) is Ok,
    ensures
        s.mint_credits(now, admin, project_id, amount, vintage_year, batch_id, serial_start, serial_end, metadata_cid)
            .unwrap().wf(),
{
    let s1 = s.mint_credits(now, admin, project_id, amount, vintage_year, batch_id, serial_start, serial_end, metadata_cid)
        .unwrap();
    let k = batch_id@;
        assert forall|kk: Seq<char>| #[trigger] s1.batches.contains_key(kk) implies s1.batch_ok(kk) by {
            if kk != k {
                assert(s.batches.contains_key(kk));
                assert(s.batch_ok(kk));
            }
        }
        assert forall|i: int| 0 <= i < s1.mint_order.len() implies #[trigger] s1.serial_registry[i]
            == s1.claimed(i) by {
            if i < s.mint_order.len() {
                assert(s.batches.contains_key(s.mint_order[i]@));
                assert(s.serial_registry[i] == s.claimed(i));
                assert(s.mint_order[i]@ != k);
            }
        }
        assert forall|kk: Seq<char>| #[trigger] s1.batches.contains_key(kk) implies exists|i: int|
            0 <= i < s1.mint_order.len() && #[trigger] s1.mint_order[i]@ == kk by {
            if kk == k {
                assert(s1.mint_order[s.mint_order.len() as int]@ == kk);
            } else {
                assert(s.batches.contains_key(kk));
                let i = choose|i: int| 0 <= i < s.mint_order.len() && #[trigger] s.mint_order[i]@ == kk;
                assert(s1.mint_order[i]@ == kk);
            }
        }
        assert forall|i: int, j: int| 0 <= i < j < s1.mint_order.len() implies #[trigger] s1.mint_order[i]@
            != #[trigger] s1.mint_order[j]@ by {
            if j == s.mint_order.len() {
                assert(s.batches.contains_key(s.mint_order[i]@));
            }
        }
        assert forall|i: int, j: int| 0 <= i < j < s1.serial_registry.len() implies !ranges_overlap(
            #[trigger] s1.serial_registry[i],
            s1.serial_registry[j].start,
            #[trigger] s1.serial_registry[j].end,
        ) by {
            if j == s.serial_registry.len() {
                assert(!ranges_overlap(s.serial_registry[i], serial_start, serial_end));
            }
        }
        assert forall|r: Seq<char>| #[trigger] s1.retirements.contains_key(r) implies s1.cert_ok(r) by {
            assert(s.cert_ok(r));
        }
        assert forall|i: int| 0 <= i < s.retirement_ids.len() implies (#[trigger] s.retirements[
            s.retirement_ids[i]]).credit_batch_id@ != k by {
            assert(s.retirement_ids.contains(s.retirement_ids[i]));
            assert(s.retirements.contains_key(s.retirement_ids[i]));
            assert(s.cert_ok(s.retirement_ids[i]));
        }
        lemma_certified_zero(s.retirements, s.retirement_ids, k);
        assert forall|kk: Seq<char>| #[trigger] s1.batches.contains_key(kk) implies certified(
            s1.retirements,
            s1.retirement_ids,
            kk,
        ) == s1.retired[kk] by {
            if kk != k {
                assert(s.batches.contains_key(kk));
            }
        }
        assert forall|kk: Seq<char>, n: int|
            s1.batches.contains_key(kk) && s1.batches[kk].serial_start <= n < s1.batches[kk].serial_start
                + s1.retired[kk] implies #[trigger] covered(s1.retirements, kk, n) by {
            if kk != k {
                assert(s.batches.contains_key(kk));
                assert(covered(s.retirements, kk, n));
            }
        }
}

/// Certificates filed under `ids` that agree in both tables certify the same
/// credits.
proof fn lemma_certified_frame(
    m1: Map<Seq<char>, CertificateView>,
    m2: Map<Seq<char>, CertificateView>,
    ids: Seq<Seq<char>>,
    k: Seq<char>,
)
    requires
        forall|i: int| 0 <= i < ids.len() ==> m1[ids[i]] == m2[ids[i]],
    ensures
        certified(m1, ids, k) == certified(m2, ids, k),
    decreases ids.len(),
{
    if ids.len() > 0 {
        let d = ids.drop_last();
        assert forall|i: int| 0 <= i < d.len() implies m1[d[i]] == m2[d[i]] by {
            assert(d[i] == ids[i]);
        }
        lemma_certified_frame(m1, m2, d, k);
        assert(m1[ids.last()] == m2[ids[ids.len() - 1]]);
    }
}

/// When no certificate filed under `ids` belongs to batch `k`, they certify
/// nothing of it.
proof fn lemma_certified_zero(m: Map<Seq<char>, CertificateView>, ids: Seq<Seq<char>>, k: Seq<char>)
    requires
        forall|i: int| 0 <= i < ids.len() ==> (#[trigger] m[ids[i]]).credit_batch_id@ != k,
    ensures
        certified(m, ids, k) == 0,
    decreases ids.len(),
{
    if ids.len() > 0 {
        let d = ids.drop_last();
        assert forall|i: int| 0 <= i < d.len() implies (#[trigger] m[d[i]]).credit_batch_id@ != k by {
            assert(d[i] == ids[i]);
            assert(m[ids[i]].credit_batch_id@ != k);
        }
        lemma_certified_zero(m, d, k);
        assert(m[ids[ids.len() - 1]].credit_batch_id@ != k);
    }
}

/// A successful retirement keeps the ledger's invariant.
proof fn lemma_retire_keeps_wf(
    s: CreditState,
    now: u64,
    holder: String,
    batch_id: String,
    amount: i128,
    retirement_reason: String,
    beneficiary: String,
    retirement_id: String,
    tx_hash: String,
)
    requires
        s.wf(),
        s.retire_credits(now, holder, batch_id, amount, retirement_reason, beneficiary, retirement_id, tx_hash) is Ok,
    ensures
        s.retire_credits(now, holder, batch_id, amount, retirement_reason, beneficiary, retirement_id, tx_hash).unwrap().0.wf(),
{
    let s1 = s.retire_credits(now, holder, batch_id, amount, retirement_reason, beneficiary, retirement_id, tx_hash)
        .unwrap().0;
        assert(s1.batches.dom() =~= s.batches.dom());
        assert forall|kk: Seq<char>| #[trigger] s1.batches.contains_key(kk) implies s1.batch_ok(kk) by {
            assert(s.batches.contains_key(kk));
            assert(s.batch_ok(kk));
        }
        assert forall|i: int| 0 <= i < s1.mint_order.len() implies #[trigger] s1.serial_registry[i]
            == s1.claimed(i) by {
            assert(s.batches.contains_key(s.mint_order[i]@));
            assert(s.serial_registry[i] == s.claimed(i));
        }
        assert forall|kk: Seq<char>| #[trigger] s1.batches.contains_key(kk) implies exists|i: int|
            0 <= i < s1.mint_order.len() && #[trigger] s1.mint_order[i]@ == kk by {
            assert(s.batches.contains_key(kk));
            let i = choose|i: int| 0 <= i < s.mint_order.len() && #[trigger] s.mint_order[i]@ == kk;
            assert(s1.mint_order[i]@ == kk);
        }
        assert forall|i: int| 0 <= i < s1.mint_order.len() implies #[trigger] s1.batches.contains_key(
            s1.mint_order[i]@,
        ) by {
            assert(s.batches.contains_key(s.mint_order[i]@));
        }
        let k = batch_id@;
        let cert = s1.retirements[retirement_id@];
        assert(s.batch_ok(k));
        assert(cert.serial_numbers[0] == s.batches[k].serial_start + s.retired[k]);
        assert forall|r: Seq<char>| #[trigger] s1.retirements.contains_key(r) implies s1.cert_ok(r) by {
            if r != retirement_id@ {
                assert(s.cert_ok(r));
            }
        }
        assert forall|r1: Seq<char>, r2: Seq<char>|
            s1.retirements.contains_key(r1) && s1.retirements.contains_key(r2) && r1 != r2
            implies certs_apart(#[trigger] s1.retirements[r1], #[trigger] s1.retirements[r2]) by {
            if r1 == retirement_id@ {
                lemma_fresh_cert_apart(s, k, amount, r2);
            } else if r2 == retirement_id@ {
                lemma_fresh_cert_apart(s, k, amount, r1);
            } else {
                assert(certs_apart(s.retirements[r1], s.retirements[r2]));
            }
        }
        let rid = retirement_id@;
        let ids = s.retirement_ids;
        assert(!ids.contains(rid));
        assert(s1.retirement_ids == ids.push(rid));
        assert forall|i: int, j: int| 0 <= i < s1.retirement_ids.len() && 0 <= j < s1.retirement_ids.len() && i != j
            implies s1.retirement_ids[i] != s1.retirement_ids[j] by {
            if i == ids.len() {
                assert(ids.contains(ids[j]));
            } else if j == ids.len() {
                assert(ids.contains(ids[i]));
            }
        }
        assert forall|r: Seq<char>| #[trigger] s1.retirements.contains_key(r) <==> s1.retirement_ids.contains(r) by {
            if r != rid {
                if ids.contains(r) {
                    let i = choose|i: int| 0 <= i < ids.len() && ids[i] == r;
                    assert(s1.retirement_ids[i] == r);
                }
                if s1.retirement_ids.contains(r) {
                    let i = choose|i: int| 0 <= i < s1.retirement_ids.len() && s1.retirement_ids[i] == r;
                    assert(ids[i] == r);
                }
            } else {
                assert(s1.retirement_ids[ids.len() as int] == r);
            }
        }
        assert forall|i: int| 0 <= i < ids.len() implies s1.retirements[ids[i]] == s.retirements[ids[i]] by {
            assert(ids.contains(ids[i]));
        }
        assert forall|kk: Seq<char>| #[trigger] s1.batches.contains_key(kk) implies certified(
            s1.retirements,
            s1.retirement_ids,
            kk,
        ) == s1.retired[kk] by {
            lemma_certified_frame(s1.retirements, s.retirements, ids, kk);
            assert(s1.retirement_ids.drop_last() =~= ids);
            assert(s.batches.contains_key(kk));
        }
        assert forall|kk: Seq<char>, n: int|
            s1.batches.contains_key(kk) && s1.batches[kk].serial_start <= n < s1.batches[kk].serial_start
                + s1.retired[kk] implies #[trigger] covered(s1.retirements, kk, n) by {
            assert(s.batches.contains_key(kk));
            if kk == k && n >= s.batches[k].serial_start + s.retired[k] {
                assert(s1.retirements.contains_key(rid));
                assert(cert_names(s1.retirements[rid], kk, n));
            } else {
                assert(covered(s.retirements, kk, n));
                let r = choose|r: Seq<char>| #[trigger] s.retirements.contains_key(r) && cert_names(s.retirements[r], kk, n);
                assert(s1.retirements.contains_key(r));
            }
        }
}

/// The span a retirement of `amount` credits of batch `k` takes, starting at
/// the batch's retired frontier, misses every certificate already filed.
proof fn lemma_fresh_cert_apart(s: CreditState, k: Seq<char>, amount: i128, r: Seq<char>)
    requires
        s.wf(),
        s.batches.contains_key(k),
        s.retired[k] + amount <= s.batches[k].amount,
        s.retirements.contains_key(r),
    ensures
        ({
            let c = s.retirements[r];
            let p = s.batches[k].serial_start + s.retired[k];
            p + amount <= c.serial_numbers[0] || c.serial_numbers[0] + c.amount <= p
        }),
{
    assert(s.cert_ok(r));
    let kk = s.retirements[r].credit_batch_id@;
    assert(s.batch_ok(k));
    assert(s.batch_ok(kk));
    if kk != k {
        lemma_serials_unique(s, kk, k);
    }
}

/// The ledger's invariant only depends on its batches and serial bookkeeping.
proof fn lemma_wf_frame(s0: CreditState, s1: CreditState)
    requires
        s0.wf(),
        s1.batches == s0.batches,
        s1.retired == s0.retired,
        s1.mint_order == s0.mint_order,
        s1.serial_registry == s0.serial_registry,
        s1.retirements == s0.retirements,
        s1.retirement_ids == s0.retirement_ids,
    ensures
        s1.wf(),
{
    assert forall|k: Seq<char>| #[trigger] s1.batches.contains_key(k) implies exists|i: int|
        0 <= i < s1.mint_order.len() && #[trigger] s1.mint_order[i]@ == k by {
        assert(s0.batches.contains_key(k));
    }
}

/// The credit ledger contract.
pub struct CarbonCreditContract {
    admin: Option<String>,
    registry_contract: Option<String>,
    batches: StringHashMap<CreditBatch>,
    retired: StringHashMap<i128>,
    retirements: StringHashMap<RetirementCertificate>,
    retirement_ids: Ghost<Seq<Seq<char>>>,
    mint_order: Vec<String>,
    serial_registry: Vec<SerialRange>,
    timelock: Timelock<GovAction>,
    locked: bool,
    paused: bool,
    events: Vec<CreditEvent>,
}

impl View for CarbonCreditContract {
    type V = CreditState;

    closed spec fn view(&self) -> CreditState {
        CreditState {
            admin: self.admin,
            registry_contract: self.registry_contract,
            batches: self.batches@,
            retired: self.retired@,
            retirements: self.retirements@.map_values(|c: RetirementCertificate| c@),
            retirement_ids: self.retirement_ids@,
            mint_order: self.mint_order@,
            serial_registry: self.serial_registry@,
            timelock: self.timelock@,
            locked: self.locked,
            paused: self.paused,
            events: self.events@,
        }
    }
}

fn validate_batch(b: &CreditBatch) -> (r: Option<CarbonError>)
    ensures
        r == batch_error(*b),
{
    if b.batch_id.as_str().is_empty() {
        Some(CarbonError::SerialNumberConflict)
    } else if b.project_id.as_str().is_empty() || b.metadata_cid.as_str().is_empty() {
        Some(CarbonError::ProjectNotFound)
    } else if b.amount <= 0 {
        Some(CarbonError::ZeroAmountNotAllowed)
    } else if b.vintage_year < 2000 || b.vintage_year > 2100 {
        Some(CarbonError::InvalidVintageYear)
    } else if b.serial_end < b.serial_start || b.serial_end - b.serial_start == u64::MAX
        || (b.serial_end - b.serial_start + 1) as i128 != b.amount {
        Some(CarbonError::InvalidSerialRange)
    } else {
        None
    }
}

fn validate_certificate(c: &RetirementCertificate) -> (r: Option<CarbonError>)
    ensures
        r == certificate_error(c@),
{
    if c.retirement_id.as_str().is_empty() || c.credit_batch_id.as_str().is_empty() || c.project_id.as_str().is_empty()
        || c.tx_hash.as_str().is_empty() {
        Some(CarbonError::ProjectNotFound)
    } else if c.amount <= 0 {
        Some(CarbonError::ZeroAmountNotAllowed)
    } else if c.serial_numbers.len() == 0 || c.serial_numbers.len() as i128 != c.amount {
        Some(CarbonError::InvalidSerialRange)
    } else {
        None
    }
}

/// The serial numbers `start, start + 1, ..., start + n - 1`.
fn serial_numbers(start: u64, n: u64) -> (v: Vec<u64>)
    requires
        start + n <= u64::MAX + 1,
    ensures
        v@ == serial_span(start, n as nat),
{
    let mut v: Vec<u64> = Vec::new();
    let mut i: u64 = 0;
    while i < n
        invariant
            i <= n,
            start + n <= u64::MAX + 1,
            v@ == serial_span(start, i as nat),
        decreases n - i,
    {
        v.push(start + i);
        i = i + 1;
        assert(v@ =~= serial_span(start, i as nat));
    }
    v
}

impl CarbonCreditContract {
    /// The ledger's invariant.
    pub open spec fn wf(&self) -> bool {
        self@.wf()
    }

    /// A freshly deployed ledger, not yet initialized.
    pub fn new() -> (c: Self)
        ensures
            c@ == CreditState::initial(),
            c.wf(),
    {
        let c = CarbonCreditContract {
            admin: None,
            registry_contract: None,
            batches: StringHashMap::new(),
            retired: StringHashMap::new(),
            retirements: StringHashMap::new(),
            retirement_ids: Ghost(Seq::empty()),
            mint_order: Vec::new(),
            serial_registry: Vec::new(),
            timelock: Timelock::new(),
            locked: false,
            paused: false,
            events: Vec::new(),
        };
        assert(c@.retirements =~= Map::<Seq<char>, CertificateView>::empty());
        assert(c@ == CreditState::initial());
        c
    }

    /// Events published so far, oldest first.
    pub fn events(&self) -> (r: &Vec<CreditEvent>)
        ensures
            r@ == self@.events,
    {
        &self.events
    }

    fn acquire_lock(&mut self) -> (r: Result<(), CarbonError>)
        ensures
            old(self).locked ==> r == Err::<(), CarbonError>(CarbonError::ReentrancyGuard) && *final(self) == *old(self),
            !old(self).locked ==> r is Ok && *final(self) == (CarbonCreditContract { locked: true, ..*old(self) }),
    {
        if self.locked {
            return Err(CarbonError::ReentrancyGuard);
        }
        self.locked = true;
        Ok(())
    }

    fn release_lock(&mut self)
        ensures
            *final(self) == (CarbonCreditContract { locked: false, ..*old(self) }),
    {
        self.locked = false;
    }

    fn is_admin(&self, caller: &String) -> (r: bool)
        ensures
            r == self@.is_admin(*caller),
    {
        match &self.admin {
            Some(a) => *a == *caller,
            None => false,
        }
    }

    /// Sets the admin and the registry contract; only the first call succeeds.
    pub fn initialize(&mut self, admin: String, registry_contract: String) -> (r: Result<(), CarbonError>)
        requires
            old(self).wf(),
        ensures
            final(self).wf(),
            match r {
                Ok(()) => old(self)@.initialize(admin, registry_contract) == Ok::<CreditState, CarbonError>(final(self)@),
                Err(e) => old(self)@.initialize(admin, registry_contract) == Err::<CreditState, CarbonError>(e)
                    && final(self)@ == old(self)@,
            },
    {
        if self.admin.is_some() {
            return Err(CarbonError::AlreadyInitialized);
        }
        self.admin = Some(admin);
        self.registry_contract = Some(registry_contract);
        Ok(())
    }

    fn serial_range_free(&self, start: u64, end: u64) -> (r: bool)
        ensures
            r == self@.serial_range_free(start, end),
    {
        let mut i: usize = 0;
        while i < self.serial_registry.len()
            invariant
                i <= self.serial_registry@.len(),
                forall|j: int| 0 <= j < i ==> !ranges_overlap(#[trigger] self.serial_registry@[j], start, end),
            decreases self.serial_registry@.len() - i,
        {
            let r = self.serial_registry[i];
            if start <= r.end && end >= r.start {
                assert(ranges_overlap(self@.serial_registry[i as int], start, end));
                return false;
            }
            i = i + 1;
        }
        true
    }

    /// Whether `serial_start..=serial_end` overlaps no minted batch, i.e. may be minted.
    pub fn verify_serial_range(&self, serial_start: u64, serial_end: u64) -> (r: bool)
        ensures
            r == self@.serial_range_free(serial_start, serial_end),
    {
        self.serial_range_free(serial_start, serial_end)
    }

    /// Mints a batch of `amount` credits numbered `serial_start..=serial_end`;
    /// refused while the ledger is paused.
    pub fn mint_credits(
        &mut self,
        now: u64,
        admin: String,
        project_id: String,
        amount: i128,
        vintage_year: u32,
        batch_id: String,
        serial_start: u64,
        serial_end: u64,
        metadata_cid: String,
    ) -> (r: Result<(), CarbonError>)
        requires
            old(self).wf(),
        ensures
            final(self).wf(),
            match r {
                Ok(()) => old(self)@.mint_credits(
                    now,
                    admin,
                    project_id,
                    amount,
                    vintage_year,
                    batch_id,
                    serial_start,
                    serial_end,
                    metadata_cid,
                ) == Ok::<CreditState, CarbonError>(final(self)@),
                Err(e) => old(self)@.mint_credits(
                    now,
                    admin,
                    project_id,
                    amount,
                    vintage_year,
                    batch_id,
                    serial_start,
                    serial_end,
                    metadata_cid,
                ) == Err::<CreditState, CarbonError>(e) && final(self)@ == old(self)@,
            },
    {
        let ghost s0 = self@;
        let ghost g_pid = project_id;
        let ghost g_bid = batch_id;
        let ghost g_cid = metadata_cid;
        self.acquire_lock()?;
        assert(!s0.locked);
        assert(self@.admin == s0.admin);
        assert(self@.batches == s0.batches);
        assert(self@.serial_registry == s0.serial_registry);
        let e: Option<CarbonError> = if self.paused {
            Some(CarbonError::ProjectSuspended)
        } else if !self.is_admin(&admin) {
            Some(CarbonError::UnauthorizedVerifier)
        } else if amount <= 0 {
            Some(CarbonError::ZeroAmountNotAllowed)
        } else if serial_end < serial_start {
            Some(CarbonError::InvalidSerialRange)
        } else if vintage_year < 2000 || vintage_year > 2100 {
            Some(CarbonError::InvalidVintageYear)
        } else if self.batches.contains_key(batch_id.as_str()) {
            Some(CarbonError::SerialNumberConflict)
        } else if !self.serial_range_free(serial_start, serial_end) {
            Some(CarbonError::DoubleCountingDetected)
        } else {
            None
        };
        if let Some(e) = e {
            self.release_lock();
            assert(self@ == s0);
            return Err(e);
        }
        let batch = CreditBatch {
            batch_id: batch_id.clone(),
            project_id: project_id.clone(),
            vintage_year,
            amount,
            serial_start,
            serial_end,
            issued_at: now,
            status: CreditStatus::Active,
            metadata_cid,
        };
        if let Some(e) = validate_batch(&batch) {
            self.release_lock();
            assert(self@ == s0);
            return Err(e);
        }
        assert(s0.mint_error(now, admin, g_pid, amount, vintage_year, g_bid, serial_start, serial_end, g_cid) is None);
        self.serial_registry.push(SerialRange { start: serial_start, end: serial_end });
        self.batches.insert(batch_id.clone(), batch);
        self.retired.insert(batch_id.clone(), 0);
        self.mint_order.push(batch_id.clone());
        self.events.push(
            CreditEvent::Minted { batch_id, project_id, amount, vintage_year, serial_start, serial_end },
        );
        self.release_lock();
        proof {
            assert(self@.retirements =~= s0.retirements);
            assert(self@ == s0.mint_credits(
                now,
                admin,
                g_pid,
                amount,
                vintage_year,
                g_bid,
                serial_start,
                serial_end,
                g_cid,
            ).unwrap());
            lemma_mint_keeps_wf(s0, now, admin, g_pid, amount, vintage_year, g_bid, serial_start, serial_end, g_cid);
        }
        Ok(())
    }

    /// Permanently retires `amount` credits of a batch and issues a certificate
    /// naming the next `amount` serial numbers of the batch; a retirement id
    /// already on file is refused with `AlreadyRetired`, and nothing is
    /// retired while the ledger is paused.
    pub fn retire_credits(
        &mut self,
        now: u64,
        holder: String,
        batch_id: String,
        amount: i128,
        retirement_reason: String,
        beneficiary: String,
        retirement_id: String,
        tx_hash: String,
    ) -> (r: Result<RetirementCertificate, CarbonError>)
        requires
            old(self).wf(),
        ensures
            final(self).wf(),
            match r {
                Ok(cert) => old(self)@.retire_credits(
                    now,
                    holder,
                    batch_id,
                    amount,
                    retirement_reason,
                    beneficiary,
                    retirement_id,
                    tx_hash,
                ) == Ok::<(CreditState, CertificateView), CarbonError>((final(self)@, cert@)),
                Err(e) => old(self)@.retire_credits(
                    now,
                    holder,
                    batch_id,
                    amount,
                    retirement_reason,
                    beneficiary,
                    retirement_id,
                    tx_hash,
                ) == Err::<(CreditState, CertificateView), CarbonError>(e) && final(self)@ == old(self)@,
            },
    {
        let ghost s0 = self@;
        let ghost k = batch_id@;
        self.acquire_lock()?;
        assert(!s0.locked);
        assert(self@.batches == s0.batches);
        assert(self@.retired == s0.retired);
        if self.paused {
            self.release_lock();
            return Err(CarbonError::ProjectSuspended);
        }
        if amount <= 0 {
            self.release_lock();
            return Err(CarbonError::ZeroAmountNotAllowed);
        }
        let batch = match self.batches.get(batch_id.as_str()) {
            Some(b) => b.snapshot(),
            None => {
                self.release_lock();
                return Err(CarbonError::ProjectNotFound);
            },
        };
        assert(s0.batches.contains_key(k));
        assert(s0.batch_ok(k));
        let retired: i128 = match self.retired.get(batch_id.as_str()) {
            Some(v) => *v,
            None => 0,
        };
        if batch.status == CreditStatus::FullyRetired {
            self.release_lock();
            return Err(CarbonError::AlreadyRetired);
        }
        if batch.status == CreditStatus::Suspended {
            self.release_lock();
            return Err(CarbonError::ProjectSuspended);
        }
        let active = batch.amount - retired;
        if amount > active {
            self.release_lock();
            return Err(CarbonError::InsufficientCredits);
        }
        if self.retirements.contains_key(retirement_id.as_str()) {
            self.release_lock();
            return Err(CarbonError::AlreadyRetired);
        }
        let start: u64 = batch.serial_start + retired as u64;
        let n: u64 = amount as u64;
        let project_id = batch.project_id.clone();
        let vintage_year = batch.vintage_year;
        let cert = RetirementCertificate {
            retirement_id: retirement_id.clone(),
            credit_batch_id: batch_id.clone(),
            project_id: project_id.clone(),
            amount,
            retired_by: holder.clone(),
            beneficiary: beneficiary.clone(),
            retirement_reason: retirement_reason.clone(),
            vintage_year,
            serial_numbers: serial_numbers(start, n),
            retired_at: now,
            tx_hash: tx_hash.clone(),
        };
        assert(cert@ == s0.certificate(now, holder, batch_id, amount, retirement_reason, beneficiary, retirement_id, tx_hash));
        if let Some(e) = validate_certificate(&cert) {
            self.release_lock();
            return Err(e);
        }
        let after: i128 = retired + amount;
        let status = if batch.amount - after == 0 {
            CreditStatus::FullyRetired
        } else {
            CreditStatus::PartiallyRetired
        };
        let updated = CreditBatch { status, ..batch };
        self.batches.insert(batch_id.clone(), updated);
        self.retired.insert(batch_id.clone(), after);
        let stored = RetirementCertificate {
            retirement_id: retirement_id.clone(),
            credit_batch_id: batch_id.clone(),
            project_id: project_id.clone(),
            amount,
            retired_by: holder.clone(),
            beneficiary: beneficiary.clone(),
            retirement_reason,
            vintage_year,
            serial_numbers: serial_numbers(start, n),
            retired_at: now,
            tx_hash,
        };
        self.retirements.insert(retirement_id.clone(), stored);
        self.retirement_ids = Ghost(self.retirement_ids@.push(retirement_id@));
        self.events.push(
            CreditEvent::Retired {
                retirement_id: retirement_id.clone(),
                batch_id: batch_id.clone(),
                project_id,
                amount,
                holder: holder.clone(),
                beneficiary,
            },
        );
        self.release_lock();
        proof {
            assert(self@.retirements =~= s0.retirements.insert(retirement_id@, cert@));
            lemma_retire_keeps_wf(s0, now, holder, batch_id, amount, cert.retirement_reason, cert.beneficiary, retirement_id, cert.tx_hash);
        }
        Ok(cert)
    }

    /// Checks that `amount` credits of a batch could change hands and records
    /// the transfer; ownership is not tracked by the ledger. Refused while the
    /// ledger is paused.
    pub fn transfer_credits(&mut self, from: String, to: String, batch_id: String, amount: i128) -> (r: Result<
        (),
        CarbonError,
    >)
        requires
            old(self).wf(),
        ensures
            final(self).wf(),
            match r {
                Ok(()) => old(self)@.transfer_credits(from, to, batch_id, amount) == Ok::<CreditState, CarbonError>(
                    final(self)@,
                ),
                Err(e) => old(self)@.transfer_credits(from, to, batch_id, amount) == Err::<CreditState, CarbonError>(e)
                    && final(self)@ == old(self)@,
            },
    {
        let ghost s0 = self@;
        let ghost k = batch_id@;
        self.acquire_lock()?;
        assert(!s0.locked);
        assert(self@.batches == s0.batches);
        assert(self@.retired == s0.retired);
        if self.paused {
            self.release_lock();
            return Err(CarbonError::ProjectSuspended);
        }
        if amount <= 0 {
            self.release_lock();
            return Err(CarbonError::ZeroAmountNotAllowed);
        }
        let (status, batch_amount) = match self.batches.get(batch_id.as_str()) {
            Some(b) => (b.status, b.amount),
            None => {
                self.release_lock();
                return Err(CarbonError::ProjectNotFound);
            },
        };
        assert(s0.batches.contains_key(k));
        assert(s0.batch_ok(k));
        let retired: i128 = match self.retired.get(batch_id.as_str()) {
            Some(v) => *v,
            None => 0,
        };
        if status == CreditStatus::FullyRetired {
            self.release_lock();
            return Err(CarbonError::AlreadyRetired);
        }
        if status == CreditStatus::Suspended {
            self.release_lock();
            return Err(CarbonError::ProjectSuspended);
        }
        if amount > batch_amount - retired {
            self.release_lock();
            return Err(CarbonError::InsufficientCredits);
        }
        self.events.push(CreditEvent::Transferred { batch_id, from, to, amount });
        self.release_lock();
        proof {
            assert(self@.retirements =~= s0.retirements);
            lemma_wf_frame(s0, self@);
        }
        Ok(())
    }

    /// The batch stored under `batch_id`.
    pub fn get_credit_batch(&self, batch_id: &str) -> (r: Result<&CreditBatch, CarbonError>)
        ensures
            match r {
                Ok(b) => self@.get_credit_batch(batch_id@) == Ok::<CreditBatch, CarbonError>(*b),
                Err(e) => self@.get_credit_batch(batch_id@) == Err::<CreditBatch, CarbonError>(e),
            },
    {
        match self.batches.get(batch_id) {
            Some(b) => Ok(b),
            None => Err(CarbonError::ProjectNotFound),
        }
    }

    /// The certificate stored under `retirement_id`.
    pub fn get_retirement_certificate(&self, retirement_id: &str) -> (r: Result<&RetirementCertificate, CarbonError>)
        ensures
            match r {
                Ok(c) => self@.get_retirement_certificate(retirement_id@) == Ok::<CertificateView, CarbonError>(c@),
                Err(e) => self@.get_retirement_certificate(retirement_id@) == Err::<CertificateView, CarbonError>(e),
            },
    {
        match self.retirements.get(retirement_id) {
            Some(c) => Ok(c),
            None => Err(CarbonError::ProjectNotFound),
        }
    }

    /// Every batch minted for `project_id`, in mint order.
    pub fn get_project_credits(&self, project_id: &str) -> (r: Vec<CreditBatch>)
        requires
            self.wf(),
        ensures
            r@ == self@.get_project_credits(project_id@),
    {
        let pid: String = project_id.to_owned();
        let mut out: Vec<CreditBatch> = Vec::new();
        let mut i: usize = 0;
        while i < self.mint_order.len()
            invariant
                self.wf(),
                i <= self.mint_order@.len(),
                pid@ == project_id@,
                out@ == credits_of(self@.batches, self@.mint_order.take(i as int), project_id@),
            decreases self.mint_order@.len() - i,
        {
            let id = &self.mint_order[i];
            assert(self@.batches.contains_key(self@.mint_order[i as int]@));
            match self.batches.get(id.as_str()) {
                Some(b) => {
                    if b.project_id == pid {
                        out.push(b.snapshot());
                    }
                },
                None => {},
            }
            assert(self@.mint_order.take(i + 1).drop_last() =~= self@.mint_order.take(i as int));
            i = i + 1;
        }
        assert(self@.mint_order.take(i as int) =~= self@.mint_order);
        out
    }

    /// The operation queued under `op_id`.
    pub fn get_pending_op(&self, op_id: &str) -> (r: Result<&PendingOp, CarbonError>)
        ensures
            match r {
                Ok(op) => self@.get_pending_op(op_id@) == Ok::<PendingOp, CarbonError>(*op),
                Err(e) => self@.get_pending_op(op_id@) == Err::<PendingOp, CarbonError>(e),
            },
    {
        match self.timelock.pending_op(op_id) {
            Some(op) => Ok(op),
            None => Err(CarbonError::ProjectNotFound),
        }
    }

    /// The contest filed against `op_id`.
    pub fn get_contest(&self, op_id: &str) -> (r: Result<&ContestRecord, CarbonError>)
        ensures
            match r {
                Ok(c) => self@.get_contest(op_id@) == Ok::<ContestRecord, CarbonError>(*c),
                Err(e) => self@.get_contest(op_id@) == Err::<ContestRecord, CarbonError>(e),
            },
    {
        match self.timelock.contest_record(op_id) {
            Some(c) => Ok(c),
            None => Err(CarbonError::ProjectNotFound),
        }
    }

    /// Queues a pause of all credit mutations, executable after the time-lock delay.
    pub fn propose_pause(&mut self, now: u64, admin: String, op_id: String, reason: String) -> (r: Result<(), CarbonError>)
        requires
            old(self).wf(),
            !old(self)@.pause_eta_overflows(now, admin),
        ensures
            final(self).wf(),
            match r {
                Ok(()) => final(self)@.timelock.ops[op_id@].target@ == "contract"@ && old(self)@.propose_pause(
                    now,
                    admin,
                    op_id,
                    reason,
                    final(self)@.timelock.ops[op_id@].target,
                ) == Ok::<CreditState, CarbonError>(final(self)@),
                Err(e) => old(self)@.admin_gate(admin) == Some(e) && final(self)@ == old(self)@,
            },
    {
        let ghost s0 = self@;
        self.acquire_lock()?;
        assert(!s0.locked);
        if !self.is_admin(&admin) {
            self.release_lock();
            return Err(CarbonError::UnauthorizedVerifier);
        }
        let eta = now + self.timelock.delay();
        let op = PendingOp {
            op_id: op_id.clone(),
            action: GovAction::PauseContract,
            target: String::from_str("contract"),
            initiated_by: admin.clone(),
            eta,
            payload: reason.clone(),
        };
        let ghost target = op.target;
        self.timelock.queue(op);
        self.events.push(CreditEvent::PauseQueued { op_id, admin, reason });
        self.release_lock();
        proof {
            assert(self@.retirements =~= s0.retirements);
            assert(self@.timelock.ops[op_id@].target == target);
        }
        Ok(())
    }

    /// Runs a queued pause once its delay has elapsed and nobody contested it:
    /// from then on minting, retiring and transferring are refused with
    /// `ProjectSuspended`. The pause is permanent: the ledger has no unpause
    /// operation.
    pub fn execute_pause(&mut self, now: u64, admin: String, op_id: String) -> (r: Result<(), CarbonError>)
        requires
            old(self).wf(),
        ensures
            final(self).wf(),
            match r {
                Ok(()) => old(self)@.execute_pause(now, admin, op_id) == Ok::<CreditState, CarbonError>(final(self)@),
                Err(e) => old(self)@.execute_pause(now, admin, op_id) == Err::<CreditState, CarbonError>(e)
                    && final(self)@ == old(self)@,
            },
    {
        let ghost s0 = self@;
        self.acquire_lock()?;
        assert(!s0.locked);
        if !self.is_admin(&admin) {
            self.release_lock();
            return Err(CarbonError::UnauthorizedVerifier);
        }
        if let Err(refusal) = self.timelock.executable(op_id.as_str(), now) {
            self.release_lock();
            return Err(to_error(refusal));
        }
        self.timelock.remove_op(op_id.as_str());
        self.paused = true;
        self.events.push(CreditEvent::Paused { op_id, admin });
        self.release_lock();
        proof {
            assert(self@.retirements =~= s0.retirements);
            lemma_wf_frame(s0, self@);
        }
        Ok(())
    }

    /// Files a contest against a queued operation while its delay runs; anyone may contest.
    pub fn contest_operation(&mut self, now: u64, contestant: String, op_id: String, reason: String) -> (r: Result<
        (),
        CarbonError,
    >)
        requires
            old(self).wf(),
        ensures
            final(self).wf(),
            match r {
                Ok(()) => old(self)@.contest_operation(now, contestant, op_id, reason) == Ok::<CreditState, CarbonError>(
                    final(self)@,
                ),
                Err(e) => old(self)@.contest_operation(now, contestant, op_id, reason) == Err::<
                    CreditState,
                    CarbonError,
                >(e) && final(self)@ == old(self)@,
            },
    {
        let ghost s0 = self@;
        self.acquire_lock()?;
        assert(!s0.locked);
        if let Some(refusal) = self.timelock.check_contest(op_id.as_str(), now) {
            self.release_lock();
            return Err(to_error(refusal));
        }
        let record = ContestRecord {
            op_id: op_id.clone(),
            contested_by: contestant.clone(),
            reason: reason.clone(),
            contested_at: now,
        };
        self.timelock.file_contest(record);
        self.events.push(CreditEvent::Contested { op_id, contestant, reason });
        self.release_lock();
        proof {
            assert(self@.retirements =~= s0.retirements);
            lemma_wf_frame(s0, self@);
        }
        Ok(())
    }

    /// Cancels a queued operation and any contest of it.
    pub fn rollback_operation(&mut self, admin: String, op_id: String) -> (r: Result<(), CarbonError>)
        requires
            old(self).wf(),
        ensures
            final(self).wf(),
            match r {
                Ok(()) => old(self)@.rollback_operation(admin, op_id) == Ok::<CreditState, CarbonError>(final(self)@),
                Err(e) => old(self)@.rollback_operation(admin, op_id) == Err::<CreditState, CarbonError>(e)
                    && final(self)@ == old(self)@,
            },
    {
        let ghost s0 = self@;
        self.acquire_lock()?;
        assert(!s0.locked);
        if !self.is_admin(&admin) {
            self.release_lock();
            return Err(CarbonError::UnauthorizedVerifier);
        }
        if self.timelock.pending_op(op_id.as_str()).is_none() {
            self.release_lock();
            return Err(CarbonError::ProjectNotFound);
        }
        self.timelock.cancel(op_id.as_str());
        self.events.push(CreditEvent::RolledBack { op_id, admin });
        self.release_lock();
        proof {
            assert(self@.retirements =~= s0.retirements);
            lemma_wf_frame(s0, self@);
        }
        Ok(())
    }

    /// Whether `propose_pause` by `admin` at `now` would need an execution
    /// time past `u64::MAX` — the one input that operation does not accept.
    pub fn pause_eta_overflows(&self, now: u64, admin: &String) -> (r: bool)
        ensures
            r == self@.pause_eta_overflows(now, *admin),
    {
        !self.locked && self.is_admin(admin) && now > u64::MAX - self.timelock.delay()
    }

    /// The time-lock delay, in seconds, that newly queued operations wait.
    pub fn timelock_delay(&self) -> (d: u64)
        ensures
            d == self@.timelock.delay,
    {
        self.timelock.delay()
    }

    /// Changes the time-lock delay; it must be positive.
    pub fn set_timelock_delay(&mut self, admin: String, delay_secs: u64) -> (r: Result<(), CarbonError>)
        requires
            old(self).wf(),
        ensures
            final(self).wf(),
            match r {
                Ok(()) => old(self)@.set_timelock_delay(admin, delay_secs) == Ok::<CreditState, CarbonError>(
                    final(self)@,
                ),
                Err(e) => old(self)@.set_timelock_delay(admin, delay_secs) == Err::<CreditState, CarbonError>(e)
                    && final(self)@ == old(self)@,
            },
    {
        let ghost s0 = self@;
        self.acquire_lock()?;
        assert(!s0.locked);
        if !self.is_admin(&admin) {
            self.release_lock();
            return Err(CarbonError::UnauthorizedVerifier);
        }
        if delay_secs == 0 {
            self.release_lock();
            return Err(CarbonError::ZeroAmountNotAllowed);
        }
        self.timelock.set_delay(delay_secs);
        self.release_lock();
        proof {
            assert(self@.retirements =~= s0.retirements);
            lemma_wf_frame(s0, self@);
        }
        Ok(())
    }
}


/// One call to the credit ledger, with its arguments.
pub enum CreditCall {
    Initialize { admin: String, registry_contract: String },
    Mint {
        now: u64,
        admin: String,
        project_id: String,
        amount: i128,
        vintage_year: u32,
        batch_id: String,
        serial_start: u64,
        serial_end: u64,
        metadata_cid: String,
    },
    Retire {
        now: u64,
        holder: String,
        batch_id: String,
        amount: i128,
        retirement_reason: String,
        beneficiary: String,
        retirement_id: String,
        tx_hash: String,
    },
    Transfer { from: String, to: String, batch_id: String, amount: i128 },
    ProposePause { now: u64, admin: String, op_id: String, reason: String, target: String },
    ExecutePause { now: u64, admin: String, op_id: String },
    Contest { now: u64, contestant: String, op_id: String, reason: String },
    Rollback { admin: String, op_id: String },
    SetTimelockDelay { admin: String, delay_secs: u64 },
}

impl CreditState {
    /// The outcome of `call`: the new state, or the error it is refused with.
    pub open spec fn outcome(self, call: CreditCall) -> Result<CreditState, CarbonError> {
        match call {
            CreditCall::Initialize { admin, registry_contract } => self.initialize(admin, registry_contract),
            CreditCall::Mint {
                now,
                admin,
                project_id,
                amount,
                vintage_year,
                batch_id,
                serial_start,
                serial_end,
                metadata_cid,
            } => self.mint_credits(
                now,
                admin,
                project_id,
                amount,
                vintage_year,
                batch_id,
                serial_start,
                serial_end,
                metadata_cid,
            ),
            CreditCall::Retire {
                now,
                holder,
                batch_id,
                amount,
                retirement_reason,
                beneficiary,
                retirement_id,
                tx_hash,
            } => match self.retire_credits(
                now,
                holder,
                batch_id,
                amount,
                retirement_reason,
                beneficiary,
                retirement_id,
                tx_hash,
            ) {
                Ok((s, _)) => Ok(s),
                Err(e) => Err(e),
            },
            CreditCall::Transfer { from, to, batch_id, amount } => self.transfer_credits(from, to, batch_id, amount),
            CreditCall::ProposePause { now, admin, op_id, reason, target } => self.propose_pause(
                now,
                admin,
                op_id,
                reason,
                target,
            ),
            CreditCall::ExecutePause { now, admin, op_id } => self.execute_pause(now, admin, op_id),
            CreditCall::Contest { now, contestant, op_id, reason } => self.contest_operation(
                now,
                contestant,
                op_id,
                reason,
            ),
            CreditCall::Rollback { admin, op_id } => self.rollback_operation(admin, op_id),
            CreditCall::SetTimelockDelay { admin, delay_secs } => self.set_timelock_delay(admin, delay_secs),
        }
    }

    /// The ledger after `call`: the new state when the call succeeds, the
    /// same state when it fails.
    pub open spec fn after(self, call: CreditCall) -> CreditState {
        match self.outcome(call) {
            Ok(s) => s,
            Err(_) => self,
        }
    }
}

/// A freshly deployed ledger satisfies the invariant.
pub proof fn lemma_initial_wf()
    ensures
        CreditState::initial().wf(),
{
}

/// Every call keeps the ledger's invariant: serial ranges of distinct
/// batches never overlap, no batch retires more than it minted, and each
/// batch's status matches how much of it is retired.
pub proof fn lemma_call_keeps_wf(s: CreditState, call: CreditCall)
    requires
        s.wf(),
    ensures
        s.after(call).wf(),
{
    match call {
        CreditCall::Mint {
            now,
            admin,
            project_id,
            amount,
            vintage_year,
            batch_id,
            serial_start,
            serial_end,
            metadata_cid,
        } => {
            if s.mint_credits(
                now,
                admin,
                project_id,
                amount,
                vintage_year,
                batch_id,
                serial_start,
                serial_end,
                metadata_cid,
            ) is Ok {
                lemma_mint_keeps_wf(
                    s,
                    now,
                    admin,
                    project_id,
                    amount,
                    vintage_year,
                    batch_id,
                    serial_start,
                    serial_end,
                    metadata_cid,
                );
            }
        },
        CreditCall::Retire {
            now,
            holder,
            batch_id,
            amount,
            retirement_reason,
            beneficiary,
            retirement_id,
            tx_hash,
        } => {
            if s.retire_credits(now, holder, batch_id, amount, retirement_reason, beneficiary, retirement_id, tx_hash) is Ok {
                lemma_retire_keeps_wf(
                    s,
                    now,
                    holder,
                    batch_id,
                    amount,
                    retirement_reason,
                    beneficiary,
                    retirement_id,
                    tx_hash,
                );
            }
        },
        _ => {
            lemma_wf_frame(s, s.after(call));
        },
    }
}

/// Serial numbers are globally unique: two different batches never share
/// a serial number.
pub proof fn lemma_serials_unique(s: CreditState, k1: Seq<char>, k2: Seq<char>)
    requires
        s.wf(),
        s.batches.contains_key(k1),
        s.batches.contains_key(k2),
        k1 != k2,
    ensures
        s.batches[k1].serial_end < s.batches[k2].serial_start || s.batches[k2].serial_end < s.batches[k1].serial_start,
{
    let i1 = choose|i: int| 0 <= i < s.mint_order.len() && #[trigger] s.mint_order[i]@ == k1;
    let i2 = choose|i: int| 0 <= i < s.mint_order.len() && #[trigger] s.mint_order[i]@ == k2;
    assert(s.serial_registry[i1] == s.claimed(i1));
    assert(s.serial_registry[i2] == s.claimed(i2));
    if i1 < i2 {
        assert(!ranges_overlap(s.serial_registry[i1], s.serial_registry[i2].start, s.serial_registry[i2].end));
    } else {
        assert(!ranges_overlap(s.serial_registry[i2], s.serial_registry[i1].start, s.serial_registry[i1].end));
    }
}

/// Batches are permanent: no call removes a batch or changes its amount or
/// serial range, the retired count of a batch never decreases, and the
/// serial registry only grows at its end.
pub proof fn lemma_call_keeps_batches(s: CreditState, call: CreditCall, k: Seq<char>)
    requires
        s.wf(),
        s.batches.contains_key(k),
    ensures
        s.after(call).batches.contains_key(k),
        s.after(call).batches[k].amount == s.batches[k].amount,
        s.after(call).batches[k].serial_start == s.batches[k].serial_start,
        s.after(call).batches[k].serial_end == s.batches[k].serial_end,
        s.after(call).retired[k] >= s.retired[k],
        s.after(call).serial_registry.len() >= s.serial_registry.len(),
        forall|i: int| 0 <= i < s.serial_registry.len() ==> #[trigger] s.after(call).serial_registry[i] == s.serial_registry[i],
{
    assert(s.batch_ok(k));
}

/// No double retirement: two different certificates never name the same
/// serial number.
pub proof fn lemma_certificates_disjoint(s: CreditState, r1: Seq<char>, r2: Seq<char>, i: int, j: int)
    requires
        s.wf(),
        s.retirements.contains_key(r1),
        s.retirements.contains_key(r2),
        r1 != r2,
        0 <= i < s.retirements[r1].serial_numbers.len(),
        0 <= j < s.retirements[r2].serial_numbers.len(),
    ensures
        s.retirements[r1].serial_numbers[i] != s.retirements[r2].serial_numbers[j],
{
    assert(s.cert_ok(r1));
    assert(s.cert_ok(r2));
    assert(certs_apart(s.retirements[r1], s.retirements[r2]));
}

/// The certificates of a batch partition its retired serials: each serial
/// number from the batch's first serial up to its retired frontier is named
/// by exactly one certificate of the batch, and no certificate of the batch
/// names a serial beyond the frontier.
pub proof fn lemma_retired_serials_partitioned(s: CreditState, k: Seq<char>, n: int)
    requires
        s.wf(),
        s.batches.contains_key(k),
    ensures
        s.batches[k].serial_start <= n < s.batches[k].serial_start + s.retired[k] ==> exists|r: Seq<char>, i: int|
            #![trigger s.retirements[r].serial_numbers[i]]
            s.retirements.contains_key(r) && s.retirements[r].credit_batch_id@ == k && 0 <= i
                < s.retirements[r].serial_numbers.len() && s.retirements[r].serial_numbers[i] == n,
        forall|r1: Seq<char>, i1: int, r2: Seq<char>, i2: int|
            #![trigger s.retirements[r1].serial_numbers[i1], s.retirements[r2].serial_numbers[i2]]
            s.retirements.contains_key(r1) && s.retirements.contains_key(r2) && 0 <= i1
                < s.retirements[r1].serial_numbers.len() && 0 <= i2 < s.retirements[r2].serial_numbers.len()
                && s.retirements[r1].serial_numbers[i1] == s.retirements[r2].serial_numbers[i2] ==> r1 == r2,
        forall|r: Seq<char>, i: int|
            #![trigger s.retirements[r].serial_numbers[i]]
            s.retirements.contains_key(r) && s.retirements[r].credit_batch_id@ == k && 0 <= i
                < s.retirements[r].serial_numbers.len() ==> s.batches[k].serial_start <= s.retirements[r].serial_numbers[i]
                < s.batches[k].serial_start + s.retired[k],
{
    if s.batches[k].serial_start <= n < s.batches[k].serial_start + s.retired[k] {
        assert(covered(s.retirements, k, n));
        let r = choose|r: Seq<char>| #[trigger] s.retirements.contains_key(r) && cert_names(s.retirements[r], k, n);
        assert(s.cert_ok(r));
        let i = n - s.retirements[r].serial_numbers[0];
        assert(s.retirements[r].serial_numbers[i] == n);
    }
    assert forall|r1: Seq<char>, i1: int, r2: Seq<char>, i2: int|
        s.retirements.contains_key(r1) && s.retirements.contains_key(r2) && 0 <= i1
            < s.retirements[r1].serial_numbers.len() && 0 <= i2 < s.retirements[r2].serial_numbers.len()
            && #[trigger] s.retirements[r1].serial_numbers[i1] == #[trigger] s.retirements[r2].serial_numbers[i2]
        implies r1 == r2 by {
        if r1 != r2 {
            lemma_certificates_disjoint(s, r1, r2, i1, i2);
        }
    }
    assert forall|r: Seq<char>, i: int|
        s.retirements.contains_key(r) && s.retirements[r].credit_batch_id@ == k && 0 <= i
            < s.retirements[r].serial_numbers.len() implies s.batches[k].serial_start
            <= #[trigger] s.retirements[r].serial_numbers[i] < s.batches[k].serial_start + s.retired[k] by {
        assert(s.cert_ok(r));
    }
}

/// The certificates of a batch add up to its retired count: the amounts of
/// the batch's certificates, over every certificate filed (each once), sum to
/// the credits retired from it.
pub proof fn lemma_certificates_sum_to_retired(s: CreditState, k: Seq<char>)
    requires
        s.wf(),
        s.batches.contains_key(k),
    ensures
        s.retirement_ids.no_duplicates(),
        forall|r: Seq<char>| #[trigger] s.retirements.contains_key(r) <==> s.retirement_ids.contains(r),
        certified(s.retirements, s.retirement_ids, k) == s.retired[k],
{
}

/// Certificates are permanent: every call leaves every filed certificate as
/// it was; a retirement reusing its id is refused.
pub proof fn lemma_certificates_kept(s: CreditState, call: CreditCall, r: Seq<char>)
    requires
        s.wf(),
        s.retirements.contains_key(r),
    ensures
        s.after(call).retirements.contains_key(r),
        s.after(call).retirements[r] == s.retirements[r],
{
}

/// Retirement is irreversible: once a batch is fully retired, every call
/// leaves it fully retired with the same retired count.
pub proof fn lemma_fully_retired_is_final(s: CreditState, call: CreditCall, k: Seq<char>)
    requires
        s.wf(),
        s.batches.contains_key(k),
        s.batches[k].status == CreditStatus::FullyRetired,
    ensures
        s.after(call).batches[k].status == CreditStatus::FullyRetired,
        s.after(call).retired[k] == s.retired[k],
{
    assert(s.batch_ok(k));
}

/// A fully retired batch refuses every further retirement and transfer, with
/// `AlreadyRetired` unless the ledger is paused.
pub proof fn lemma_fully_retired_refuses(
    s: CreditState,
    now: u64,
    holder: String,
    to: String,
    batch_id: String,
    amount: i128,
    retirement_reason: String,
    beneficiary: String,
    retirement_id: String,
    tx_hash: String,
)
    requires
        s.batches.contains_key(batch_id@),
        s.batches[batch_id@].status == CreditStatus::FullyRetired,
        !s.locked,
        amount > 0,
    ensures
        s.retire_credits(now, holder, batch_id, amount, retirement_reason, beneficiary, retirement_id, tx_hash) is Err,
        s.transfer_credits(holder, to, batch_id, amount) is Err,
        !s.paused ==> s.retire_credits(now, holder, batch_id, amount, retirement_reason, beneficiary, retirement_id, tx_hash)
            == Err::<(CreditState, CertificateView), CarbonError>(CarbonError::AlreadyRetired),
        !s.paused ==> s.transfer_credits(holder, to, batch_id, amount) == Err::<CreditState, CarbonError>(
            CarbonError::AlreadyRetired,
        ),
{
}

/// A retirement names the next `amount` serial numbers of its batch, all
/// inside the batch's declared range, and adds `amount` to the retired count.
pub proof fn lemma_retirement_serials(
    s: CreditState,
    now: u64,
    holder: String,
    batch_id: String,
    amount: i128,
    retirement_reason: String,
    beneficiary: String,
    retirement_id: String,
    tx_hash: String,
)
    requires
        s.wf(),
        s.retire_credits(now, holder, batch_id, amount, retirement_reason, beneficiary, retirement_id, tx_hash) is Ok,
    ensures
        ({
            let (s1, cert) = s.retire_credits(
                now,
                holder,
                batch_id,
                amount,
                retirement_reason,
                beneficiary,
                retirement_id,
                tx_hash,
            ).unwrap();
            let b = s.batches[batch_id@];
            &&& cert.serial_numbers.len() == amount
            &&& cert.serial_numbers[0] == b.serial_start + s.retired[batch_id@]
            &&& forall|i: int| 0 <= i < amount ==> #[trigger] cert.serial_numbers[i] == cert.serial_numbers[0] + i
            &&& forall|i: int| 0 <= i < amount ==> b.serial_start <= #[trigger] cert.serial_numbers[i] <= b.serial_end
            &&& s1.retired[batch_id@] == s.retired[batch_id@] + amount
            &&& s1.retirements[retirement_id@] == cert
        }),
{
    assert(s.batch_ok(batch_id@));
}

/// Successive retirements of one batch hand out adjacent serial spans: the
/// second starts right after the last serial of the first.
pub proof fn lemma_retirements_adjacent(
    s: CreditState,
    now1: u64,
    holder1: String,
    batch_id: String,
    amount1: i128,
    reason1: String,
    beneficiary1: String,
    retirement_id1: String,
    tx_hash1: String,
    now2: u64,
    holder2: String,
    amount2: i128,
    reason2: String,
    beneficiary2: String,
    retirement_id2: String,
    tx_hash2: String,
)
    requires
        s.wf(),
        s.retire_credits(now1, holder1, batch_id, amount1, reason1, beneficiary1, retirement_id1, tx_hash1) is Ok,
        s.retire_credits(now1, holder1, batch_id, amount1, reason1, beneficiary1, retirement_id1, tx_hash1).unwrap().0.retire_credits(
            now2,
            holder2,
            batch_id,
            amount2,
            reason2,
            beneficiary2,
            retirement_id2,
            tx_hash2,
        ) is Ok,
    ensures
        ({
            let (s1, cert1) = s.retire_credits(
                now1,
                holder1,
                batch_id,
                amount1,
                reason1,
                beneficiary1,
                retirement_id1,
                tx_hash1,
            ).unwrap();
            let (_, cert2) = s1.retire_credits(
                now2,
                holder2,
                batch_id,
                amount2,
                reason2,
                beneficiary2,
                retirement_id2,
                tx_hash2,
            ).unwrap();
            cert2.serial_numbers[0] == cert1.serial_numbers[amount1 - 1] + 1
        }),
{
    lemma_retirement_serials(s, now1, holder1, batch_id, amount1, reason1, beneficiary1, retirement_id1, tx_hash1);
    lemma_retire_keeps_wf(s, now1, holder1, batch_id, amount1, reason1, beneficiary1, retirement_id1, tx_hash1);
    let s1 = s.retire_credits(now1, holder1, batch_id, amount1, reason1, beneficiary1, retirement_id1, tx_hash1).unwrap().0;
    lemma_retirement_serials(s1, now2, holder2, batch_id, amount2, reason2, beneficiary2, retirement_id2, tx_hash2);
}

/// Every call that finds the ledger unlocked leaves it unlocked, whether it
/// succeeds or fails.
pub proof fn lemma_lock_released(s: CreditState, call: CreditCall)
    requires
        !s.locked,
    ensures
        !s.after(call).locked,
{
}

/// Only the stored admin may mint or govern: any other caller is refused,
/// with `UnauthorizedVerifier` unless a mint meets a paused ledger, and
/// nothing changes.
pub proof fn lemma_admin_only(
    s: CreditState,
    now: u64,
    caller: String,
    project_id: String,
    amount: i128,
    vintage_year: u32,
    batch_id: String,
    serial_start: u64,
    serial_end: u64,
    metadata_cid: String,
    op_id: String,
    reason: String,
    target: String,
    delay_secs: u64,
)
    requires
        !s.locked,
        !s.is_admin(caller),
    ensures
        s.mint_credits(now, caller, project_id, amount, vintage_year, batch_id, serial_start, serial_end, metadata_cid) is Err,
        !s.paused ==> s.mint_credits(now, caller, project_id, amount, vintage_year, batch_id, serial_start, serial_end, metadata_cid)
            == Err::<CreditState, CarbonError>(CarbonError::UnauthorizedVerifier),
        s.propose_pause(now, caller, op_id, reason, target) == Err::<CreditState, CarbonError>(
            CarbonError::UnauthorizedVerifier,
        ),
        s.execute_pause(now, caller, op_id) == Err::<CreditState, CarbonError>(CarbonError::UnauthorizedVerifier),
        s.rollback_operation(caller, op_id) == Err::<CreditState, CarbonError>(CarbonError::UnauthorizedVerifier),
        s.set_timelock_delay(caller, delay_secs) == Err::<CreditState, CarbonError>(CarbonError::UnauthorizedVerifier),
{
}

/// On a ledger that is not paused, every amount-taking call refuses a zero or
/// negative amount before any other check but the lock (and, for minting,
/// the admin check).
pub proof fn lemma_nonpositive_amount_refused(
    s: CreditState,
    now: u64,
    admin: String,
    holder: String,
    to: String,
    project_id: String,
    amount: i128,
    vintage_year: u32,
    batch_id: String,
    serial_start: u64,
    serial_end: u64,
    metadata_cid: String,
    retirement_reason: String,
    beneficiary: String,
    retirement_id: String,
    tx_hash: String,
)
    requires
        !s.locked,
        !s.paused,
        amount <= 0,
    ensures
        s.is_admin(admin) ==> s.mint_credits(
            now,
            admin,
            project_id,
            amount,
            vintage_year,
            batch_id,
            serial_start,
            serial_end,
            metadata_cid,
        ) == Err::<CreditState, CarbonError>(CarbonError::ZeroAmountNotAllowed),
        s.retire_credits(now, holder, batch_id, amount, retirement_reason, beneficiary, retirement_id, tx_hash) == Err::<
            (CreditState, CertificateView),
            CarbonError,
        >(CarbonError::ZeroAmountNotAllowed),
        s.transfer_credits(holder, to, batch_id, amount) == Err::<CreditState, CarbonError>(
            CarbonError::ZeroAmountNotAllowed,
        ),
{
}


/// The pause holds: once the ledger is paused every mint, retirement and
/// transfer is refused with `ProjectSuspended` and changes nothing, and no
/// call lifts the pause.
pub proof fn lemma_paused_freezes(s: CreditState, call: CreditCall)
    requires
        s.paused,
        !s.locked,
    ensures
        s.after(call).paused,
        call is Mint || call is Retire || call is Transfer ==> s.outcome(call) == Err::<CreditState, CarbonError>(
            CarbonError::ProjectSuspended,
        ) && s.after(call) == s,
{
}

/// A successful `execute_pause` pauses the ledger.
pub proof fn lemma_execute_pause_pauses(s: CreditState, now: u64, admin: String, op_id: String)
    requires
        s.execute_pause(now, admin, op_id) is Ok,
    ensures
        s.execute_pause(now, admin, op_id).unwrap().paused,
{
}

/// Initialisation happens once: after it, no call changes the admin or the
/// registry address, and a second `initialize` is refused.
pub proof fn lemma_initialize_once(s: CreditState, call: CreditCall, admin: String, registry_contract: String)
    requires
        s.admin is Some,
    ensures
        s.after(call).admin == s.admin,
        s.after(call).registry_contract == s.registry_contract,
        s.initialize(admin, registry_contract) == Err::<CreditState, CarbonError>(CarbonError::AlreadyInitialized),
{
    match call {
        CreditCall::Initialize { .. } => {},
        CreditCall::Mint { .. } => {},
        CreditCall::Retire { .. } => {},
        CreditCall::Transfer { .. } => {},
        CreditCall::ProposePause { .. } => {},
        CreditCall::ExecutePause { .. } => {},
        CreditCall::Contest { .. } => {},
        CreditCall::Rollback { .. } => {},
        CreditCall::SetTimelockDelay { .. } => {},
    }
}


/// The reentrancy guard: while a call holds the lock, every other call but
/// `initialize` is refused with `ReentrancyGuard`.
pub proof fn lemma_locked_refuses(s: CreditState, call: CreditCall)
    requires
        s.locked,
        !(call is Initialize),
    ensures
        s.outcome(call) == Err::<CreditState, CarbonError>(CarbonError::ReentrancyGuard),
{
}


// ── Laws of the operations' results, stated over their inputs ──────────────

/// A serial range is free exactly when it meets no registered range: no
/// registered `r` has `start <= r.end && end >= r.start`.
pub proof fn lemma_free_range_exact(s: CreditState, start: u64, end: u64)
    ensures
        s.serial_range_free(start, end) <==> forall|i: int|
            0 <= i < s.serial_registry.len() ==> !(start <= #[trigger] s.serial_registry[i].end && end
                >= s.serial_registry[i].start),
{
}

/// A mint succeeds only for the admin, on an unlocked and unpaused ledger,
/// with a positive amount, a vintage in 2000..=2100, a fresh non-empty batch
/// id, non-empty project id and metadata, and a range of exactly `amount`
/// serials that meets no registered range. It then stores the batch exactly
/// as given, `Active`, issued at `now`, with nothing retired, appends its
/// range to the registry and touches no other batch or certificate.
pub proof fn lemma_mint_result(
    s: CreditState,
    now: u64,
    admin: String,
    project_id: String,
    amount: i128,
    vintage_year: u32,
    batch_id: String,
    serial_start: u64,
    serial_end: u64,
    metadata_cid: String,
)
    requires
        s.mint_credits(now, admin, project_id, amount, vintage_year, batch_id, serial_start, serial_end, metadata_cid) is Ok,
    ensures
        ({
            let s1 = s.mint_credits(now, admin, project_id, amount, vintage_year, batch_id, serial_start, serial_end, metadata_cid)
                .unwrap();
            let b = s1.batches[batch_id@];
            &&& !s.locked && !s.paused
            &&& s.admin matches Some(a) && a@ == admin@
            &&& amount > 0 && 2000 <= vintage_year <= 2100
            &&& !s.batches.contains_key(batch_id@)
            &&& batch_id@.len() > 0 && project_id@.len() > 0 && metadata_cid@.len() > 0
            &&& serial_start <= serial_end && serial_end - serial_start + 1 == amount
            &&& forall|i: int|
                0 <= i < s.serial_registry.len() ==> !(serial_start <= #[trigger] s.serial_registry[i].end && serial_end
                    >= s.serial_registry[i].start)
            &&& s1.batches.contains_key(batch_id@)
            &&& b.batch_id == batch_id && b.project_id == project_id && b.amount == amount
            &&& b.vintage_year == vintage_year && b.serial_start == serial_start && b.serial_end == serial_end
            &&& b.metadata_cid == metadata_cid && b.issued_at == now && b.status == CreditStatus::Active
            &&& s1.retired[batch_id@] == 0
            &&& s1.serial_registry == s.serial_registry.push(SerialRange { start: serial_start, end: serial_end })
            &&& forall|k: Seq<char>| k != batch_id@ ==> (#[trigger] s1.batches.contains_key(k) <==> s.batches.contains_key(k))
            &&& forall|k: Seq<char>| k != batch_id@ && s.batches.contains_key(k) ==> #[trigger] s1.batches[k] == s.batches[k]
                && s1.retired[k] == s.retired[k]
            &&& s1.retirements == s.retirements
        }),
{
}

/// Conversely, a mint that meets all those conditions succeeds, unless its
/// range is the whole serial space (more serials than a `u64` counts, which
/// is refused with `InvalidSerialRange`).
pub proof fn lemma_mint_succeeds(
    s: CreditState,
    now: u64,
    admin: String,
    project_id: String,
    amount: i128,
    vintage_year: u32,
    batch_id: String,
    serial_start: u64,
    serial_end: u64,
    metadata_cid: String,
)
    requires
        !s.locked,
        !s.paused,
        s.admin matches Some(a) && a@ == admin@,
        amount > 0,
        2000 <= vintage_year <= 2100,
        !s.batches.contains_key(batch_id@),
        batch_id@.len() > 0,
        project_id@.len() > 0,
        metadata_cid@.len() > 0,
        serial_start <= serial_end,
        serial_end - serial_start < u64::MAX,
        serial_end - serial_start + 1 == amount,
        forall|i: int|
            0 <= i < s.serial_registry.len() ==> !(serial_start <= #[trigger] s.serial_registry[i].end && serial_end
                >= s.serial_registry[i].start),
    ensures
        s.mint_credits(now, admin, project_id, amount, vintage_year, batch_id, serial_start, serial_end, metadata_cid) is Ok,
{
}

/// A retirement succeeds only on an unlocked, unpaused ledger, for a
/// positive amount of a stored batch that is neither fully retired nor
/// suspended, within its unretired credits, under a fresh retirement id. The
/// certificate it returns, and stores under that id, records exactly the
/// call: the id, batch, the batch's project and vintage, the amount, the
/// holder, beneficiary, reason, transaction hash and time. The batch's
/// retired count grows by `amount` and its status becomes `FullyRetired`
/// exactly when nothing is left; no other batch or certificate changes.
pub proof fn lemma_retire_result(
    s: CreditState,
    now: u64,
    holder: String,
    batch_id: String,
    amount: i128,
    retirement_reason: String,
    beneficiary: String,
    retirement_id: String,
    tx_hash: String,
)
    requires
        s.wf(),
        s.retire_credits(now, holder, batch_id, amount, retirement_reason, beneficiary, retirement_id, tx_hash) is Ok,
    ensures
        ({
            let (s1, cert) = s.retire_credits(
                now,
                holder,
                batch_id,
                amount,
                retirement_reason,
                beneficiary,
                retirement_id,
                tx_hash,
            ).unwrap();
            let k = batch_id@;
            let b = s.batches[k];
            &&& !s.locked && !s.paused && amount > 0
            &&& s.batches.contains_key(k)
            &&& b.status != CreditStatus::FullyRetired && b.status != CreditStatus::Suspended
            &&& amount <= b.amount - s.retired[k]
            &&& !s.retirements.contains_key(retirement_id@)
            &&& cert.retirement_id == retirement_id && cert.credit_batch_id == batch_id
            &&& cert.project_id == b.project_id && cert.vintage_year == b.vintage_year
            &&& cert.amount == amount && cert.retired_by == holder && cert.beneficiary == beneficiary
            &&& cert.retirement_reason == retirement_reason && cert.tx_hash == tx_hash && cert.retired_at == now
            &&& s1.retirements == s.retirements.insert(retirement_id@, cert)
            &&& s1.retired[k] == s.retired[k] + amount
            &&& s1.batches.contains_key(k)
            &&& s1.batches[k].status == (if s.retired[k] + amount == b.amount {
                CreditStatus::FullyRetired
            } else {
                CreditStatus::PartiallyRetired
            })
            &&& s1.batches[k].amount == b.amount && s1.batches[k].serial_start == b.serial_start
                && s1.batches[k].serial_end == b.serial_end && s1.batches[k].project_id == b.project_id
            &&& s1.batches.dom() == s.batches.dom()
            &&& forall|kk: Seq<char>| kk != k && s.batches.contains_key(kk) ==> #[trigger] s1.batches[kk] == s.batches[kk]
                && s1.retired[kk] == s.retired[kk]
            &&& s1.serial_registry == s.serial_registry
        }),
{
    assert(s.batch_ok(batch_id@));
}

/// Conversely, a retirement that meets those conditions (with non-empty
/// retirement id and transaction hash) succeeds.
pub proof fn lemma_retire_succeeds(
    s: CreditState,
    now: u64,
    holder: String,
    batch_id: String,
    amount: i128,
    retirement_reason: String,
    beneficiary: String,
    retirement_id: String,
    tx_hash: String,
)
    requires
        s.wf(),
        !s.locked,
        !s.paused,
        amount > 0,
        s.batches.contains_key(batch_id@),
        s.batches[batch_id@].status != CreditStatus::FullyRetired,
        s.batches[batch_id@].status != CreditStatus::Suspended,
        amount <= s.batches[batch_id@].amount - s.retired[batch_id@],
        !s.retirements.contains_key(retirement_id@),
        retirement_id@.len() > 0,
        tx_hash@.len() > 0,
    ensures
        s.retire_credits(now, holder, batch_id, amount, retirement_reason, beneficiary, retirement_id, tx_hash) is Ok,
{
    assert(s.batch_ok(batch_id@));
}

/// A transfer of a positive amount of a stored batch that is neither fully
/// retired nor suspended, on an unlocked and unpaused ledger, succeeds
/// exactly when the amount is at most the batch's unretired credits, and is
/// otherwise refused with `InsufficientCredits`. A transfer changes no batch,
/// retired count or certificate.
pub proof fn lemma_transfer_result(s: CreditState, from: String, to: String, batch_id: String, amount: i128)
    requires
        s.wf(),
        !s.locked,
        !s.paused,
        amount > 0,
        s.batches.contains_key(batch_id@),
        s.batches[batch_id@].status != CreditStatus::FullyRetired,
        s.batches[batch_id@].status != CreditStatus::Suspended,
    ensures
        s.transfer_credits(from, to, batch_id, amount) is Ok <==> amount <= s.batches[batch_id@].amount
            - s.retired[batch_id@],
        amount > s.batches[batch_id@].amount - s.retired[batch_id@] ==> s.transfer_credits(from, to, batch_id, amount)
            == Err::<CreditState, CarbonError>(CarbonError::InsufficientCredits),
        s.transfer_credits(from, to, batch_id, amount) is Ok ==> ({
            let s1 = s.transfer_credits(from, to, batch_id, amount).unwrap();
            &&& s1.batches == s.batches
            &&& s1.retired == s.retired
            &&& s1.retirements == s.retirements
        }),
{
}

/// Any transfer or retirement of more than a batch's unretired credits is
/// refused.
pub proof fn lemma_overdraw_refused(
    s: CreditState,
    now: u64,
    holder: String,
    to: String,
    batch_id: String,
    amount: i128,
    retirement_reason: String,
    beneficiary: String,
    retirement_id: String,
    tx_hash: String,
)
    requires
        s.wf(),
        s.batches.contains_key(batch_id@),
        amount > s.batches[batch_id@].amount - s.retired[batch_id@],
    ensures
        s.transfer_credits(holder, to, batch_id, amount) is Err,
        s.retire_credits(now, holder, batch_id, amount, retirement_reason, beneficiary, retirement_id, tx_hash) is Err,
{
    assert(s.batch_ok(batch_id@));
}

/// A queued pause records the admin, the reason, the `"contract"` target
/// and an execution time `now` plus the delay.
pub proof fn lemma_pause_queued(s: CreditState, now: u64, admin: String, op_id: String, reason: String, target: String)
    requires
        s.propose_pause(now, admin, op_id, reason, target) is Ok,
        now + s.timelock.delay <= u64::MAX,
    ensures
        ({
            let s1 = s.propose_pause(now, admin, op_id, reason, target).unwrap();
            let op = s1.timelock.ops[op_id@];
            &&& s.admin matches Some(a) && a@ == admin@
            &&& s1.timelock.ops.contains_key(op_id@)
            &&& op.op_id == op_id && op.action == GovAction::PauseContract && op.target == target
            &&& op.initiated_by == admin && op.payload == reason && op.eta == now + s.timelock.delay
            &&& s1.paused == s.paused
        }),
{
}

/// Anyone may contest a queued operation while its execution time lies
/// ahead: the contest succeeds exactly then (on an unlocked contract), and
/// files the contestant, the reason and the time under the operation's id,
/// leaving the queued operation itself as it was.
pub proof fn lemma_contest_recorded(s: CreditState, now: u64, contestant: String, op_id: String, reason: String)
    ensures
        s.contest_operation(now, contestant, op_id, reason) is Ok <==> (!s.locked && s.timelock.ops.contains_key(op_id@)
            && now < s.timelock.ops[op_id@].eta),
        s.contest_operation(now, contestant, op_id, reason) is Ok ==> ({
            let s1 = s.contest_operation(now, contestant, op_id, reason).unwrap();
            let c = s1.timelock.contests[op_id@];
            &&& s1.timelock.contests.contains_key(op_id@)
            &&& c.op_id == op_id && c.contested_by == contestant && c.reason == reason && c.contested_at == now
            &&& s1.timelock.ops == s.timelock.ops
        }),
{
}

/// What `credits_of` collects from `ids`: batches of project `pid` read at
/// those ids, and every such batch.
proof fn lemma_credits_of_members(batches: Map<Seq<char>, CreditBatch>, ids: Seq<String>, pid: Seq<char>)
    ensures
        forall|i: int|
            0 <= i < credits_of(batches, ids, pid).len() ==> (#[trigger] credits_of(batches, ids, pid)[i]).project_id@
                == pid && exists|j: int| 0 <= j < ids.len() && credits_of(batches, ids, pid)[i] == batches[ids[j]@],
        forall|j: int|
            0 <= j < ids.len() && (#[trigger] batches[ids[j]@]).project_id@ == pid ==> exists|i: int|
                0 <= i < credits_of(batches, ids, pid).len() && credits_of(batches, ids, pid)[i] == batches[ids[j]@],
    decreases ids.len(),
{
    if ids.len() > 0 {
        let d = ids.drop_last();
        lemma_credits_of_members(batches, d, pid);
        let rest = credits_of(batches, d, pid);
        let r = credits_of(batches, ids, pid);
        let last = ids.len() - 1;
        assert forall|i: int| 0 <= i < r.len() implies (#[trigger] r[i]).project_id@ == pid && exists|j: int|
            0 <= j < ids.len() && r[i] == batches[ids[j]@] by {
            if i < rest.len() {
                assert(r[i] == rest[i]);
                let j = choose|j: int| 0 <= j < d.len() && rest[i] == batches[d[j]@];
                assert(d[j] == ids[j]);
            } else {
                assert(r[i] == batches[ids[last]@]);
            }
        }
        assert forall|j: int| 0 <= j < ids.len() && (#[trigger] batches[ids[j]@]).project_id@ == pid implies exists|
            i: int,
        | 0 <= i < r.len() && r[i] == batches[ids[j]@] by {
            if j < last {
                assert(d[j] == ids[j]);
                assert(batches[d[j]@].project_id@ == pid);
                let i = choose|i: int| 0 <= i < rest.len() && rest[i] == batches[d[j]@];
                assert(r[i] == rest[i]);
            } else {
                assert(r[rest.len() as int] == batches[ids[last]@]);
            }
        }
    }
}

/// The credits of a project are exactly its stored batches: every batch
/// listed belongs to the project and is stored as listed, and every stored
/// batch of the project is listed.
pub proof fn lemma_project_credits_exact(s: CreditState, project_id: Seq<char>)
    requires
        s.wf(),
    ensures
        forall|i: int|
            0 <= i < s.get_project_credits(project_id).len() ==> (#[trigger] s.get_project_credits(project_id)[i]).project_id@
                == project_id && s.batches.contains_key(s.get_project_credits(project_id)[i].batch_id@)
                && s.batches[s.get_project_credits(project_id)[i].batch_id@] == s.get_project_credits(project_id)[i],
        forall|k: Seq<char>|
            #[trigger] s.batches.contains_key(k) && s.batches[k].project_id@ == project_id ==> exists|i: int|
                0 <= i < s.get_project_credits(project_id).len() && s.get_project_credits(project_id)[i] == s.batches[k],
{
    lemma_credits_of_members(s.batches, s.mint_order, project_id);
    let r = s.get_project_credits(project_id);
    assert forall|i: int| 0 <= i < r.len() implies (#[trigger] r[i]).project_id@ == project_id && s.batches.contains_key(
        r[i].batch_id@,
    ) && s.batches[r[i].batch_id@] == r[i] by {
        let j = choose|j: int| 0 <= j < s.mint_order.len() && r[i] == s.batches[s.mint_order[j]@];
        assert(s.batches.contains_key(s.mint_order[j]@));
        assert(s.batch_ok(s.mint_order[j]@));
    }
    assert forall|k: Seq<char>| #[trigger] s.batches.contains_key(k) && s.batches[k].project_id@ == project_id implies exists|
        i: int,
    | 0 <= i < r.len() && r[i] == s.batches[k] by {
        let j = choose|j: int| 0 <= j < s.mint_order.len() && #[trigger] s.mint_order[j]@ == k;
        assert(s.batches[s.mint_order[j]@].project_id@ == project_id);
    }
}

/// The readers return what is stored: a batch, a certificate, a queued
/// operation or a contest when one is stored under the id, and
/// `ProjectNotFound` otherwise.
pub proof fn lemma_reads(s: CreditState, id: Seq<char>)
    ensures
        s.batches.contains_key(id) ==> s.get_credit_batch(id) == Ok::<CreditBatch, CarbonError>(s.batches[id]),
        !s.batches.contains_key(id) ==> s.get_credit_batch(id) == Err::<CreditBatch, CarbonError>(CarbonError::ProjectNotFound),
        s.retirements.contains_key(id) ==> s.get_retirement_certificate(id) == Ok::<CertificateView, CarbonError>(
            s.retirements[id],
        ),
        !s.retirements.contains_key(id) ==> s.get_retirement_certificate(id) == Err::<CertificateView, CarbonError>(
            CarbonError::ProjectNotFound,
        ),
        s.timelock.ops.contains_key(id) ==> s.get_pending_op(id) == Ok::<PendingOp, CarbonError>(s.timelock.ops[id]),
        !s.timelock.ops.contains_key(id) ==> s.get_pending_op(id) is Err,
        s.timelock.contests.contains_key(id) ==> s.get_contest(id) == Ok::<ContestRecord, CarbonError>(
            s.timelock.contests[id],
        ),
        !s.timelock.contests.contains_key(id) ==> s.get_contest(id) is Err,
{
}

/// A delay change succeeds only with a positive delay, and from then on
/// operations wait exactly that long; queued operations keep their times.
pub proof fn lemma_delay_set(s: CreditState, admin: String, delay_secs: u64)
    requires
        s.set_timelock_delay(admin, delay_secs) is Ok,
    ensures
        delay_secs > 0,
        s.set_timelock_delay(admin, delay_secs).unwrap().timelock.delay == delay_secs,
        s.set_timelock_delay(admin, delay_secs).unwrap().timelock.ops == s.timelock.ops,
{
}

} // verus!
