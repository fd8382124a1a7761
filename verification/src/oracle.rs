//! The oracle: authorised monitoring reports per project and period,
//! benchmark prices cached for a day, project flags, and a time-locked
//! price-update queue.
use vstd::hash_map::StringHashMap;
use vstd::prelude::*;

use crate::keyed::{has_key, keys_unique, lemma_to_map_at, lemma_to_map_push, lemma_to_map_update, to_map};
use crate::timelock::{Timelock, TimelockRefusal, TimelockState};

verus! {

/// Monitoring data older than this many seconds (365 days) is stale.
pub const MONITORING_FRESHNESS_SECS: u64 = 31_536_000;

/// Number of ledgers (about 24 hours) a benchmark price stays readable.
pub const PRICE_CACHE_TTL_LEDGERS: u32 = 17_280;

/// Errors returned by the oracle.
#[derive(Clone, Copy, Debug, PartialEq, Eq, Structural, PartialOrd, Ord)]
pub enum CarbonError {
    ProjectNotFound,
    ProjectNotVerified,
    ProjectSuspended,
    InsufficientCredits,
    AlreadyRetired,
    SerialNumberConflict,
    UnauthorizedVerifier,
    UnauthorizedOracle,
    InvalidVintageYear,
    ListingNotFound,
    InsufficientLiquidity,
    PriceNotSet,
    MonitoringDataStale,
    DoubleCountingDetected,
    RetirementIrreversible,
    ZeroAmountNotAllowed,
    ProjectAlreadyExists,
    InvalidSerialRange,
    AlreadyInitialized,
    ReentrancyGuard,
}

impl CarbonError {
    /// The numeric code of the error on the ledger.
    pub open spec fn spec_code(self) -> u32 {
        match self {
            CarbonError::ProjectNotFound => 1,
            CarbonError::ProjectNotVerified => 2,
            CarbonError::ProjectSuspended => 3,
            CarbonError::InsufficientCredits => 4,
            CarbonError::AlreadyRetired => 5,
            CarbonError::SerialNumberConflict => 6,
            CarbonError::UnauthorizedVerifier => 7,
            CarbonError::UnauthorizedOracle => 8,
            CarbonError::InvalidVintageYear => 9,
            CarbonError::ListingNotFound => 10,
            CarbonError::InsufficientLiquidity => 11,
            CarbonError::PriceNotSet => 12,
            CarbonError::MonitoringDataStale => 13,
            CarbonError::DoubleCountingDetected => 14,
            CarbonError::RetirementIrreversible => 15,
            CarbonError::ZeroAmountNotAllowed => 16,
            CarbonError::ProjectAlreadyExists => 17,
            CarbonError::InvalidSerialRange => 18,
            CarbonError::AlreadyInitialized => 19,
            CarbonError::ReentrancyGuard => 20,
        }
    }

    /// The numeric code of the error on the ledger.
    pub fn code(&self) -> (c: u32)
        ensures
            c == self.spec_code(),
    {
        match self {
            CarbonError::ProjectNotFound => 1,
            CarbonError::ProjectNotVerified => 2,
            CarbonError::ProjectSuspended => 3,
            CarbonError::InsufficientCredits => 4,
            CarbonError::AlreadyRetired => 5,
            CarbonError::SerialNumberConflict => 6,
            CarbonError::UnauthorizedVerifier => 7,
            CarbonError::UnauthorizedOracle => 8,
            CarbonError::InvalidVintageYear => 9,
            CarbonError::ListingNotFound => 10,
            CarbonError::InsufficientLiquidity => 11,
            CarbonError::PriceNotSet => 12,
            CarbonError::MonitoringDataStale => 13,
            CarbonError::DoubleCountingDetected => 14,
            CarbonError::RetirementIrreversible => 15,
            CarbonError::ZeroAmountNotAllowed => 16,
            CarbonError::ProjectAlreadyExists => 17,
            CarbonError::InvalidSerialRange => 18,
            CarbonError::AlreadyInitialized => 19,
            CarbonError::ReentrancyGuard => 20,
        }
    }
}

/// A monitoring report for one project and period.
#[derive(Clone, Debug)]
pub struct MonitoringData {
    pub project_id: String,
    pub period: String,
    pub tonnes_verified: i128,
    pub methodology_score: u32,
    pub satellite_cid: String,
    pub submitted_by: String,
    pub submitted_at: u64,
}

/// A benchmark price for a methodology and vintage, readable up to and
/// including ledger `live_until_ledger`.
#[derive(Clone, Debug)]
pub struct CachedPrice {
    pub methodology: String,
    pub vintage_year: u32,
    pub price_usdc: i128,
    pub live_until_ledger: u64,
}

/// Why a monitoring report is malformed, if it is: the first of its
/// invariants that fails.
pub open spec fn monitoring_error(d: MonitoringData) -> Option<CarbonError> {
    if d.project_id@.len() == 0 || d.period@.len() == 0 || d.satellite_cid@.len() == 0 {
        Some(CarbonError::ProjectNotFound)
    } else if d.tonnes_verified <= 0 {
        Some(CarbonError::ZeroAmountNotAllowed)
    } else if d.methodology_score > 100 {
        Some(CarbonError::InvalidVintageYear)
    } else {
        None
    }
}

fn validate_monitoring(d: &MonitoringData) -> (r: Option<CarbonError>)
    ensures
        r == monitoring_error(*d),
{
    if d.project_id.as_str().is_empty() || d.period.as_str().is_empty() || d.satellite_cid.as_str().is_empty() {
        Some(CarbonError::ProjectNotFound)
    } else if d.tonnes_verified <= 0 {
        Some(CarbonError::ZeroAmountNotAllowed)
    } else if d.methodology_score > 100 {
        Some(CarbonError::InvalidVintageYear)
    } else {
        None
    }
}

/// A price proposed through the time-lock, waiting for its operation to run.
#[derive(Clone, Debug)]
pub struct StagedPrice {
    pub methodology: String,
    pub vintage_year: u32,
    pub price_usdc: i128,
}

/// Key of a monitoring report: its project and period.
pub open spec fn monitoring_key() -> spec_fn(MonitoringData) -> (Seq<char>, Seq<char>) {
    |d: MonitoringData| (d.project_id@, d.period@)
}

/// Key of a cached price: its methodology and vintage.
pub open spec fn price_key() -> spec_fn(CachedPrice) -> (Seq<char>, u32) {
    |p: CachedPrice| (p.methodology@, p.vintage_year)
}

/// Governance operations of the oracle subject to the time-lock.
#[derive(Clone, Copy, Debug, PartialEq, Eq, Structural)]
pub enum GovAction {
    UpdateCreditPrice,
    ChangeTimelockDelay,
}

/// A pending governance operation of the oracle.
pub type PendingOp = crate::timelock::PendingOp<GovAction>;

pub use crate::timelock::ContestRecord;

/// Events the oracle publishes, in the order they happened.
#[derive(Clone, Debug)]
pub enum OracleEvent {
    /// A report scored below 70.
    LowScore { project_id: String, methodology_score: u32 },
    MonitoringSubmitted { project_id: String, period: String, tonnes_verified: i128, methodology_score: u32 },
    PriceUpdated { methodology: String, vintage_year: u32, price_usdc: i128 },
    ProjectFlagged { project_id: String, oracle: String, reason: String },
    PriceUpdateQueued { op_id: String, oracle: String, methodology: String, vintage_year: u32, price_usdc: i128 },
    PriceUpdateExecuted { op_id: String, oracle: String },
    Contested { op_id: String, contestant: String, reason: String },
    RolledBack { op_id: String, oracle: String },
}

/// Maps a time-lock refusal to the error the oracle reports.
pub open spec fn refusal_error(r: TimelockRefusal) -> CarbonError {
    match r {
        TimelockRefusal::OpNotFound => CarbonError::ProjectNotFound,
        TimelockRefusal::Contested => CarbonError::RetirementIrreversible,
        TimelockRefusal::TooEarly => CarbonError::RetirementIrreversible,
        TimelockRefusal::WindowClosed => CarbonError::AlreadyRetired,
    }
}

fn to_error(r: TimelockRefusal) -> (e: CarbonError)
    ensures
        e == refusal_error(r),
{
    match r {
        TimelockRefusal::OpNotFound => CarbonError::ProjectNotFound,
        TimelockRefusal::Contested => CarbonError::RetirementIrreversible,
        TimelockRefusal::TooEarly => CarbonError::RetirementIrreversible,
        TimelockRefusal::WindowClosed => CarbonError::AlreadyRetired,
    }
}

/// Abstract state of the oracle.
pub struct OracleState {
    pub admin: Option<String>,
    pub oracle: Option<String>,
    pub monitoring: Map<(Seq<char>, Seq<char>), MonitoringData>,
    /// Time of the latest report, per project.
    pub latest_monitoring: Map<Seq<char>, u64>,
    pub prices: Map<(Seq<char>, u32), CachedPrice>,
    /// Reason each flagged project was flagged for.
    pub flagged: Map<Seq<char>, String>,
    pub timelock: TimelockState<GovAction>,
    /// Proposed prices, per operation id; one becomes readable only when its
    /// operation runs.
    pub staged: Map<Seq<char>, StagedPrice>,
    pub locked: bool,
    pub events: Seq<OracleEvent>,
}

impl OracleState {
    /// The oracle as deployed, before `initialize`.
    pub open spec fn initial() -> OracleState {
        OracleState {
            admin: None,
            oracle: None,
            monitoring: Map::empty(),
            latest_monitoring: Map::empty(),
            prices: Map::empty(),
            flagged: Map::empty(),
            timelock: TimelockState::initial(),
            staged: Map::empty(),
            locked: false,
            events: Seq::empty(),
        }
    }

    pub open spec fn is_oracle(self, caller: String) -> bool {
        self.oracle matches Some(o) && o@ == caller@
    }

    /// Why a call by `caller` to an oracle-only function is refused before any other check.
    pub open spec fn oracle_gate(self, caller: String) -> Option<CarbonError> {
        if self.locked {
            Some(CarbonError::ReentrancyGuard)
        } else if !self.is_oracle(caller) {
            Some(CarbonError::UnauthorizedOracle)
        } else {
            None
        }
    }

    /// The oracle with `price` cached for `methodology` and `vintage_year` from ledger `ledger` on.
    pub open spec fn with_price(self, ledger: u32, methodology: String, vintage_year: u32, price_usdc: i128) -> OracleState {
        let entry = CachedPrice {
            methodology,
            vintage_year,
            price_usdc,
            live_until_ledger: (ledger + PRICE_CACHE_TTL_LEDGERS) as u64,
        };
        OracleState { prices: self.prices.insert((methodology@, vintage_year), entry), ..self }
    }

    pub open spec fn initialize(self, admin: String, oracle_address: String) -> Result<OracleState, CarbonError> {
        if self.admin is Some {
            Err(CarbonError::AlreadyInitialized)
        } else {
            Ok(OracleState { admin: Some(admin), oracle: Some(oracle_address), ..self })
        }
    }

    pub open spec fn submit_monitoring_data(
        self,
        now: u64,
        oracle_signer: String,
        project_id: String,
        period: String,
        tonnes_verified: i128,
        methodology_score: u32,
        satellite_cid: String,
    ) -> Result<OracleState, CarbonError> {
        let data = MonitoringData {
            project_id,
            period,
            tonnes_verified,
            methodology_score,
            satellite_cid,
            submitted_by: oracle_signer,
            submitted_at: now,
        };
        let warned = if methodology_score < 70 {
            self.events.push(OracleEvent::LowScore { project_id, methodology_score })
        } else {
            self.events
        };
        if let Some(e) = self.oracle_gate(oracle_signer) {
            Err(e)
        } else if tonnes_verified <= 0 {
            Err(CarbonError::ZeroAmountNotAllowed)
        } else if let Some(e) = monitoring_error(data) {
            Err(e)
        } else {
            Ok(
                OracleState {
                    monitoring: self.monitoring.insert((project_id@, period@), data),
                    latest_monitoring: self.latest_monitoring.insert(project_id@, now),
                    events: warned.push(
                        OracleEvent::MonitoringSubmitted { project_id, period, tonnes_verified, methodology_score },
                    ),
                    ..self
                },
            )
        }
    }

    pub open spec fn update_credit_price(
        self,
        ledger: u32,
        oracle_signer: String,
        methodology: String,
        vintage_year: u32,
        price_usdc: i128,
    ) -> Result<OracleState, CarbonError> {
        if let Some(e) = self.oracle_gate(oracle_signer) {
            Err(e)
        } else if price_usdc <= 0 {
            Err(CarbonError::ZeroAmountNotAllowed)
        } else {
            let s = self.with_price(ledger, methodology, vintage_year, price_usdc);
            Ok(
                OracleState {
                    events: self.events.push(OracleEvent::PriceUpdated { methodology, vintage_year, price_usdc }),
                    ..s
                },
            )
        }
    }

    pub open spec fn get_monitoring_data(self, project_id: Seq<char>, period: Seq<char>) -> Result<
        MonitoringData,
        CarbonError,
    > {
        if self.monitoring.contains_key((project_id, period)) {
            Ok(self.monitoring[(project_id, period)])
        } else {
            Err(CarbonError::ProjectNotFound)
        }
    }

    pub open spec fn get_benchmark_price(self, ledger: u32, methodology: Seq<char>, vintage_year: u32) -> Result<
        i128,
        CarbonError,
    > {
        if self.prices.contains_key((methodology, vintage_year)) && ledger
            <= self.prices[(methodology, vintage_year)].live_until_ledger {
            Ok(self.prices[(methodology, vintage_year)].price_usdc)
        } else {
            Err(CarbonError::PriceNotSet)
        }
    }

    pub open spec fn flag_project(self, oracle_signer: String, project_id: String, reason: String) -> Result<
        OracleState,
        CarbonError,
    > {
        if let Some(e) = self.oracle_gate(oracle_signer) {
            Err(e)
        } else {
            Ok(
                OracleState {
                    flagged: self.flagged.insert(project_id@, reason),
                    events: self.events.push(OracleEvent::ProjectFlagged { project_id, oracle: oracle_signer, reason }),
                    ..self
                },
            )
        }
    }

    /// Whether the latest report on `project_id` is at most 365 days old at `now`.
    pub open spec fn is_monitoring_current(self, now: u64, project_id: Seq<char>) -> bool {
        self.latest_monitoring.contains_key(project_id) && (if now >= self.latest_monitoring[project_id] {
            now - self.latest_monitoring[project_id]
        } else {
            0
        }) <= MONITORING_FRESHNESS_SECS
    }

    /// The operation `propose_price_update` queues; `payload` is the literal "price_update".
    pub open spec fn price_op(self, now: u64, oracle_signer: String, op_id: String, methodology: String, payload: String) -> PendingOp {
        PendingOp {
            op_id,
            action: GovAction::UpdateCreditPrice,
            target: methodology,
            initiated_by: oracle_signer,
            eta: (now + self.timelock.delay) as u64,
            payload,
        }
    }

    /// Why `propose_price_update` is refused, if it is.
    pub open spec fn propose_price_error(self, oracle_signer: String, new_price_usdc: i128) -> Option<CarbonError> {
        if let Some(e) = self.oracle_gate(oracle_signer) {
            Some(e)
        } else if new_price_usdc <= 0 {
            Some(CarbonError::ZeroAmountNotAllowed)
        } else {
            None
        }
    }

    pub open spec fn propose_price_update(
        self,
        now: u64,
        oracle_signer: String,
        op_id: String,
        methodology: String,
        vintage_year: u32,
        new_price_usdc: i128,
        payload: String,
    ) -> Result<OracleState, CarbonError> {
        if let Some(e) = self.propose_price_error(oracle_signer, new_price_usdc) {
            Err(e)
        } else {
            Ok(
                OracleState {
                    timelock: self.timelock.with_op(self.price_op(now, oracle_signer, op_id, methodology, payload)),
                    staged: self.staged.insert(
                        op_id@,
                        StagedPrice { methodology, vintage_year, price_usdc: new_price_usdc },
                    ),
                    events: self.events.push(
                        OracleEvent::PriceUpdateQueued {
                            op_id,
                            oracle: oracle_signer,
                            methodology,
                            vintage_year,
                            price_usdc: new_price_usdc,
                        },
                    ),
                    ..self
                },
            )
        }
    }

    /// The oracle with the price staged under `op_id`, if any, made readable
    /// from ledger `ledger` on.
    pub open spec fn with_staged_price(self, ledger: u32, op_id: Seq<char>) -> OracleState {
        if self.staged.contains_key(op_id) {
            let p = self.staged[op_id];
            self.with_price(ledger, p.methodology, p.vintage_year, p.price_usdc)
        } else {
            self
        }
    }

    pub open spec fn execute_price_update(self, now: u64, ledger: u32, oracle_signer: String, op_id: String) -> Result<
        OracleState,
        CarbonError,
    > {
        if let Some(e) = self.oracle_gate(oracle_signer) {
            Err(e)
        } else if let Some(r) = self.timelock.execution_refusal(op_id@, now) {
            Err(refusal_error(r))
        } else {
            let s = self.with_staged_price(ledger, op_id@);
            Ok(
                OracleState {
                    timelock: self.timelock.without_op(op_id@),
                    staged: self.staged.remove(op_id@),
                    events: self.events.push(OracleEvent::PriceUpdateExecuted { op_id, oracle: oracle_signer }),
                    ..s
                },
            )
        }
    }

    pub open spec fn contest_operation(self, now: u64, contestant: String, op_id: String, reason: String) -> Result<
        OracleState,
        CarbonError,
    > {
        if self.locked {
            Err(CarbonError::ReentrancyGuard)
        } else if let Some(r) = self.timelock.contest_refusal(op_id@, now) {
            Err(refusal_error(r))
        } else {
            let record = ContestRecord { op_id, contested_by: contestant, reason, contested_at: now };
            Ok(
                OracleState {
                    timelock: self.timelock.with_contest(record),
                    events: self.events.push(OracleEvent::Contested { op_id, contestant, reason }),
                    ..self
                },
            )
        }
    }

    pub open spec fn rollback_operation(self, oracle_signer: String, op_id: String) -> Result<OracleState, CarbonError> {
        if let Some(e) = self.oracle_gate(oracle_signer) {
            Err(e)
        } else if !self.timelock.ops.contains_key(op_id@) {
            Err(CarbonError::ProjectNotFound)
        } else {
            Ok(
                OracleState {
                    timelock: self.timelock.cancelled(op_id@),
                    staged: self.staged.remove(op_id@),
                    events: self.events.push(OracleEvent::RolledBack { op_id, oracle: oracle_signer }),
                    ..self
                },
            )
        }
    }

    pub open spec fn get_pending_op(self, op_id: Seq<char>) -> Result<PendingOp, CarbonError> {
        if self.timelock.ops.contains_key(op_id) {
            Ok(self.timelock.ops[op_id])
        } else {
            Err(CarbonError::ProjectNotFound)
        }
    }

    pub open spec fn get_contest(self, op_id: Seq<char>) -> Result<ContestRecord, CarbonError> {
        if self.timelock.contests.contains_key(op_id) {
            Ok(self.timelock.contests[op_id])
        } else {
            Err(CarbonError::ProjectNotFound)
        }
    }

    pub open spec fn set_timelock_delay(self, oracle_signer: String, delay_secs: u64) -> Result<OracleState, CarbonError> {
        if let Some(e) = self.oracle_gate(oracle_signer) {
            Err(e)
        } else if delay_secs == 0 {
            Err(CarbonError::ZeroAmountNotAllowed)
        } else {
            Ok(OracleState { timelock: self.timelock.with_delay(delay_secs), ..self })
        }
    }
}

/// The oracle contract.
pub struct CarbonOracleContract {
    admin: Option<String>,
    oracle: Option<String>,
    monitoring: Vec<MonitoringData>,
    latest_monitoring: StringHashMap<u64>,
    prices: Vec<CachedPrice>,
    flagged: StringHashMap<String>,
    timelock: Timelock<GovAction>,
    staged: StringHashMap<StagedPrice>,
    locked: bool,
    events: Vec<OracleEvent>,
}

impl View for CarbonOracleContract {
    type V = OracleState;

    closed spec fn view(&self) -> OracleState {
        OracleState {
            admin: self.admin,
            oracle: self.oracle,
            monitoring: to_map(self.monitoring@, monitoring_key()),
            latest_monitoring: self.latest_monitoring@,
            prices: to_map(self.prices@, price_key()),
            flagged: self.flagged@,
            timelock: self.timelock@,
            staged: self.staged@,
            locked: self.locked,
            events: self.events@,
        }
    }
}

impl CarbonOracleContract {
    /// The oracle's invariant: its keyed tables hold one record per key.
    pub closed spec fn wf(&self) -> bool {
        &&& keys_unique(self.monitoring@, monitoring_key())
        &&& keys_unique(self.prices@, price_key())
    }

    /// A freshly deployed oracle, not yet initialized.
    pub fn new() -> (c: Self)
        ensures
            c@ == OracleState::initial(),
            c.wf(),
    {
        let c = CarbonOracleContract {
            admin: None,
            oracle: None,
            monitoring: Vec::new(),
            latest_monitoring: StringHashMap::new(),
            prices: Vec::new(),
            flagged: StringHashMap::new(),
            timelock: Timelock::new(),
            staged: StringHashMap::new(),
            locked: false,
            events: Vec::new(),
        };
        assert(c@.monitoring =~= Map::empty());
        assert(c@.prices =~= Map::empty());
        c
    }

    /// Events published so far, oldest first.
    pub fn events(&self) -> (r: &Vec<OracleEvent>)
        ensures
            r@ == self@.events,
    {
        &self.events
    }

    fn acquire_lock(&mut self) -> (r: Result<(), CarbonError>)
        ensures
            old(self).locked ==> r == Err::<(), CarbonError>(CarbonError::ReentrancyGuard) && *final(self) == *old(self),
            !old(self).locked ==> r is Ok && *final(self) == (CarbonOracleContract { locked: true, ..*old(self) }),
    {
        if self.locked {
            return Err(CarbonError::ReentrancyGuard);
        }
        self.locked = true;
        Ok(())
    }

    fn release_lock(&mut self)
        ensures
            *final(self) == (CarbonOracleContract { locked: false, ..*old(self) }),
    {
        self.locked = false;
    }

    fn is_oracle(&self, caller: &String) -> (r: bool)
        ensures
            r == self@.is_oracle(*caller),
    {
        match &self.oracle {
            Some(o) => *o == *caller,
            None => false,
        }
    }

    /// Index of the report on `project_id` and `period`, if any.
    fn find_monitoring(&self, project_id: &String, period: &String) -> (r: Option<usize>)
        ensures
            match r {
                Some(i) => i < self.monitoring@.len() && monitoring_key()(self.monitoring@[i as int]) == (
                    project_id@,
                    period@,
                ),
                None => !has_key(self.monitoring@, monitoring_key(), (project_id@, period@)),
            },
    {
        let mut i: usize = 0;
        while i < self.monitoring.len()
            invariant
                i <= self.monitoring@.len(),
                forall|j: int| 0 <= j < i ==> monitoring_key()(#[trigger] self.monitoring@[j]) != (project_id@, period@),
            decreases self.monitoring@.len() - i,
        {
            let d = &self.monitoring[i];
            if d.project_id == *project_id && d.period == *period {
                return Some(i);
            }
            i = i + 1;
        }
        None
    }

    /// Index of the cached price for `methodology` and `vintage_year`, if any.
    fn find_price(&self, methodology: &String, vintage_year: u32) -> (r: Option<usize>)
        ensures
            match r {
                Some(i) => i < self.prices@.len() && price_key()(self.prices@[i as int]) == (methodology@, vintage_year),
                None => !has_key(self.prices@, price_key(), (methodology@, vintage_year)),
            },
    {
        let mut i: usize = 0;
        while i < self.prices.len()
            invariant
                i <= self.prices@.len(),
                forall|j: int| 0 <= j < i ==> price_key()(#[trigger] self.prices@[j]) != (methodology@, vintage_year),
            decreases self.prices@.len() - i,
        {
            let p = &self.prices[i];
            if p.methodology == *methodology && p.vintage_year == vintage_year {
                return Some(i);
            }
            i = i + 1;
        }
        None
    }

    /// Stores `data` under its project and period, replacing any earlier report.
    fn store_monitoring(&mut self, data: MonitoringData)
        requires
            old(self).wf(),
        ensures
            final(self).wf(),
            final(self)@ == (OracleState {
                monitoring: old(self)@.monitoring.insert((data.project_id@, data.period@), data),
                ..old(self)@
            }),
    {
        let ghost s = self.monitoring@;
        match self.find_monitoring(&data.project_id, &data.period) {
            Some(i) => {
                self.monitoring.set(i, data);
                proof {
                    lemma_to_map_update(s, monitoring_key(), i as int, data);
                }
            },
            None => {
                self.monitoring.push(data);
                proof {
                    lemma_to_map_push(s, monitoring_key(), data);
                }
            },
        }
    }

    /// Caches `entry` under its methodology and vintage, replacing any earlier price.
    fn store_price(&mut self, entry: CachedPrice)
        requires
            old(self).wf(),
        ensures
            final(self).wf(),
            final(self)@ == (OracleState {
                prices: old(self)@.prices.insert((entry.methodology@, entry.vintage_year), entry),
                ..old(self)@
            }),
    {
        let ghost s = self.prices@;
        match self.find_price(&entry.methodology, entry.vintage_year) {
            Some(i) => {
                self.prices.set(i, entry);
                proof {
                    lemma_to_map_update(s, price_key(), i as int, entry);
                }
            },
            None => {
                self.prices.push(entry);
                proof {
                    lemma_to_map_push(s, price_key(), entry);
                }
            },
        }
    }

    /// Sets the admin and the oracle signer; only the first call succeeds.
    pub fn initialize(&mut self, admin: String, oracle_address: String) -> (r: Result<(), CarbonError>)
        requires
            old(self).wf(),
        ensures
            final(self).wf(),
            match r {
                Ok(()) => old(self)@.initialize(admin, oracle_address) == Ok::<OracleState, CarbonError>(final(self)@),
                Err(e) => old(self)@.initialize(admin, oracle_address) == Err::<OracleState, CarbonError>(e)
                    && final(self)@ == old(self)@,
            },
    {
        if self.admin.is_some() {
            return Err(CarbonError::AlreadyInitialized);
        }
        self.admin = Some(admin);
        self.oracle = Some(oracle_address);
        Ok(())
    }

    /// The oracle signer submits a monitoring report for a project and period.
    /// A score below 70 also publishes a low-score warning.
    pub fn submit_monitoring_data(
        &mut self,
        now: u64,
        oracle_signer: String,
        project_id: String,
        period: String,
        tonnes_verified: i128,
        methodology_score: u32,
        satellite_cid: String,
    ) -> (r: Result<(), CarbonError>)
        requires
            old(self).wf(),
        ensures
            final(self).wf(),
            match r {
                Ok(()) => old(self)@.submit_monitoring_data(
                    now,
                    oracle_signer,
                    project_id,
                    period,
                    tonnes_verified,
                    methodology_score,
                    satellite_cid,
                ) == Ok::<OracleState, CarbonError>(final(self)@),
                Err(e) => old(self)@.submit_monitoring_data(
                    now,
                    oracle_signer,
                    project_id,
                    period,
                    tonnes_verified,
                    methodology_score,
                    satellite_cid,
                ) == Err::<OracleState, CarbonError>(e) && final(self)@ == old(self)@,
            },
    {
        let ghost s0 = self@;
        self.acquire_lock()?;
        assert(!s0.locked);
        if !self.is_oracle(&oracle_signer) {
            self.release_lock();
            return Err(CarbonError::UnauthorizedOracle);
        }
        if tonnes_verified <= 0 {
            self.release_lock();
            return Err(CarbonError::ZeroAmountNotAllowed);
        }
        let data = MonitoringData {
            project_id: project_id.clone(),
            period: period.clone(),
            tonnes_verified,
            methodology_score,
            satellite_cid,
            submitted_by: oracle_signer,
            submitted_at: now,
        };
        if let Some(e) = validate_monitoring(&data) {
            self.release_lock();
            return Err(e);
        }
        self.store_monitoring(data);
        self.latest_monitoring.insert(project_id.clone(), now);
        if methodology_score < 70 {
            self.events.push(OracleEvent::LowScore { project_id: project_id.clone(), methodology_score });
        }
        self.events.push(OracleEvent::MonitoringSubmitted { project_id, period, tonnes_verified, methodology_score });
        self.release_lock();
        Ok(())
    }

    /// The oracle signer caches a benchmark price, readable for the next
    /// `PRICE_CACHE_TTL_LEDGERS` ledgers.
    pub fn update_credit_price(
        &mut self,
        ledger: u32,
        oracle_signer: String,
        methodology: String,
        vintage_year: u32,
        price_usdc: i128,
    ) -> (r: Result<(), CarbonError>)
        requires
            old(self).wf(),
        ensures
            final(self).wf(),
            match r {
                Ok(()) => old(self)@.update_credit_price(ledger, oracle_signer, methodology, vintage_year, price_usdc)
                    == Ok::<OracleState, CarbonError>(final(self)@),
                Err(e) => old(self)@.update_credit_price(ledger, oracle_signer, methodology, vintage_year, price_usdc)
                    == Err::<OracleState, CarbonError>(e) && final(self)@ == old(self)@,
            },
    {
        let ghost s0 = self@;
        self.acquire_lock()?;
        assert(!s0.locked);
        if !self.is_oracle(&oracle_signer) {
            self.release_lock();
            return Err(CarbonError::UnauthorizedOracle);
        }
        if price_usdc <= 0 {
            self.release_lock();
            return Err(CarbonError::ZeroAmountNotAllowed);
        }
        let entry = CachedPrice {
            methodology: methodology.clone(),
            vintage_year,
            price_usdc,
            live_until_ledger: ledger as u64 + PRICE_CACHE_TTL_LEDGERS as u64,
        };
        self.store_price(entry);
        self.events.push(OracleEvent::PriceUpdated { methodology, vintage_year, price_usdc });
        self.release_lock();
        Ok(())
    }

    /// The report on `project_id` for `period`.
    pub fn get_monitoring_data(&self, project_id: &str, period: &str) -> (r: Result<&MonitoringData, CarbonError>)
        requires
            self.wf(),
        ensures
            match r {
                Ok(d) => self@.get_monitoring_data(project_id@, period@) == Ok::<MonitoringData, CarbonError>(*d),
                Err(e) => self@.get_monitoring_data(project_id@, period@) == Err::<MonitoringData, CarbonError>(e),
            },
    {
        let project_id = project_id.to_owned();
        let period = period.to_owned();
        match self.find_monitoring(&project_id, &period) {
            Some(i) => {
                proof {
                    lemma_to_map_at(self.monitoring@, monitoring_key(), i as int);
                }
                Ok(&self.monitoring[i])
            },
            None => Err(CarbonError::ProjectNotFound),
        }
    }

    /// The benchmark price for `methodology` and `vintage_year` at ledger `ledger`,
    /// unless none was cached or it has expired.
    pub fn get_benchmark_price(&self, ledger: u32, methodology: &str, vintage_year: u32) -> (r: Result<
        i128,
        CarbonError,
    >)
        requires
            self.wf(),
        ensures
            r == self@.get_benchmark_price(ledger, methodology@, vintage_year),
    {
        let methodology = methodology.to_owned();
        match self.find_price(&methodology, vintage_year) {
            Some(i) => {
                proof {
                    lemma_to_map_at(self.prices@, price_key(), i as int);
                }
                let entry = &self.prices[i];
                if ledger as u64 <= entry.live_until_ledger {
                    Ok(entry.price_usdc)
                } else {
                    Err(CarbonError::PriceNotSet)
                }
            },
            None => Err(CarbonError::PriceNotSet),
        }
    }

    /// The oracle signer flags a project for investigation.
    pub fn flag_project(&mut self, oracle_signer: String, project_id: String, reason: String) -> (r: Result<
        (),
        CarbonError,
    >)
        requires
            old(self).wf(),
        ensures
            final(self).wf(),
            match r {
                Ok(()) => old(self)@.flag_project(oracle_signer, project_id, reason) == Ok::<OracleState, CarbonError>(
                    final(self)@,
                ),
                Err(e) => old(self)@.flag_project(oracle_signer, project_id, reason) == Err::<OracleState, CarbonError>(
                    e,
                ) && final(self)@ == old(self)@,
            },
    {
        let ghost s0 = self@;
        self.acquire_lock()?;
        assert(!s0.locked);
        if !self.is_oracle(&oracle_signer) {
            self.release_lock();
            return Err(CarbonError::UnauthorizedOracle);
        }
        self.flagged.insert(project_id.clone(), reason.clone());
        self.events.push(OracleEvent::ProjectFlagged { project_id, oracle: oracle_signer, reason });
        self.release_lock();
        Ok(())
    }

    /// Whether a report on `project_id` was submitted within the 365 days before `now`.
    pub fn is_monitoring_current(&self, now: u64, project_id: &str) -> (r: bool)
        ensures
            r == self@.is_monitoring_current(now, project_id@),
    {
        match self.latest_monitoring.get(project_id) {
            None => false,
            Some(ts) => now.saturating_sub(*ts) <= MONITORING_FRESHNESS_SECS,
        }
    }

    /// Queues a price update and stages the new price under `op_id`; readable
    /// prices do not change until the operation runs after the time-lock delay.
    pub fn propose_price_update(
        &mut self,
        now: u64,
        oracle_signer: String,
        op_id: String,
        methodology: String,
        vintage_year: u32,
        new_price_usdc: i128,
    ) -> (r: Result<(), CarbonError>)
        requires
            old(self).wf(),
            old(self)@.propose_price_error(oracle_signer, new_price_usdc) is None ==> now + old(self)@.timelock.delay
                <= u64::MAX,
        ensures
            final(self).wf(),
            match r {
                Ok(()) => final(self)@.timelock.ops[op_id@].payload@ == "price_update"@ && old(self)@.propose_price_update(
                    now,
                    oracle_signer,
                    op_id,
                    methodology,
                    vintage_year,
                    new_price_usdc,
                    final(self)@.timelock.ops[op_id@].payload,
                ) == Ok::<OracleState, CarbonError>(final(self)@),
                Err(e) => old(self)@.propose_price_error(oracle_signer, new_price_usdc) == Some(e) && final(self)@
                    == old(self)@,
            },
    {
        let ghost s0 = self@;
        self.acquire_lock()?;
        assert(!s0.locked);
        if !self.is_oracle(&oracle_signer) {
            self.release_lock();
            return Err(CarbonError::UnauthorizedOracle);
        }
        if new_price_usdc <= 0 {
            self.release_lock();
            return Err(CarbonError::ZeroAmountNotAllowed);
        }
        let eta = now + self.timelock.delay();
        let op = PendingOp {
            op_id: op_id.clone(),
            action: GovAction::UpdateCreditPrice,
            target: methodology.clone(),
            initiated_by: oracle_signer.clone(),
            eta,
            payload: String::from_str("price_update"),
        };
        let ghost payload = op.payload;
        self.timelock.queue(op);
        self.staged.insert(
            op_id.clone(),
            StagedPrice { methodology: methodology.clone(), vintage_year, price_usdc: new_price_usdc },
        );
        self.events.push(
            OracleEvent::PriceUpdateQueued {
                op_id,
                oracle: oracle_signer,
                methodology,
                vintage_year,
                price_usdc: new_price_usdc,
            },
        );
        self.release_lock();
        proof {
            assert(self@.timelock.ops[op_id@].payload == payload);
        }
        Ok(())
    }

    /// Runs a queued price update once its delay has elapsed and nobody
    /// contested it, making the staged price readable for the
    /// `PRICE_CACHE_TTL_LEDGERS` ledgers from `ledger` on.
    pub fn execute_price_update(&mut self, now: u64, ledger: u32, oracle_signer: String, op_id: String) -> (r: Result<
        (),
        CarbonError,
    >)
        requires
            old(self).wf(),
        ensures
            final(self).wf(),
            match r {
                Ok(()) => old(self)@.execute_price_update(now, ledger, oracle_signer, op_id) == Ok::<
                    OracleState,
                    CarbonError,
                >(final(self)@),
                Err(e) => old(self)@.execute_price_update(now, ledger, oracle_signer, op_id) == Err::<OracleState, CarbonError>(
                    e,
                ) && final(self)@ == old(self)@,
            },
    {
        let ghost s0 = self@;
        self.acquire_lock()?;
        assert(!s0.locked);
        if !self.is_oracle(&oracle_signer) {
            self.release_lock();
            return Err(CarbonError::UnauthorizedOracle);
        }
        if let Err(refusal) = self.timelock.executable(op_id.as_str(), now) {
            self.release_lock();
            return Err(to_error(refusal));
        }
        let staged: Option<StagedPrice> = match self.staged.get(op_id.as_str()) {
            Some(p) => Some(StagedPrice { methodology: p.methodology.clone(), vintage_year: p.vintage_year, price_usdc: p.price_usdc }),
            None => None,
        };
        if let Some(p) = staged {
            self.store_price(
                CachedPrice {
                    methodology: p.methodology,
                    vintage_year: p.vintage_year,
                    price_usdc: p.price_usdc,
                    live_until_ledger: ledger as u64 + PRICE_CACHE_TTL_LEDGERS as u64,
                },
            );
        }
        self.staged.remove(op_id.as_str());
        self.timelock.remove_op(op_id.as_str());
        self.events.push(OracleEvent::PriceUpdateExecuted { op_id, oracle: oracle_signer });
        self.release_lock();
        Ok(())
    }

    /// Files a contest against a queued operation while its delay runs; anyone may contest.
    pub fn contest_operation(&mut self, now: u64, contestant: String, op_id: String, reason: String) -> (r: Result<
        (),
        CarbonError,
    >)
        requires
            old(self).wf(),
        ensures
            final(self).wf(),
            match r {
                Ok(()) => old(self)@.contest_operation(now, contestant, op_id, reason) == Ok::<OracleState, CarbonError>(
                    final(self)@,
                ),
                Err(e) => old(self)@.contest_operation(now, contestant, op_id, reason) == Err::<
                    OracleState,
                    CarbonError,
                >(e) && final(self)@ == old(self)@,
            },
    {
        let ghost s0 = self@;
        self.acquire_lock()?;
        assert(!s0.locked);
        if let Some(refusal) = self.timelock.check_contest(op_id.as_str(), now) {
            self.release_lock();
            return Err(to_error(refusal));
        }
        let record = ContestRecord {
            op_id: op_id.clone(),
            contested_by: contestant.clone(),
            reason: reason.clone(),
            contested_at: now,
        };
        self.timelock.file_contest(record);
        self.events.push(OracleEvent::Contested { op_id, contestant, reason });
        self.release_lock();
        Ok(())
    }

    /// The oracle signer cancels a queued operation, any contest of it and the
    /// price it staged.
    pub fn rollback_operation(&mut self, oracle_signer: String, op_id: String) -> (r: Result<(), CarbonError>)
        requires
            old(self).wf(),
        ensures
            final(self).wf(),
            match r {
                Ok(()) => old(self)@.rollback_operation(oracle_signer, op_id) == Ok::<OracleState, CarbonError>(
                    final(self)@,
                ),
                Err(e) => old(self)@.rollback_operation(oracle_signer, op_id) == Err::<OracleState, CarbonError>(e)
                    && final(self)@ == old(self)@,
            },
    {
        let ghost s0 = self@;
        self.acquire_lock()?;
        assert(!s0.locked);
        if !self.is_oracle(&oracle_signer) {
            self.release_lock();
            return Err(CarbonError::UnauthorizedOracle);
        }
        if self.timelock.pending_op(op_id.as_str()).is_none() {
            self.release_lock();
            return Err(CarbonError::ProjectNotFound);
        }
        self.timelock.cancel(op_id.as_str());
        self.staged.remove(op_id.as_str());
        self.events.push(OracleEvent::RolledBack { op_id, oracle: oracle_signer });
        self.release_lock();
        Ok(())
    }

    /// The operation queued under `op_id`.
    pub fn get_pending_op(&self, op_id: &str) -> (r: Result<&PendingOp, CarbonError>)
        ensures
            match r {
                Ok(op) => self@.get_pending_op(op_id@) == Ok::<PendingOp, CarbonError>(*op),
                Err(e) => self@.get_pending_op(op_id@) == Err::<PendingOp, CarbonError>(e),
            },
    {
        match self.timelock.pending_op(op_id) {
            Some(op) => Ok(op),
            None => Err(CarbonError::ProjectNotFound),
        }
    }

    /// The contest filed against `op_id`.
    pub fn get_contest(&self, op_id: &str) -> (r: Result<&ContestRecord, CarbonError>)
        ensures
            match r {
                Ok(c) => self@.get_contest(op_id@) == Ok::<ContestRecord, CarbonError>(*c),
                Err(e) => self@.get_contest(op_id@) == Err::<ContestRecord, CarbonError>(e),
            },
    {
        match self.timelock.contest_record(op_id) {
            Some(c) => Ok(c),
            None => Err(CarbonError::ProjectNotFound),
        }
    }

    /// Whether `propose_price_update` by `oracle_signer` at `now` would need
    /// an execution time past `u64::MAX` — the one input that operation does
    /// not accept.
    pub fn price_eta_overflows(&self, now: u64, oracle_signer: &String, new_price_usdc: i128) -> (r: bool)
        ensures
            r == (self@.propose_price_error(*oracle_signer, new_price_usdc) is None && now + self@.timelock.delay
                > u64::MAX),
    {
        !self.locked && self.is_oracle(oracle_signer) && new_price_usdc > 0 && now > u64::MAX - self.timelock.delay()
    }

    /// The time-lock delay, in seconds, that newly queued operations wait.
    pub fn timelock_delay(&self) -> (d: u64)
        ensures
            d == self@.timelock.delay,
    {
        self.timelock.delay()
    }

    /// The oracle signer changes the time-lock delay; it must be positive.
    pub fn set_timelock_delay(&mut self, oracle_signer: String, delay_secs: u64) -> (r: Result<(), CarbonError>)
        requires
            old(self).wf(),
        ensures
            final(self).wf(),
            match r {
                Ok(()) => old(self)@.set_timelock_delay(oracle_signer, delay_secs) == Ok::<OracleState, CarbonError>(
                    final(self)@,
                ),
                Err(e) => old(self)@.set_timelock_delay(oracle_signer, delay_secs) == Err::<OracleState, CarbonError>(
                    e,
                ) && final(self)@ == old(self)@,
            },
    {
        let ghost s0 = self@;
        self.acquire_lock()?;
        assert(!s0.locked);
        if !self.is_oracle(&oracle_signer) {
            self.release_lock();
            return Err(CarbonError::UnauthorizedOracle);
        }
        if delay_secs == 0 {
            self.release_lock();
            return Err(CarbonError::ZeroAmountNotAllowed);
        }
        self.timelock.set_delay(delay_secs);
        self.release_lock();
        Ok(())
    }
}


/// A report just submitted is readable as submitted, and its project is
/// current at the time of submission.
pub proof fn lemma_submit_then_read(
    s: OracleState,
    now: u64,
    oracle_signer: String,
    project_id: String,
    period: String,
    tonnes_verified: i128,
    methodology_score: u32,
    satellite_cid: String,
)
    requires
        s.submit_monitoring_data(
            now,
            oracle_signer,
            project_id,
            period,
            tonnes_verified,
            methodology_score,
            satellite_cid,
        ) is Ok,
    ensures
        ({
            let s1 = s.submit_monitoring_data(
                now,
                oracle_signer,
                project_id,
                period,
                tonnes_verified,
                methodology_score,
                satellite_cid,
            ).unwrap();
            &&& s1.is_monitoring_current(now, project_id@)
            &&& s1.get_monitoring_data(project_id@, period@) == Ok::<MonitoringData, CarbonError>(
                MonitoringData {
                    project_id,
                    period,
                    tonnes_verified,
                    methodology_score,
                    satellite_cid,
                    submitted_by: oracle_signer,
                    submitted_at: now,
                },
            )
        }),
{
}

/// A report keeps its project current for exactly 365 days: at any later
/// time `t`, the project is current iff `t - now` is at most 365 days.
pub proof fn lemma_freshness_window(
    s: OracleState,
    now: u64,
    oracle_signer: String,
    project_id: String,
    period: String,
    tonnes_verified: i128,
    methodology_score: u32,
    satellite_cid: String,
    t: u64,
)
    requires
        s.submit_monitoring_data(
            now,
            oracle_signer,
            project_id,
            period,
            tonnes_verified,
            methodology_score,
            satellite_cid,
        ) is Ok,
        t >= now,
    ensures
        s.submit_monitoring_data(
            now,
            oracle_signer,
            project_id,
            period,
            tonnes_verified,
            methodology_score,
            satellite_cid,
        ).unwrap().is_monitoring_current(t, project_id@) == (t - now <= MONITORING_FRESHNESS_SECS),
{
}

/// A project nobody reported on is never current.
pub proof fn lemma_unreported_not_current(s: OracleState, now: u64, project_id: Seq<char>)
    requires
        !s.latest_monitoring.contains_key(project_id),
    ensures
        !s.is_monitoring_current(now, project_id),
{
}

/// A benchmark price is readable for `PRICE_CACHE_TTL_LEDGERS` ledgers after
/// it was set, and not afterwards.
pub proof fn lemma_price_window(
    s: OracleState,
    ledger: u32,
    oracle_signer: String,
    methodology: String,
    vintage_year: u32,
    price_usdc: i128,
    later: u32,
)
    requires
        s.update_credit_price(ledger, oracle_signer, methodology, vintage_year, price_usdc) is Ok,
        later >= ledger,
    ensures
        ({
            let s1 = s.update_credit_price(ledger, oracle_signer, methodology, vintage_year, price_usdc).unwrap();
            &&& later <= ledger + PRICE_CACHE_TTL_LEDGERS ==> s1.get_benchmark_price(later, methodology@, vintage_year)
                == Ok::<i128, CarbonError>(price_usdc)
            &&& later > ledger + PRICE_CACHE_TTL_LEDGERS ==> s1.get_benchmark_price(later, methodology@, vintage_year)
                == Err::<i128, CarbonError>(CarbonError::PriceNotSet)
        }),
{
}

/// Only the oracle signer may submit reports, set prices, flag projects or
/// govern; and reports and prices must be positive.
pub proof fn lemma_oracle_only(
    s: OracleState,
    now: u64,
    ledger: u32,
    caller: String,
    project_id: String,
    period: String,
    tonnes_verified: i128,
    methodology_score: u32,
    satellite_cid: String,
    methodology: String,
    vintage_year: u32,
    price_usdc: i128,
    reason: String,
)
    requires
        !s.locked,
    ensures
        !s.is_oracle(caller) ==> s.submit_monitoring_data(
            now,
            caller,
            project_id,
            period,
            tonnes_verified,
            methodology_score,
            satellite_cid,
        ) == Err::<OracleState, CarbonError>(CarbonError::UnauthorizedOracle),
        !s.is_oracle(caller) ==> s.update_credit_price(ledger, caller, methodology, vintage_year, price_usdc) == Err::<
            OracleState,
            CarbonError,
        >(CarbonError::UnauthorizedOracle),
        !s.is_oracle(caller) ==> s.flag_project(caller, project_id, reason) == Err::<OracleState, CarbonError>(
            CarbonError::UnauthorizedOracle,
        ),
        s.is_oracle(caller) && tonnes_verified <= 0 ==> s.submit_monitoring_data(
            now,
            caller,
            project_id,
            period,
            tonnes_verified,
            methodology_score,
            satellite_cid,
        ) == Err::<OracleState, CarbonError>(CarbonError::ZeroAmountNotAllowed),
        s.is_oracle(caller) && price_usdc <= 0 ==> s.update_credit_price(
            ledger,
            caller,
            methodology,
            vintage_year,
            price_usdc,
        ) == Err::<OracleState, CarbonError>(CarbonError::ZeroAmountNotAllowed),
{
}


/// One call to the oracle, with its arguments.
pub enum OracleCall {
    Initialize { admin: String, oracle_address: String },
    Submit {
        now: u64,
        oracle_signer: String,
        project_id: String,
        period: String,
        tonnes_verified: i128,
        methodology_score: u32,
        satellite_cid: String,
    },
    UpdatePrice { ledger: u32, oracle_signer: String, methodology: String, vintage_year: u32, price_usdc: i128 },
    Flag { oracle_signer: String, project_id: String, reason: String },
    ProposePrice {
        now: u64,
        oracle_signer: String,
        op_id: String,
        methodology: String,
        vintage_year: u32,
        new_price_usdc: i128,
        payload: String,
    },
    ExecutePrice { now: u64, ledger: u32, oracle_signer: String, op_id: String },
    Contest { now: u64, contestant: String, op_id: String, reason: String },
    Rollback { oracle_signer: String, op_id: String },
    SetTimelockDelay { oracle_signer: String, delay_secs: u64 },
}

impl OracleState {
    /// Every stored report passes validation and is stored under its own
    /// project and period, every cached price is positive, and a project's
    /// latest report time is that of one of its reports.
    pub open spec fn wf(self) -> bool {
        &&& forall|k: (Seq<char>, Seq<char>)| #[trigger] self.monitoring.contains_key(k)
            ==> monitoring_error(self.monitoring[k]) is None
                && (self.monitoring[k].project_id@, self.monitoring[k].period@) == k
        &&& forall|k: (Seq<char>, u32)| #[trigger] self.prices.contains_key(k) ==> self.prices[k].price_usdc > 0
        &&& forall|o: Seq<char>| #[trigger] self.staged.contains_key(o) ==> self.staged[o].price_usdc > 0
        &&& forall|p: Seq<char>| #[trigger] self.latest_monitoring.contains_key(p) ==> self.has_report_at(p, self.latest_monitoring[p])
    }

    /// Some stored report on project `p` was submitted at time `t`.
    pub open spec fn has_report_at(self, p: Seq<char>, t: u64) -> bool {
        exists|per: Seq<char>| #[trigger] self.monitoring.contains_key((p, per)) && self.monitoring[(p, per)].submitted_at == t
    }

    /// The outcome of `call`.
    pub open spec fn outcome(self, call: OracleCall) -> Result<OracleState, CarbonError> {
        match call {
            OracleCall::Initialize { admin, oracle_address } => self.initialize(admin, oracle_address),
            OracleCall::Submit {
                now,
                oracle_signer,
                project_id,
                period,
                tonnes_verified,
                methodology_score,
                satellite_cid,
            } => self.submit_monitoring_data(
                now,
                oracle_signer,
                project_id,
                period,
                tonnes_verified,
                methodology_score,
                satellite_cid,
            ),
            OracleCall::UpdatePrice { ledger, oracle_signer, methodology, vintage_year, price_usdc } => self
                .update_credit_price(ledger, oracle_signer, methodology, vintage_year, price_usdc),
            OracleCall::Flag { oracle_signer, project_id, reason } => self.flag_project(oracle_signer, project_id, reason),
            OracleCall::ProposePrice {
                now,
                oracle_signer,
                op_id,
                methodology,
                vintage_year,
                new_price_usdc,
                payload,
            } => self.propose_price_update(
                now,
                oracle_signer,
                op_id,
                methodology,
                vintage_year,
                new_price_usdc,
                payload,
            ),
            OracleCall::ExecutePrice { now, ledger, oracle_signer, op_id } => self.execute_price_update(
                now,
                ledger,
                oracle_signer,
                op_id,
            ),
            OracleCall::Contest { now, contestant, op_id, reason } => self.contest_operation(
                now,
                contestant,
                op_id,
                reason,
            ),
            OracleCall::Rollback { oracle_signer, op_id } => self.rollback_operation(oracle_signer, op_id),
            OracleCall::SetTimelockDelay { oracle_signer, delay_secs } => self.set_timelock_delay(
                oracle_signer,
                delay_secs,
            ),
        }
    }

    /// The oracle after `call`: the new state when the call succeeds, the
    /// same state when it fails.
    pub open spec fn after(self, call: OracleCall) -> OracleState {
        match self.outcome(call) {
            Ok(s) => s,
            Err(_) => self,
        }
    }
}

/// A freshly deployed oracle satisfies its invariant.
pub proof fn lemma_initial_wf()
    ensures
        OracleState::initial().wf(),
{
}

/// Every call keeps the oracle's invariant: stored reports always have
/// positive tonnes, a score of at most 100 and non-empty ids, cached prices
/// are positive, and a project's latest report time is the time of one of
/// its stored reports.
pub proof fn lemma_call_keeps_wf(s: OracleState, call: OracleCall)
    requires
        s.wf(),
    ensures
        s.after(call).wf(),
{
    let s1 = s.after(call);
    assert forall|k: (Seq<char>, Seq<char>)| #[trigger] s1.monitoring.contains_key(k) implies monitoring_error(
        s1.monitoring[k],
    ) is None && (s1.monitoring[k].project_id@, s1.monitoring[k].period@) == k by {
        if s.monitoring.contains_key(k) {
            assert(monitoring_error(s.monitoring[k]) is None);
        }
    }
    assert forall|k: (Seq<char>, u32)| #[trigger] s1.prices.contains_key(k) implies s1.prices[k].price_usdc > 0 by {
        if s.prices.contains_key(k) {
            assert(s.prices[k].price_usdc > 0);
        }
    }
    assert forall|p: Seq<char>| #[trigger] s1.latest_monitoring.contains_key(p) implies s1.has_report_at(
        p,
        s1.latest_monitoring[p],
    ) by {
        if let OracleCall::Submit { now, oracle_signer, project_id, period, tonnes_verified, methodology_score, satellite_cid } = call {
            if s.submit_monitoring_data(
                now,
                oracle_signer,
                project_id,
                period,
                tonnes_verified,
                methodology_score,
                satellite_cid,
            ) is Ok {
                if p == project_id@ {
                    assert(s1.monitoring.contains_key((p, period@)));
                } else {
                    assert(s.has_report_at(p, s.latest_monitoring[p]));
                    let per = choose|per: Seq<char>| #[trigger] s.monitoring.contains_key((p, per))
                        && s.monitoring[(p, per)].submitted_at == s.latest_monitoring[p];
                    assert(s1.monitoring.contains_key((p, per)));
                }
            }
        } else {
            assert(s.has_report_at(p, s.latest_monitoring[p]));
            let per = choose|per: Seq<char>| #[trigger] s.monitoring.contains_key((p, per))
                && s.monitoring[(p, per)].submitted_at == s.latest_monitoring[p];
            assert(s1.monitoring.contains_key((p, per)));
        }
    }
}

/// With a clock that never runs backwards, a project's latest report time is
/// the newest of its reports: after a submission made no earlier than the
/// project's stored reports, the latest time is the submission's, and no
/// stored report of the project is newer.
pub proof fn lemma_latest_is_newest(
    s: OracleState,
    now: u64,
    oracle_signer: String,
    project_id: String,
    period: String,
    tonnes_verified: i128,
    methodology_score: u32,
    satellite_cid: String,
    per: Seq<char>,
)
    requires
        forall|q: Seq<char>| #[trigger] s.monitoring.contains_key((project_id@, q))
            ==> s.monitoring[(project_id@, q)].submitted_at <= now,
        s.submit_monitoring_data(now, oracle_signer, project_id, period, tonnes_verified, methodology_score, satellite_cid) is Ok,
    ensures
        ({
            let s1 = s.submit_monitoring_data(
                now,
                oracle_signer,
                project_id,
                period,
                tonnes_verified,
                methodology_score,
                satellite_cid,
            ).unwrap();
            &&& s1.latest_monitoring[project_id@] == now
            &&& s1.has_report_at(project_id@, now)
            &&& s1.monitoring.contains_key((project_id@, per)) ==> s1.monitoring[(project_id@, per)].submitted_at
                <= s1.latest_monitoring[project_id@]
        }),
{
    let s1 = s.submit_monitoring_data(now, oracle_signer, project_id, period, tonnes_verified, methodology_score, satellite_cid)
        .unwrap();
    assert(s1.monitoring.contains_key((project_id@, period@)));
    if per != period@ && s1.monitoring.contains_key((project_id@, per)) {
        assert(s.monitoring.contains_key((project_id@, per)));
    }
}

/// Every call that finds the oracle unlocked leaves it unlocked, whether it
/// succeeds or fails.
pub proof fn lemma_lock_released(s: OracleState, call: OracleCall)
    requires
        !s.locked,
    ensures
        !s.after(call).locked,
{
}

/// Initialisation happens once: after it, no call changes the admin or the
/// oracle signer, and a second `initialize` is refused.
pub proof fn lemma_initialize_once(s: OracleState, call: OracleCall, admin: String, oracle_address: String)
    requires
        s.admin is Some,
    ensures
        s.after(call).admin == s.admin,
        s.after(call).oracle == s.oracle,
        s.initialize(admin, oracle_address) == Err::<OracleState, CarbonError>(CarbonError::AlreadyInitialized),
{
    match call {
        OracleCall::Initialize { .. } => {},
        OracleCall::Submit { .. } => {},
        OracleCall::UpdatePrice { .. } => {},
        OracleCall::Flag { .. } => {},
        OracleCall::ProposePrice { .. } => {},
        OracleCall::ExecutePrice { .. } => {},
        OracleCall::Contest { .. } => {},
        OracleCall::Rollback { .. } => {},
        OracleCall::SetTimelockDelay { .. } => {},
    }
}


/// The reentrancy guard: while a call holds the lock, every other call but
/// `initialize` is refused with `ReentrancyGuard`.
pub proof fn lemma_locked_refuses(s: OracleState, call: OracleCall)
    requires
        s.locked,
        !(call is Initialize),
    ensures
        s.outcome(call) == Err::<OracleState, CarbonError>(CarbonError::ReentrancyGuard),
{
}

/// Time-lock governance is the oracle signer's: anyone else proposing,
/// executing or rolling back a price update, or changing the delay, is
/// refused with `UnauthorizedOracle` and nothing changes.
pub proof fn lemma_governance_oracle_only(s: OracleState, call: OracleCall)
    requires
        !s.locked,
        match call {
            OracleCall::ProposePrice { oracle_signer, .. } => !s.is_oracle(oracle_signer),
            OracleCall::ExecutePrice { oracle_signer, .. } => !s.is_oracle(oracle_signer),
            OracleCall::Rollback { oracle_signer, .. } => !s.is_oracle(oracle_signer),
            OracleCall::SetTimelockDelay { oracle_signer, .. } => !s.is_oracle(oracle_signer),
            _ => false,
        },
    ensures
        s.outcome(call) == Err::<OracleState, CarbonError>(CarbonError::UnauthorizedOracle),
        s.after(call) == s,
{
}

/// A proposed price is staged, not published: the proposal leaves every
/// readable benchmark price as it was.
pub proof fn lemma_proposal_not_readable(
    s: OracleState,
    now: u64,
    oracle_signer: String,
    op_id: String,
    methodology: String,
    vintage_year: u32,
    new_price_usdc: i128,
    payload: String,
    ledger: u32,
    m: Seq<char>,
    v: u32,
)
    requires
        s.propose_price_update(now, oracle_signer, op_id, methodology, vintage_year, new_price_usdc, payload) is Ok,
    ensures
        ({
            let s1 = s.propose_price_update(now, oracle_signer, op_id, methodology, vintage_year, new_price_usdc, payload)
                .unwrap();
            &&& s1.prices == s.prices
            &&& s1.get_benchmark_price(ledger, m, v) == s.get_benchmark_price(ledger, m, v)
        }),
{
}

/// Executing a proposal once its delay has elapsed, with nobody contesting
/// it, makes the proposed price readable from the ledger it runs at.
pub proof fn lemma_execution_activates_price(
    s: OracleState,
    now: u64,
    oracle_signer: String,
    op_id: String,
    methodology: String,
    vintage_year: u32,
    new_price_usdc: i128,
    payload: String,
    later: u64,
    ledger: u32,
)
    requires
        s.propose_price_update(now, oracle_signer, op_id, methodology, vintage_year, new_price_usdc, payload) is Ok,
        !s.timelock.contests.contains_key(op_id@),
        later >= now + s.timelock.delay,
    ensures
        ({
            let s1 = s.propose_price_update(now, oracle_signer, op_id, methodology, vintage_year, new_price_usdc, payload)
                .unwrap();
            let r = s1.execute_price_update(later, ledger, oracle_signer, op_id);
            &&& r is Ok
            &&& r.unwrap().get_benchmark_price(ledger, methodology@, vintage_year) == Ok::<i128, CarbonError>(
                new_price_usdc,
            )
        }),
{
}

/// A rolled-back proposal never takes effect: prices stay as they were and
/// the operation can no longer run.
pub proof fn lemma_rollback_discards_price(
    s: OracleState,
    now: u64,
    oracle_signer: String,
    op_id: String,
    methodology: String,
    vintage_year: u32,
    new_price_usdc: i128,
    payload: String,
    later: u64,
    ledger: u32,
)
    requires
        s.propose_price_update(now, oracle_signer, op_id, methodology, vintage_year, new_price_usdc, payload) is Ok,
    ensures
        ({
            let s1 = s.propose_price_update(now, oracle_signer, op_id, methodology, vintage_year, new_price_usdc, payload)
                .unwrap();
            let r = s1.rollback_operation(oracle_signer, op_id);
            &&& r is Ok
            &&& r.unwrap().prices == s.prices
            &&& !r.unwrap().staged.contains_key(op_id@)
            &&& r.unwrap().execute_price_update(later, ledger, oracle_signer, op_id) is Err
        }),
{
}


/// A report is accepted exactly from the oracle signer, on an unlocked
/// oracle, with positive tonnes, a score of at most 100 and non-empty
/// project, period and satellite ids; it then becomes the project's latest
/// report time and no other report changes.
pub proof fn lemma_submit_accepts(
    s: OracleState,
    now: u64,
    oracle_signer: String,
    project_id: String,
    period: String,
    tonnes_verified: i128,
    methodology_score: u32,
    satellite_cid: String,
)
    ensures
        s.submit_monitoring_data(now, oracle_signer, project_id, period, tonnes_verified, methodology_score, satellite_cid)
            is Ok <==> (!s.locked && (s.oracle matches Some(o) && o@ == oracle_signer@) && tonnes_verified > 0
            && methodology_score <= 100 && project_id@.len() > 0 && period@.len() > 0 && satellite_cid@.len() > 0),
        s.submit_monitoring_data(now, oracle_signer, project_id, period, tonnes_verified, methodology_score, satellite_cid)
            is Ok ==> ({
            let s1 = s.submit_monitoring_data(
                now,
                oracle_signer,
                project_id,
                period,
                tonnes_verified,
                methodology_score,
                satellite_cid,
            ).unwrap();
            &&& s1.latest_monitoring[project_id@] == now
            &&& forall|k: (Seq<char>, Seq<char>)| k != (project_id@, period@) ==> (#[trigger] s1.monitoring.contains_key(k)
                <==> s.monitoring.contains_key(k))
            &&& forall|k: (Seq<char>, Seq<char>)| k != (project_id@, period@) && s.monitoring.contains_key(k)
                ==> #[trigger] s1.monitoring[k] == s.monitoring[k]
            &&& s1.prices == s.prices
        }),
{
}

/// A price update is accepted exactly from the oracle signer, on an unlocked
/// oracle, for a positive price; it changes no other cached price.
pub proof fn lemma_price_update_accepts(
    s: OracleState,
    ledger: u32,
    oracle_signer: String,
    methodology: String,
    vintage_year: u32,
    price_usdc: i128,
)
    ensures
        s.update_credit_price(ledger, oracle_signer, methodology, vintage_year, price_usdc) is Ok <==> (!s.locked
            && (s.oracle matches Some(o) && o@ == oracle_signer@) && price_usdc > 0),
        s.update_credit_price(ledger, oracle_signer, methodology, vintage_year, price_usdc) is Ok ==> ({
            let s1 = s.update_credit_price(ledger, oracle_signer, methodology, vintage_year, price_usdc).unwrap();
            let p = s1.prices[(methodology@, vintage_year)];
            &&& p.price_usdc == price_usdc && p.live_until_ledger == ledger + PRICE_CACHE_TTL_LEDGERS
            &&& forall|k: (Seq<char>, u32)| k != (methodology@, vintage_year) && s.prices.contains_key(k)
                ==> #[trigger] s1.prices[k] == s.prices[k] && s1.prices.contains_key(k)
            &&& s1.monitoring == s.monitoring
        }),
{
}

/// A flag records the oracle's reason for the project and nothing else.
pub proof fn lemma_flag_records_reason(s: OracleState, oracle_signer: String, project_id: String, reason: String)
    ensures
        s.flag_project(oracle_signer, project_id, reason) is Ok <==> (!s.locked && (s.oracle matches Some(o) && o@
            == oracle_signer@)),
        s.flag_project(oracle_signer, project_id, reason) is Ok ==> ({
            let s1 = s.flag_project(oracle_signer, project_id, reason).unwrap();
            &&& s1.flagged == s.flagged.insert(project_id@, reason)
            &&& s1.monitoring == s.monitoring
            &&& s1.prices == s.prices
        }),
{
}

/// A price proposal queues an operation by the oracle signer on the
/// methodology, due `now` plus the delay, and stages exactly the proposed
/// methodology, vintage and price under its id.
pub proof fn lemma_price_proposal_recorded(
    s: OracleState,
    now: u64,
    oracle_signer: String,
    op_id: String,
    methodology: String,
    vintage_year: u32,
    new_price_usdc: i128,
    payload: String,
)
    requires
        s.propose_price_update(now, oracle_signer, op_id, methodology, vintage_year, new_price_usdc, payload) is Ok,
        now + s.timelock.delay <= u64::MAX,
    ensures
        ({
            let s1 = s.propose_price_update(now, oracle_signer, op_id, methodology, vintage_year, new_price_usdc, payload)
                .unwrap();
            let op = s1.timelock.ops[op_id@];
            let st = s1.staged[op_id@];
            &&& s.oracle matches Some(o) && o@ == oracle_signer@
            &&& new_price_usdc > 0
            &&& s1.timelock.ops.contains_key(op_id@) && s1.staged.contains_key(op_id@)
            &&& op.op_id == op_id && op.action == GovAction::UpdateCreditPrice && op.target == methodology
            &&& op.initiated_by == oracle_signer && op.eta == now + s.timelock.delay
            &&& st.methodology == methodology && st.vintage_year == vintage_year && st.price_usdc == new_price_usdc
        }),
{
}

/// Anyone may contest a queued operation while its execution time lies
/// ahead: the contest succeeds exactly then (on an unlocked contract), and
/// files the contestant, the reason and the time under the operation's id,
/// leaving the queued operation itself as it was.
pub proof fn lemma_contest_recorded(s: OracleState, now: u64, contestant: String, op_id: String, reason: String)
    ensures
        s.contest_operation(now, contestant, op_id, reason) is Ok <==> (!s.locked && s.timelock.ops.contains_key(op_id@)
            && now < s.timelock.ops[op_id@].eta),
        s.contest_operation(now, contestant, op_id, reason) is Ok ==> ({
            let s1 = s.contest_operation(now, contestant, op_id, reason).unwrap();
            let c = s1.timelock.contests[op_id@];
            &&& s1.timelock.contests.contains_key(op_id@)
            &&& c.op_id == op_id && c.contested_by == contestant && c.reason == reason && c.contested_at == now
            &&& s1.timelock.ops == s.timelock.ops
        }),
{
}

/// `get_monitoring_data` returns the stored report for the project and
/// period, or `ProjectNotFound`.
pub proof fn lemma_read_report(s: OracleState, project_id: Seq<char>, period: Seq<char>)
    ensures
        s.monitoring.contains_key((project_id, period)) ==> s.get_monitoring_data(project_id, period) == Ok::<
            MonitoringData,
            CarbonError,
        >(s.monitoring[(project_id, period)]),
        !s.monitoring.contains_key((project_id, period)) ==> s.get_monitoring_data(project_id, period) == Err::<
            MonitoringData,
            CarbonError,
        >(CarbonError::ProjectNotFound),
{
}

/// A delay change succeeds only with a positive delay, and from then on
/// operations wait exactly that long; queued operations keep their times.
pub proof fn lemma_delay_set(s: OracleState, oracle_signer: String, delay_secs: u64)
    requires
        s.set_timelock_delay(oracle_signer, delay_secs) is Ok,
    ensures
        delay_secs > 0,
        s.set_timelock_delay(oracle_signer, delay_secs).unwrap().timelock.delay == delay_secs,
        s.set_timelock_delay(oracle_signer, delay_secs).unwrap().timelock.ops == s.timelock.ops,
{
}

} // verus!
