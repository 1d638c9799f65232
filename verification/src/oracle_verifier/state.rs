//! The verifier's state as mathematics, and what each request does to it.

use crate::arith::{clamp_i128, least};
use crate::common::{is_address_text, or_default, timelock_end};
use crate::oracle_verifier::median::{Reading, weighted_median};
use crate::oracle_verifier::types::{
    AdminUpdated, AggregatedData, Effect, Error, Event, Initialized, MaxDataAgeUpdated,
    MinConfidenceUpdated, MinOracleCountUpdated, OracleAdded, OracleDataPoint, OracleDataSubmission,
    OracleDataSubmitted, OracleEntry, OracleRemoved, TriggerComparison, TriggerCondition,
};
use crate::table::list_at;
use crate::text::{Addr, Sym};
use vstd::prelude::*;

verus! {

/// Most oracles that can be registered for one data type.
pub const MAX_ORACLES: usize = 100;

/// Most submissions that are kept for one key, and that a median is made of.
pub const MAX_DATA_POINTS: usize = 100;

/// Oldest observation that can be submitted, in seconds: ninety days.
pub const MAX_SUBMISSION_AGE: u64 = 90 * 24 * 60 * 60;

/// Age in seconds beyond which submissions are ignored, when no other limit
/// was set: seven days.
pub const DEFAULT_MAX_DATA_AGE: u64 = 604_800;

/// Everything the verifier remembers.
#[verifier::ext_equal]
pub struct VerifierState {
    pub initialized: bool,
    pub admin: Option<Addr>,
    /// Registrations, by data type and oracle.
    pub oracles: Map<(Sym, Addr), OracleEntry>,
    /// Submissions, by data type and key.
    pub data_points: Map<(Sym, Sym), Seq<OracleDataPoint>>,
    /// Active oracles, by data type.
    pub oracle_list: Map<Sym, Seq<Addr>>,
    pub min_confidence: Option<u32>,
    pub max_data_age: Option<u64>,
    pub pending_admin: Option<Addr>,
    pub pending_admin_since: Option<u64>,
    pub min_oracle_count: Option<u32>,
    pub outbox: Seq<Effect>,
}

/// How old a timestamp is; a future one has age zero.
pub open spec fn age_of(now: u64, timestamp: u64) -> int {
    if now >= timestamp {
        now - timestamp
    } else {
        0
    }
}

/// Why a submission is refused, whatever the verifier holds. `max_age` is the
/// oldest observation that is taken, if there is such a limit.
pub open spec fn reading_error(
    now: u64,
    confidence: u32,
    timestamp: u64,
    max_age: Option<u64>,
) -> Option<Error> {
    if confidence == 0 || confidence > 100 {
        Some(Error::InvalidConfidence)
    } else if timestamp > now {
        Some(Error::InvalidTimestamp)
    } else if max_age matches Some(a) && now - timestamp > a {
        Some(Error::InvalidTimestamp)
    } else {
        None
    }
}

/// Whether `i` is the first submission of an oracle in a list.
pub open spec fn is_slot(points: Seq<OracleDataPoint>, oracle: Addr, i: int) -> bool {
    &&& 0 <= i < points.len()
    &&& points[i].oracle == oracle
    &&& forall|j: int| 0 <= j < i ==> (#[trigger] points[j]).oracle != oracle
}

/// Whether an oracle has a submission in a list.
pub open spec fn has_slot(points: Seq<OracleDataPoint>, oracle: Addr) -> bool {
    exists|i: int| 0 <= i < points.len() && (#[trigger] points[i]).oracle == oracle
}

/// The list with a submission in place of the oracle's first one, or at the
/// end where the oracle had none. A full list loses its oldest entry to a new
/// one.
pub open spec fn upsert(points: Seq<OracleDataPoint>, p: OracleDataPoint) -> Seq<OracleDataPoint> {
    if has_slot(points, p.oracle) {
        points.update(choose|i: int| is_slot(points, p.oracle, i), p)
    } else if points.len() >= MAX_DATA_POINTS {
        points.drop_first().push(p)
    } else {
        points.push(p)
    }
}

/// Whether `i` is the first submission with the latest timestamp.
pub open spec fn is_latest(points: Seq<OracleDataPoint>, i: int) -> bool {
    &&& 0 <= i < points.len()
    &&& forall|j: int|
        0 <= j < points.len() ==> (#[trigger] points[j]).timestamp <= points[i].timestamp
    &&& forall|j: int| 0 <= j < i ==> (#[trigger] points[j]).timestamp < points[i].timestamp
}

/// The first submission with the latest timestamp.
pub open spec fn latest_of(points: Seq<OracleDataPoint>) -> OracleDataPoint {
    points[choose|i: int| is_latest(points, i)]
}

/// Whether a value meets a trigger condition.
pub open spec fn condition_met(value: int, condition: TriggerCondition) -> bool {
    match condition.comparison {
        TriggerComparison::LessThan => value < condition.threshold,
        TriggerComparison::GreaterThan => value > condition.threshold,
        TriggerComparison::Equal => value == condition.threshold,
        TriggerComparison::EqualWithTolerance => {
            let diff = clamp_i128(value - condition.threshold);
            -condition.tolerance <= diff <= condition.tolerance
        },
    }
}

/// Whether the distance between a value and the threshold can be taken.
pub open spec fn distance_fits(value: int, condition: TriggerCondition) -> bool {
    condition.comparison == TriggerComparison::EqualWithTolerance ==> clamp_i128(
        value - condition.threshold,
    ) > i128::MIN
}

impl VerifierState {
    /// The state before anything was stored.
    pub open spec fn fresh() -> VerifierState {
        VerifierState {
            initialized: false,
            admin: None,
            oracles: Map::empty(),
            data_points: Map::empty(),
            oracle_list: Map::empty(),
            min_confidence: None,
            max_data_age: None,
            pending_admin: None,
            pending_admin_since: None,
            min_oracle_count: None,
            outbox: Seq::empty(),
        }
    }

    /// Every registered weight is 1 to 100.
    pub open spec fn wf(self) -> bool {
        forall|k: (Sym, Addr)|
            self.oracles.contains_key(k) ==> 1 <= (#[trigger] self.oracles[k]).weight <= 100
    }

    pub open spec fn send(self, e: Effect) -> VerifierState {
        VerifierState { outbox: self.outbox.push(e), ..self }
    }

    pub open spec fn emit(self, e: Event) -> VerifierState {
        self.send(Effect::Emit(e))
    }

    /// The state with a demand that `who` authorised the call.
    pub open spec fn demand(self, who: Addr) -> VerifierState {
        self.send(Effect::RequireAuth(who))
    }

    /// Why `caller` may not act as the administrator.
    pub open spec fn admin_error(self, caller: Addr) -> Option<Error> {
        match self.admin {
            None => Some(Error::NotInitialized),
            Some(admin) => if caller == admin {
                None
            } else {
                Some(Error::Unauthorized)
            },
        }
    }

    /// The age beyond which submissions are ignored.
    pub open spec fn max_age(self) -> u64 {
        or_default(self.max_data_age, DEFAULT_MAX_DATA_AGE)
    }

    /// The confidence below which submissions are ignored.
    pub open spec fn confidence_floor(self) -> u32 {
        or_default(self.min_confidence, 0)
    }

    /// The number of submissions that a median needs.
    pub open spec fn quorum(self) -> u32 {
        or_default(self.min_oracle_count, 1)
    }

    /// Whether an oracle is registered and active for a data type.
    pub open spec fn is_active(self, data_type: Sym, oracle: Addr) -> bool {
        self.oracles.contains_key((data_type, oracle)) && self.oracles[(data_type, oracle)].active
    }

    /// The submissions for a key.
    pub open spec fn points(self, data_type: Sym, key: Sym) -> Seq<OracleDataPoint> {
        list_at(self.data_points, (data_type, key))
    }

    pub open spec fn initialize(self, admin: Addr) -> Result<(VerifierState, ()), Error> {
        if self.initialized {
            Err(Error::AlreadyInitialized)
        } else if !is_address_text(admin@) {
            Err(Error::InvalidAddress)
        } else {
            Ok((
                VerifierState { initialized: true, admin: Some(admin), ..self }.demand(admin).emit(
                    Event::Initialized(Initialized { admin }),
                ),
                (),
            ))
        }
    }

    pub open spec fn add_oracle(self, admin: Addr, oracle: Addr, data_type: Sym, weight: u32) -> Result<
        (VerifierState, ()),
        Error,
    > {
        match self.admin_error(admin) {
            Some(e) => Err(e),
            None => {
                let list = list_at(self.oracle_list, data_type);
                if !is_address_text(oracle@) {
                    Err(Error::InvalidAddress)
                } else if weight == 0 || weight > 100 {
                    Err(Error::InvalidWeight)
                } else if self.oracles.contains_key((data_type, oracle)) {
                    Err(Error::OracleAlreadyExists)
                } else if !list.contains(oracle) && list.len() >= MAX_ORACLES {
                    Err(Error::TooManyOracles)
                } else {
                    let next = VerifierState {
                        oracles: self.oracles.insert(
                            (data_type, oracle),
                            OracleEntry { oracle, data_type, weight, active: true },
                        ),
                        oracle_list: if list.contains(oracle) {
                            self.oracle_list
                        } else {
                            self.oracle_list.insert(data_type, list.push(oracle))
                        },
                        ..self
                    };
                    Ok((
                        next.demand(admin).emit(
                            Event::OracleAdded(OracleAdded { oracle, data_type, weight }),
                        ),
                        (),
                    ))
                }
            },
        }
    }

    pub open spec fn update_oracle_weight(
        self,
        admin: Addr,
        oracle: Addr,
        data_type: Sym,
        weight: u32,
    ) -> Result<(VerifierState, ()), Error> {
        match self.admin_error(admin) {
            Some(e) => Err(e),
            None => if weight == 0 || weight > 100 {
                Err(Error::InvalidWeight)
            } else if !self.oracles.contains_key((data_type, oracle)) {
                Err(Error::OracleNotRegistered)
            } else {
                Ok((
                    VerifierState {
                        oracles: self.oracles.insert(
                            (data_type, oracle),
                            OracleEntry { weight, ..self.oracles[(data_type, oracle)] },
                        ),
                        ..self
                    }.demand(admin),
                    (),
                ))
            },
        }
    }

    pub open spec fn remove_oracle(self, admin: Addr, oracle: Addr, data_type: Sym) -> Result<
        (VerifierState, ()),
        Error,
    > {
        match self.admin_error(admin) {
            Some(e) => Err(e),
            None => if !self.oracles.contains_key((data_type, oracle)) {
                Err(Error::OracleNotRegistered)
            } else {
                let next = VerifierState {
                    oracles: self.oracles.insert(
                        (data_type, oracle),
                        OracleEntry { active: false, ..self.oracles[(data_type, oracle)] },
                    ),
                    oracle_list: self.oracle_list.insert(
                        data_type,
                        list_at(self.oracle_list, data_type).filter(other_than(oracle)),
                    ),
                    ..self
                };
                Ok((
                    next.demand(admin).emit(
                        Event::OracleRemoved(OracleRemoved { oracle, data_type }),
                    ),
                    (),
                ))
            },
        }
    }

    pub open spec fn set_min_confidence(self, admin: Addr, threshold: u32) -> Result<
        (VerifierState, ()),
        Error,
    > {
        match self.admin_error(admin) {
            Some(e) => Err(e),
            None => if threshold > 100 {
                Err(Error::InvalidConfidence)
            } else {
                Ok((
                    VerifierState { min_confidence: Some(threshold), ..self }.demand(admin).emit(
                        Event::MinConfidenceUpdated(MinConfidenceUpdated { threshold }),
                    ),
                    (),
                ))
            },
        }
    }

    pub open spec fn set_max_data_age(self, admin: Addr, max_age: u64) -> Result<
        (VerifierState, ()),
        Error,
    > {
        match self.admin_error(admin) {
            Some(e) => Err(e),
            None => Ok((
                VerifierState { max_data_age: Some(max_age), ..self }.demand(admin).emit(
                    Event::MaxDataAgeUpdated(MaxDataAgeUpdated { max_age }),
                ),
                (),
            )),
        }
    }

    pub open spec fn set_min_oracle_count(self, admin: Addr, min_count: u32) -> Result<
        (VerifierState, ()),
        Error,
    > {
        match self.admin_error(admin) {
            Some(e) => Err(e),
            None => if min_count == 0 {
                Err(Error::InvalidMinOracleCount)
            } else {
                Ok((
                    VerifierState { min_oracle_count: Some(min_count), ..self }.demand(admin).emit(
                        Event::MinOracleCountUpdated(MinOracleCountUpdated { min_count }),
                    ),
                    (),
                ))
            },
        }
    }

    pub open spec fn propose_new_admin(self, now: u64, admin: Addr, new_admin: Addr) -> Result<
        (VerifierState, ()),
        Error,
    > {
        match self.admin_error(admin) {
            Some(e) => Err(e),
            None => if !is_address_text(new_admin@) {
                Err(Error::InvalidAddress)
            } else {
                Ok((
                    VerifierState {
                        pending_admin: Some(new_admin),
                        pending_admin_since: Some(now),
                        ..self
                    }.demand(admin),
                    (),
                ))
            },
        }
    }

    pub open spec fn accept_admin(self, now: u64, admin: Addr) -> Result<
        (VerifierState, ()),
        Error,
    > {
        if self.pending_admin != Some(admin) {
            Err(Error::Unauthorized)
        } else if now < timelock_end(or_default(self.pending_admin_since, 0)) {
            Err(Error::AdminTimelockNotExpired)
        } else if !self.initialized {
            Err(Error::NotInitialized)
        } else {
            Ok((
                VerifierState {
                    admin: Some(admin),
                    pending_admin: None,
                    pending_admin_since: None,
                    ..self
                }.demand(admin).emit(Event::AdminUpdated(AdminUpdated { new_admin: admin })),
                (),
            ))
        }
    }

    pub open spec fn upgrade(self, admin: Addr, new_wasm_hash: [u8; 32]) -> Result<
        (VerifierState, ()),
        Error,
    > {
        match self.admin_error(admin) {
            Some(e) => Err(e),
            None => Ok((self.demand(admin).send(Effect::ReplaceCode(new_wasm_hash)), ())),
        }
    }

    /// Why an oracle may not submit for a data type.
    pub open spec fn oracle_error(self, oracle: Addr, data_type: Sym) -> Option<Error> {
        if !self.oracles.contains_key((data_type, oracle)) {
            Some(Error::OracleNotRegistered)
        } else if !self.oracles[(data_type, oracle)].active {
            Some(Error::Unauthorized)
        } else {
            None
        }
    }

    /// Which earlier submissions survive a new one of `oracle`: those of other
    /// oracles that are still active, unless they are too old.
    pub open spec fn survives(self, now: u64, data_type: Sym, oracle: Addr) -> spec_fn(
        OracleDataPoint,
    ) -> bool {
        |p: OracleDataPoint|
            p.oracle != oracle && age_of(now, p.timestamp) <= self.max_age() && self.is_active(
                data_type,
                p.oracle,
            )
    }

    /// The submissions for a key after a new one.
    pub open spec fn submitted(
        self,
        now: u64,
        data_type: Sym,
        key: Sym,
        point: OracleDataPoint,
    ) -> Seq<OracleDataPoint> {
        let kept = self.points(data_type, key).filter(
            self.survives(now, data_type, point.oracle),
        );
        if kept.len() >= MAX_DATA_POINTS {
            kept.drop_first().push(point)
        } else {
            kept.push(point)
        }
    }

    pub open spec fn submit_data(
        self,
        now: u64,
        oracle: Addr,
        data_type: Sym,
        key: Sym,
        value: i128,
        confidence: u32,
        timestamp: u64,
    ) -> Result<(VerifierState, ()), Error> {
        match reading_error(now, confidence, timestamp, Some(MAX_SUBMISSION_AGE)) {
            Some(e) => Err(e),
            None => match self.oracle_error(oracle, data_type) {
                Some(e) => Err(e),
                None => Ok((
                    VerifierState {
                        data_points: self.data_points.insert(
                            (data_type, key),
                            self.submitted(
                                now,
                                data_type,
                                key,
                                OracleDataPoint { oracle, value, confidence, timestamp },
                            ),
                        ),
                        ..self
                    }.demand(oracle).emit(
                        Event::OracleDataSubmitted(
                            OracleDataSubmitted {
                                oracle,
                                data_type,
                                key,
                                value,
                                confidence,
                                timestamp,
                            },
                        ),
                    ),
                    (),
                )),
            },
        }
    }

    /// The state after one reading of a batch was stored.
    pub open spec fn store_reading(self, oracle: Addr, data_type: Sym, sub: OracleDataSubmission) -> VerifierState {
        let point = OracleDataPoint {
            oracle,
            value: sub.value,
            confidence: sub.confidence,
            timestamp: sub.timestamp,
        };
        VerifierState {
            data_points: self.data_points.insert(
                (data_type, sub.key),
                upsert(self.points(data_type, sub.key), point),
            ),
            ..self
        }.emit(
            Event::OracleDataSubmitted(
                OracleDataSubmitted {
                    oracle,
                    data_type,
                    key: sub.key,
                    value: sub.value,
                    confidence: sub.confidence,
                    timestamp: sub.timestamp,
                },
            ),
        )
    }

    /// The state after the first `n` readings of a batch were stored.
    pub open spec fn store_readings(
        self,
        oracle: Addr,
        data_type: Sym,
        subs: Seq<OracleDataSubmission>,
        n: nat,
    ) -> VerifierState
        decreases n,
    {
        if n == 0 {
            self
        } else {
            self.store_readings(oracle, data_type, subs, (n - 1) as nat).store_reading(
                oracle,
                data_type,
                subs[n - 1],
            )
        }
    }

    /// The error of the first unacceptable reading among the first `n`.
    pub open spec fn readings_error(
        now: u64,
        subs: Seq<OracleDataSubmission>,
        max_age: Option<u64>,
        n: nat,
    ) -> Option<Error>
        decreases n,
    {
        if n == 0 {
            None
        } else {
            match Self::readings_error(now, subs, max_age, (n - 1) as nat) {
                Some(e) => Some(e),
                None => reading_error(now, subs[n - 1].confidence, subs[n - 1].timestamp, max_age),
            }
        }
    }

    /// A batch of readings, all of them or none.
    pub open spec fn submit_batch(
        self,
        now: u64,
        oracle: Addr,
        data_type: Sym,
        subs: Seq<OracleDataSubmission>,
        max_age: Option<u64>,
    ) -> Result<(VerifierState, ()), Error> {
        match self.oracle_error(oracle, data_type) {
            Some(e) => Err(e),
            None => match Self::readings_error(now, subs, max_age, subs.len()) {
                Some(e) => Err(e),
                None => Ok((
                    self.demand(oracle).store_readings(oracle, data_type, subs, subs.len()),
                    (),
                )),
            },
        }
    }

    /// The reading that a submission contributes to the median, if it is fresh
    /// and confident enough and its oracle is active.
    pub open spec fn contributes(self, now: u64, data_type: Sym) -> spec_fn(
        OracleDataPoint,
    ) -> Option<Reading> {
        |p: OracleDataPoint|
            if age_of(now, p.timestamp) <= self.max_age() && p.confidence >= self.confidence_floor()
                && self.is_active(data_type, p.oracle) {
                Some((p.value, self.oracles[(data_type, p.oracle)].weight))
            } else {
                None
            }
    }

    /// The readings that the median for a key is made of.
    pub open spec fn eligible(self, now: u64, data_type: Sym, key: Sym) -> Seq<Reading> {
        let points = self.points(data_type, key);
        points.take(least(points.len() as int, MAX_DATA_POINTS as int)).filter_map(
            self.contributes(now, data_type),
        )
    }

    /// Whether there are enough readings for a median.
    pub open spec fn has_median(self, now: u64, data_type: Sym, key: Sym) -> bool {
        let n = self.eligible(now, data_type, key).len();
        n >= self.quorum() && n > 0
    }

    /// The median for a key.
    pub open spec fn median(self, now: u64, data_type: Sym, key: Sym) -> int {
        weighted_median(self.eligible(now, data_type, key))
    }

    /// The submissions for a key whose oracle is active.
    pub open spec fn active_points(self, data_type: Sym, key: Sym) -> Seq<OracleDataPoint> {
        self.points(data_type, key).filter(self.from_active(data_type))
    }

    pub open spec fn from_active(self, data_type: Sym) -> spec_fn(OracleDataPoint) -> bool {
        |p: OracleDataPoint| self.is_active(data_type, p.oracle)
    }

    pub open spec fn oracle_active(self, data_type: Sym) -> spec_fn(Addr) -> bool {
        |a: Addr| self.is_active(data_type, a)
    }

    /// The weights of submissions added up.
    pub open spec fn weight_sum(self, data_type: Sym, points: Seq<OracleDataPoint>) -> nat
        decreases points.len(),
    {
        if points.len() == 0 {
            0
        } else {
            self.weight_sum(data_type, points.drop_last()) + self.oracles[(
                data_type,
                points.last().oracle,
            )].weight as nat
        }
    }

    /// The confidences of submissions added up, each times its weight.
    pub open spec fn confidence_sum(self, data_type: Sym, points: Seq<OracleDataPoint>) -> nat
        decreases points.len(),
    {
        if points.len() == 0 {
            0
        } else {
            self.confidence_sum(data_type, points.drop_last()) + (points.last().confidence
                * self.oracles[(data_type, points.last().oracle)].weight) as nat
        }
    }

    /// The weighted average confidence of submissions, rounded down.
    pub open spec fn mean_confidence(self, data_type: Sym, points: Seq<OracleDataPoint>) -> int {
        if self.weight_sum(data_type, points) == 0 {
            0
        } else {
            least(
                self.confidence_sum(data_type, points) as int / self.weight_sum(
                    data_type,
                    points,
                ) as int,
                u32::MAX as int,
            )
        }
    }

    /// The statistics for a key.
    pub open spec fn aggregate(self, now: u64, data_type: Sym, key: Sym) -> AggregatedData {
        let points = self.active_points(data_type, key);
        AggregatedData {
            median_value: self.median(now, data_type, key) as i128,
            oracle_count: points.len() as u32,
            active_oracle_count: list_at(self.oracle_list, data_type).filter(
                self.oracle_active(data_type),
            ).len() as u32,
            confidence: self.mean_confidence(data_type, points) as u32,
            min_confidence: lowest_confidence(points),
            last_updated: newest_timestamp(points),
        }
    }

    /// Why the newest submission for a key does not do.
    pub open spec fn freshness_error(self, now: u64, data_type: Sym, key: Sym, max_age: u64) -> Option<
        Error,
    > {
        let points = self.points(data_type, key);
        if points.len() == 0 {
            Some(Error::NoDataAvailable)
        } else if age_of(now, newest_timestamp(points)) > max_age {
            Some(Error::StaleData)
        } else {
            None
        }
    }

    /// Whether the median for a key meets a condition.
    pub open spec fn verify_trigger(
        self,
        now: u64,
        data_type: Sym,
        key: Sym,
        condition: TriggerCondition,
    ) -> Result<bool, Error> {
        if self.has_median(now, data_type, key) {
            Ok(condition_met(self.median(now, data_type, key), condition))
        } else {
            Err(Error::NoDataAvailable)
        }
    }

    /// A trigger verified against data that is fresh enough.
    pub open spec fn verify_trigger_fresh(
        self,
        now: u64,
        data_type: Sym,
        key: Sym,
        condition: TriggerCondition,
        max_age_seconds: u64,
    ) -> Result<(VerifierState, bool), Error> {
        match self.freshness_error(now, data_type, key, max_age_seconds) {
            Some(e) => Err(e),
            None => if !self.has_median(now, data_type, key) {
                Err(Error::NoDataAvailable)
            } else {
                let median = self.median(now, data_type, key);
                let result = condition_met(median, condition);
                Ok((
                    self.emit(
                        Event::VerificationResult {
                            data_type,
                            key,
                            result,
                            median: median as i128,
                            threshold: condition.threshold,
                        },
                    ),
                    result,
                ))
            },
        }
    }
}

/// All oracles but one.
pub open spec fn other_than(oracle: Addr) -> spec_fn(Addr) -> bool {
    |a: Addr| a != oracle
}

/// The lowest confidence among submissions; 100 where there is none lower.
pub open spec fn lowest_confidence(points: Seq<OracleDataPoint>) -> u32
    decreases points.len(),
{
    if points.len() == 0 {
        100
    } else {
        let rest = lowest_confidence(points.drop_last());
        if points.last().confidence < rest {
            points.last().confidence
        } else {
            rest
        }
    }
}

/// The latest timestamp among submissions; 0 where there is none.
pub open spec fn newest_timestamp(points: Seq<OracleDataPoint>) -> u64
    decreases points.len(),
{
    if points.len() == 0 {
        0
    } else {
        let rest = newest_timestamp(points.drop_last());
        if points.last().timestamp > rest {
            points.last().timestamp
        } else {
            rest
        }
    }
}

impl VerifierState {
    /// What is wrong with the beginning of a batch is wrong with the batch.
    pub proof fn lemma_readings_error_grows(
        now: u64,
        subs: Seq<OracleDataSubmission>,
        max_age: Option<u64>,
        m: nat,
        n: nat,
    )
        requires
            m <= n,
            Self::readings_error(now, subs, max_age, m) is Some,
        ensures
            Self::readings_error(now, subs, max_age, n) == Self::readings_error(
                now,
                subs,
                max_age,
                m,
            ),
        decreases n,
    {
        if m < n {
            Self::lemma_readings_error_grows(now, subs, max_age, m, (n - 1) as nat);
        }
    }
}

} // verus!
