//! Oracle data: who may report measurements, what they reported, and whether
//! it meets a trigger.
//!
//! Registered oracles submit measurements for a (data type, key) pair. The
//! verifier keeps one submission per oracle and combines them into a median
//! weighted by the oracles' registered weights. Each method is one request,
//! atomic: it is refused with an error and changes nothing, or it takes effect
//! and leaves in the outbox what the ledger has to do for it.

pub mod laws;
pub mod median;
pub mod reports;
pub mod state;
pub mod types;
pub mod verdicts;

use crate::arith::saturating_sub;
use crate::common::{is_address, is_address_text, or_default, timelock_expired};
use crate::oracle_verifier::median::{
    Reading, median_fits, median_of, middle_values, positive_weights, total_weight,
};
use crate::oracle_verifier::state::{
    DEFAULT_MAX_DATA_AGE, MAX_DATA_POINTS, MAX_ORACLES, MAX_SUBMISSION_AGE, VerifierState, age_of,
    condition_met, distance_fits, has_slot, is_latest, is_slot, latest_of, lowest_confidence,
    newest_timestamp, other_than, reading_error, upsert,
};
use crate::oracle_verifier::types::{
    AdminUpdated, AggregatedData, Effect, Error, Event, Initialized, MaxDataAgeUpdated,
    MinConfidenceUpdated, MinOracleCountUpdated, OracleAdded, OracleDataPoint, OracleDataSubmission,
    OracleDataSubmitted, OracleEntry, OracleRemoved, TriggerComparison, TriggerCondition,
};
use crate::outcome::{after, answer};
use crate::table::{ListTable, Table, copy_list, index_of, list_at};
use crate::text::{Addr, Sym};
use vstd::prelude::*;

verus! {

/// The oracle verifier.
pub struct OracleVerifier {
    pub initialized: bool,
    pub admin: Option<Addr>,
    /// Registrations, by data type and oracle.
    pub oracles: Table<(Sym, Addr), OracleEntry>,
    /// Submissions, by data type and key.
    pub data_points: ListTable<(Sym, Sym), OracleDataPoint>,
    /// Active oracles, by data type.
    pub oracle_list: ListTable<Sym, Addr>,
    pub min_confidence: Option<u32>,
    pub max_data_age: Option<u64>,
    pub pending_admin: Option<Addr>,
    pub pending_admin_since: Option<u64>,
    pub min_oracle_count: Option<u32>,
    /// What the ledger has to do for the calls made so far.
    pub outbox: Vec<Effect>,
}

impl View for OracleVerifier {
    type V = VerifierState;

    open spec fn view(&self) -> VerifierState {
        VerifierState {
            initialized: self.initialized,
            admin: self.admin,
            oracles: self.oracles@,
            data_points: self.data_points@,
            oracle_list: self.oracle_list@,
            min_confidence: self.min_confidence,
            max_data_age: self.max_data_age,
            pending_admin: self.pending_admin,
            pending_admin_since: self.pending_admin_since,
            min_oracle_count: self.min_oracle_count,
            outbox: self.outbox@,
        }
    }
}

/// One reading of a batch written as a tuple of key, value, confidence and
/// timestamp.
pub open spec fn submission_of(t: (Sym, i128, u32, u64)) -> OracleDataSubmission {
    OracleDataSubmission { key: t.0, value: t.1, confidence: t.2, timestamp: t.3 }
}

/// The readings of a batch written as tuples.
pub open spec fn submissions_of(ts: Seq<(Sym, i128, u32, u64)>) -> Seq<OracleDataSubmission> {
    ts.map_values(|t: (Sym, i128, u32, u64)| submission_of(t))
}

impl OracleVerifier {
    /// A verifier that nothing was stored in.
    pub fn new() -> (r: OracleVerifier)
        ensures
            r@ == VerifierState::fresh(),
    {
        let r = OracleVerifier {
            initialized: false,
            admin: None,
            oracles: Table::new(),
            data_points: ListTable::new(),
            oracle_list: ListTable::new(),
            min_confidence: None,
            max_data_age: None,
            pending_admin: None,
            pending_admin_since: None,
            min_oracle_count: None,
            outbox: Vec::new(),
        };
        assert(r@ =~= VerifierState::fresh());
        r
    }

    fn send(&mut self, e: Effect)
        ensures
            final(self)@ == old(self)@.send(e),
    {
        self.outbox.push(e);
        assert(self@ =~= old(self)@.send(e));
    }

    fn emit(&mut self, e: Event)
        ensures
            final(self)@ == old(self)@.emit(e),
    {
        self.send(Effect::Emit(e));
    }

    fn demand(&mut self, who: Addr)
        ensures
            final(self)@ == old(self)@.demand(who),
    {
        self.send(Effect::RequireAuth(who));
    }

    fn require_admin(&self, caller: &Addr) -> (r: Result<(), Error>)
        ensures
            match self@.admin_error(*caller) {
                Some(e) => r == Err::<(), Error>(e),
                None => r is Ok,
            },
    {
        match self.admin {
            None => Err(Error::NotInitialized),
            Some(admin) => if caller.same(&admin) {
                Ok(())
            } else {
                Err(Error::Unauthorized)
            },
        }
    }

    /// Refuse an address that is neither an account's nor a contract's.
    pub fn validate_stellar_address(address: &Addr) -> (r: Result<(), Error>)
        ensures
            r == if is_address_text(address@) {
                Ok(())
            } else {
                Err(Error::InvalidAddress)
            },
    {
        if is_address(address) {
            Ok(())
        } else {
            Err(Error::InvalidAddress)
        }
    }

    /// Set the verifier up, once.
    pub fn initialize(&mut self, admin: Addr) -> (r: Result<(), Error>)
        ensures
            r == answer(old(self)@.initialize(admin)),
            final(self)@ == after(old(self)@, old(self)@.initialize(admin)),
    {
        if self.initialized {
            return Err(Error::AlreadyInitialized);
        }
        match Self::validate_stellar_address(&admin) {
            Err(e) => {
                return Err(e);
            },
            Ok(()) => {},
        }
        self.initialized = true;
        self.admin = Some(admin);
        self.demand(admin);
        self.emit(Event::Initialized(Initialized { admin }));
        assert(self@ =~= after(old(self)@, old(self)@.initialize(admin)));
        Ok(())
    }

    /// Register an oracle for a data type, with a weight of 1 to 100.
    pub fn add_oracle(&mut self, admin: Addr, oracle: Addr, data_type: Sym, weight: u32) -> (r:
        Result<(), Error>)
        ensures
            r == answer(old(self)@.add_oracle(admin, oracle, data_type, weight)),
            final(self)@ == after(
                old(self)@,
                old(self)@.add_oracle(admin, oracle, data_type, weight),
            ),
            old(self)@.wf() ==> final(self)@.wf(),
    {
        match self.require_admin(&admin) {
            Err(e) => {
                return Err(e);
            },
            Ok(()) => {},
        }
        match Self::validate_stellar_address(&oracle) {
            Err(e) => {
                return Err(e);
            },
            Ok(()) => {},
        }
        if weight == 0 || weight > 100 {
            return Err(Error::InvalidWeight);
        }
        if self.oracles.contains(&(data_type, oracle)) {
            return Err(Error::OracleAlreadyExists);
        }
        let (present, count) = match self.oracle_list.get(&data_type) {
            Some(v) => (index_of(v, &oracle).is_some(), v.len()),
            None => (false, 0),
        };
        if !present {
            if count >= MAX_ORACLES {
                return Err(Error::TooManyOracles);
            }
            self.oracle_list.push(data_type, oracle);
        }
        self.oracles.insert(
            (data_type, oracle),
            OracleEntry { oracle, data_type, weight, active: true },
        );
        self.demand(admin);
        self.emit(Event::OracleAdded(OracleAdded { oracle, data_type, weight }));
        assert(self@ =~= after(
            old(self)@,
            old(self)@.add_oracle(admin, oracle, data_type, weight),
        ));
        Ok(())
    }

    /// Change the weight of a registered oracle.
    pub fn update_oracle_weight(
        &mut self,
        admin: Addr,
        oracle: Addr,
        data_type: Sym,
        weight: u32,
    ) -> (r: Result<(), Error>)
        ensures
            r == answer(old(self)@.update_oracle_weight(admin, oracle, data_type, weight)),
            final(self)@ == after(
                old(self)@,
                old(self)@.update_oracle_weight(admin, oracle, data_type, weight),
            ),
            old(self)@.wf() ==> final(self)@.wf(),
    {
        match self.require_admin(&admin) {
            Err(e) => {
                return Err(e);
            },
            Ok(()) => {},
        }
        if weight == 0 || weight > 100 {
            return Err(Error::InvalidWeight);
        }
        let mut entry = match self.oracles.get(&(data_type, oracle)) {
            Some(e) => *e,
            None => {
                return Err(Error::OracleNotRegistered);
            },
        };
        entry.weight = weight;
        self.oracles.insert((data_type, oracle), entry);
        self.demand(admin);
        assert(self@ =~= after(
            old(self)@,
            old(self)@.update_oracle_weight(admin, oracle, data_type, weight),
        ));
        Ok(())
    }

    /// Deactivate an oracle. What it submitted stays stored.
    pub fn remove_oracle(&mut self, admin: Addr, oracle: Addr, data_type: Sym) -> (r: Result<
        (),
        Error,
    >)
        ensures
            r == answer(old(self)@.remove_oracle(admin, oracle, data_type)),
            final(self)@ == after(old(self)@, old(self)@.remove_oracle(admin, oracle, data_type)),
            old(self)@.wf() ==> final(self)@.wf(),
    {
        match self.require_admin(&admin) {
            Err(e) => {
                return Err(e);
            },
            Ok(()) => {},
        }
        let mut entry = match self.oracles.get(&(data_type, oracle)) {
            Some(e) => *e,
            None => {
                return Err(Error::OracleNotRegistered);
            },
        };
        entry.active = false;
        self.oracles.insert((data_type, oracle), entry);
        let list = self.oracle_list.take(&data_type);
        let ghost keep = other_than(oracle);
        let mut pruned: Vec<Addr> = Vec::new();
        let mut i: usize = 0;
        proof {
            reveal(Seq::filter);
        }
        while i < list.len()
            invariant
                i <= list@.len(),
                keep == other_than(oracle),
                pruned@ == list@.take(i as int).filter(keep),
            decreases list.len() - i,
        {
            proof {
                reveal(Seq::filter);
                assert(list@.take(i + 1).drop_last() =~= list@.take(i as int));
            }
            if !list[i].same(&oracle) {
                pruned.push(list[i]);
            }
            i += 1;
        }
        assert(list@.take(i as int) =~= list@);
        self.oracle_list.insert(data_type, pruned);
        self.demand(admin);
        self.emit(Event::OracleRemoved(OracleRemoved { oracle, data_type }));
        assert(self@ =~= after(old(self)@, old(self)@.remove_oracle(admin, oracle, data_type)));
        Ok(())
    }

    /// Set the confidence below which submissions are ignored.
    pub fn set_min_confidence(&mut self, admin: Addr, threshold: u32) -> (r: Result<(), Error>)
        ensures
            r == answer(old(self)@.set_min_confidence(admin, threshold)),
            final(self)@ == after(old(self)@, old(self)@.set_min_confidence(admin, threshold)),
    {
        match self.require_admin(&admin) {
            Err(e) => {
                return Err(e);
            },
            Ok(()) => {},
        }
        if threshold > 100 {
            return Err(Error::InvalidConfidence);
        }
        self.min_confidence = Some(threshold);
        self.demand(admin);
        self.emit(Event::MinConfidenceUpdated(MinConfidenceUpdated { threshold }));
        assert(self@ =~= after(old(self)@, old(self)@.set_min_confidence(admin, threshold)));
        Ok(())
    }

    /// Set the age in seconds beyond which submissions are ignored.
    pub fn set_max_data_age(&mut self, admin: Addr, max_age: u64) -> (r: Result<(), Error>)
        ensures
            r == answer(old(self)@.set_max_data_age(admin, max_age)),
            final(self)@ == after(old(self)@, old(self)@.set_max_data_age(admin, max_age)),
    {
        match self.require_admin(&admin) {
            Err(e) => {
                return Err(e);
            },
            Ok(()) => {},
        }
        self.max_data_age = Some(max_age);
        self.demand(admin);
        self.emit(Event::MaxDataAgeUpdated(MaxDataAgeUpdated { max_age }));
        assert(self@ =~= after(old(self)@, old(self)@.set_max_data_age(admin, max_age)));
        Ok(())
    }

    /// Propose a new administrator.
    pub fn propose_new_admin(&mut self, now: u64, admin: Addr, new_admin: Addr) -> (r: Result<
        (),
        Error,
    >)
        ensures
            r == answer(old(self)@.propose_new_admin(now, admin, new_admin)),
            final(self)@ == after(old(self)@, old(self)@.propose_new_admin(now, admin, new_admin)),
    {
        match self.require_admin(&admin) {
            Err(e) => {
                return Err(e);
            },
            Ok(()) => {},
        }
        match Self::validate_stellar_address(&new_admin) {
            Err(e) => {
                return Err(e);
            },
            Ok(()) => {},
        }
        self.pending_admin = Some(new_admin);
        self.pending_admin_since = Some(now);
        self.demand(admin);
        assert(self@ =~= after(old(self)@, old(self)@.propose_new_admin(now, admin, new_admin)));
        Ok(())
    }

    /// Take over as administrator, once the timelock of the proposal is over.
    pub fn accept_admin(&mut self, now: u64, admin: Addr) -> (r: Result<(), Error>)
        ensures
            r == answer(old(self)@.accept_admin(now, admin)),
            final(self)@ == after(old(self)@, old(self)@.accept_admin(now, admin)),
    {
        match self.pending_admin {
            Some(pending) => {
                if !pending.same(&admin) {
                    return Err(Error::Unauthorized);
                }
            },
            None => {
                return Err(Error::Unauthorized);
            },
        }
        if !timelock_expired(self.get_pending_admin_since(), now) {
            return Err(Error::AdminTimelockNotExpired);
        }
        if !self.initialized {
            return Err(Error::NotInitialized);
        }
        self.admin = Some(admin);
        self.pending_admin = None;
        self.pending_admin_since = None;
        self.demand(admin);
        self.emit(Event::AdminUpdated(AdminUpdated { new_admin: admin }));
        assert(self@ =~= after(old(self)@, old(self)@.accept_admin(now, admin)));
        Ok(())
    }

    /// When the pending admin transfer was proposed; 0 where none is pending.
    pub fn get_pending_admin_since(&self) -> (r: u64)
        ensures
            r == or_default(self@.pending_admin_since, 0),
    {
        match self.pending_admin_since {
            Some(t) => t,
            None => 0,
        }
    }

    /// The age in seconds beyond which submissions are ignored.
    pub fn get_max_data_age(&self) -> (r: u64)
        ensures
            r == self@.max_age(),
    {
        match self.max_data_age {
            Some(a) => a,
            None => DEFAULT_MAX_DATA_AGE,
        }
    }

    /// Set how many submissions a median needs.
    pub fn set_min_oracle_count(&mut self, admin: Addr, min_count: u32) -> (r: Result<(), Error>)
        ensures
            r == answer(old(self)@.set_min_oracle_count(admin, min_count)),
            final(self)@ == after(old(self)@, old(self)@.set_min_oracle_count(admin, min_count)),
    {
        match self.require_admin(&admin) {
            Err(e) => {
                return Err(e);
            },
            Ok(()) => {},
        }
        if min_count == 0 {
            return Err(Error::InvalidMinOracleCount);
        }
        self.min_oracle_count = Some(min_count);
        self.demand(admin);
        self.emit(Event::MinOracleCountUpdated(MinOracleCountUpdated { min_count }));
        assert(self@ =~= after(old(self)@, old(self)@.set_min_oracle_count(admin, min_count)));
        Ok(())
    }

    /// How many submissions a median needs.
    pub fn get_min_oracle_count(&self) -> (r: u32)
        ensures
            r == self@.quorum(),
    {
        match self.min_oracle_count {
            Some(n) => n,
            None => 1,
        }
    }

    /// The active oracles of a data type.
    pub fn get_oracles(&self, data_type: Sym) -> (r: Vec<Addr>)
        ensures
            r@ == list_at(self@.oracle_list, data_type),
    {
        match self.oracle_list.get(&data_type) {
            Some(list) => copy_list(list),
            None => Vec::new(),
        }
    }

    /// The administrator.
    pub fn get_admin(&self) -> (r: Result<Addr, Error>)
        ensures
            r == match self@.admin {
                Some(a) => Ok(a),
                None => Err(Error::NotInitialized),
            },
    {
        match self.admin {
            Some(a) => Ok(a),
            None => Err(Error::NotInitialized),
        }
    }

    /// Replace the verifier's code. What is stored stays.
    pub fn upgrade(&mut self, admin: Addr, new_wasm_hash: [u8; 32]) -> (r: Result<(), Error>)
        ensures
            r == answer(old(self)@.upgrade(admin, new_wasm_hash)),
            final(self)@ == after(old(self)@, old(self)@.upgrade(admin, new_wasm_hash)),
    {
        match self.require_admin(&admin) {
            Err(e) => {
                return Err(e);
            },
            Ok(()) => {},
        }
        self.demand(admin);
        self.send(Effect::ReplaceCode(new_wasm_hash));
        Ok(())
    }

    fn is_active(&self, data_type: Sym, oracle: Addr) -> (r: bool)
        ensures
            r == self@.is_active(data_type, oracle),
    {
        match self.oracles.get(&(data_type, oracle)) {
            Some(e) => e.active,
            None => false,
        }
    }

    fn check_reading(now: u64, confidence: u32, timestamp: u64, max_age: Option<u64>) -> (r: Result<
        (),
        Error,
    >)
        ensures
            match reading_error(now, confidence, timestamp, max_age) {
                Some(e) => r == Err::<(), Error>(e),
                None => r is Ok,
            },
    {
        if confidence == 0 || confidence > 100 {
            return Err(Error::InvalidConfidence);
        }
        if timestamp > now {
            return Err(Error::InvalidTimestamp);
        }
        match max_age {
            Some(a) => if timestamp < now.saturating_sub(a) {
                Err(Error::InvalidTimestamp)
            } else {
                Ok(())
            },
            None => Ok(()),
        }
    }

    fn check_oracle(&self, oracle: Addr, data_type: Sym) -> (r: Result<(), Error>)
        ensures
            match self@.oracle_error(oracle, data_type) {
                Some(e) => r == Err::<(), Error>(e),
                None => r is Ok,
            },
    {
        match self.oracles.get(&(data_type, oracle)) {
            Some(entry) => if entry.active {
                Ok(())
            } else {
                Err(Error::Unauthorized)
            },
            None => Err(Error::OracleNotRegistered),
        }
    }

    /// Submit a measurement for a key. It replaces the oracle's earlier one;
    /// submissions that are too old or whose oracle is no longer active are
    /// dropped.
    pub fn submit_data(
        &mut self,
        now: u64,
        oracle: Addr,
        data_type: Sym,
        key: Sym,
        value: i128,
        confidence: u32,
        timestamp: u64,
    ) -> (r: Result<(), Error>)
        ensures
            r == answer(
                old(self)@.submit_data(now, oracle, data_type, key, value, confidence, timestamp),
            ),
            final(self)@ == after(
                old(self)@,
                old(self)@.submit_data(now, oracle, data_type, key, value, confidence, timestamp),
            ),
    {
        match Self::check_reading(now, confidence, timestamp, Some(MAX_SUBMISSION_AGE)) {
            Err(e) => {
                return Err(e);
            },
            Ok(()) => {},
        }
        match self.check_oracle(oracle, data_type) {
            Err(e) => {
                return Err(e);
            },
            Ok(()) => {},
        }
        let point = OracleDataPoint { oracle, value, confidence, timestamp };
        let max_age: u64 = self.get_max_data_age();
        let ghost survives = self@.survives(now, data_type, oracle);
        let points = self.data_points.take(&(data_type, key));
        let mut kept: Vec<OracleDataPoint> = Vec::new();
        let mut i: usize = 0;
        proof {
            reveal(Seq::filter);
        }
        while i < points.len()
            invariant
                i <= points@.len(),
                self@.oracles == old(self)@.oracles,
                survives == old(self)@.survives(now, data_type, oracle),
                max_age == old(self)@.max_age(),
                kept@ == points@.take(i as int).filter(survives),
            decreases points.len() - i,
        {
            proof {
                reveal(Seq::filter);
                assert(points@.take(i + 1).drop_last() =~= points@.take(i as int));
            }
            let p = points[i];
            if !p.oracle.same(&oracle) && now.saturating_sub(p.timestamp) <= max_age
                && self.is_active(data_type, p.oracle) {
                kept.push(p);
            }
            i += 1;
        }
        assert(points@.take(i as int) =~= points@);
        if kept.len() >= MAX_DATA_POINTS {
            kept.remove(0);
            assert(kept@ =~= points@.filter(survives).drop_first());
        }
        kept.push(point);
        self.data_points.insert((data_type, key), kept);
        self.demand(oracle);
        self.emit(
            Event::OracleDataSubmitted(
                OracleDataSubmitted { oracle, data_type, key, value, confidence, timestamp },
            ),
        );
        assert(self@ =~= after(
            old(self)@,
            old(self)@.submit_data(now, oracle, data_type, key, value, confidence, timestamp),
        ));
        Ok(())
    }

    fn store_reading(&mut self, oracle: Addr, data_type: Sym, sub: OracleDataSubmission)
        ensures
            final(self)@ == old(self)@.store_reading(oracle, data_type, sub),
    {
        let point = OracleDataPoint {
            oracle,
            value: sub.value,
            confidence: sub.confidence,
            timestamp: sub.timestamp,
        };
        let mut points = self.data_points.take(&(data_type, sub.key));
        let ghost before = points@;
        let mut at: usize = 0;
        while at < points.len() && !points[at].oracle.same(&oracle)
            invariant
                at <= points@.len(),
                forall|j: int| 0 <= j < at ==> (#[trigger] points@[j]).oracle != oracle,
            decreases points.len() - at,
        {
            at += 1;
        }
        if at < points.len() {
            proof {
                assert(is_slot(before, oracle, at as int));
                let k = choose|k: int| is_slot(before, oracle, k);
                assert(k == at);
                assert(has_slot(before, oracle));
            }
            points[at] = point;
        } else {
            if points.len() >= MAX_DATA_POINTS {
                let _ = points.remove(0);
                assert(points@ =~= before.drop_first());
            }
            points.push(point);
        }
        assert(points@ =~= upsert(before, point));
        self.data_points.insert((data_type, sub.key), points);
        assert(self@ =~= (VerifierState {
            data_points: old(self)@.data_points.insert(
                (data_type, sub.key),
                upsert(before, point),
            ),
            ..old(self)@
        }));
        self.emit(
            Event::OracleDataSubmitted(
                OracleDataSubmitted {
                    oracle,
                    data_type,
                    key: sub.key,
                    value: sub.value,
                    confidence: sub.confidence,
                    timestamp: sub.timestamp,
                },
            ),
        );
    }

    fn submit_batch(
        &mut self,
        now: u64,
        oracle: Addr,
        data_type: Sym,
        subs: &Vec<OracleDataSubmission>,
        max_age: Option<u64>,
    ) -> (r: Result<(), Error>)
        ensures
            r == answer(old(self)@.submit_batch(now, oracle, data_type, subs@, max_age)),
            final(self)@ == after(
                old(self)@,
                old(self)@.submit_batch(now, oracle, data_type, subs@, max_age),
            ),
    {
        match self.check_oracle(oracle, data_type) {
            Err(e) => {
                return Err(e);
            },
            Ok(()) => {},
        }
        let mut i: usize = 0;
        while i < subs.len()
            invariant
                i <= subs@.len(),
                self@ == old(self)@,
                self@.oracle_error(oracle, data_type) is None,
                VerifierState::readings_error(now, subs@, max_age, i as nat) is None,
            decreases subs.len() - i,
        {
            let sub = subs[i];
            match Self::check_reading(now, sub.confidence, sub.timestamp, max_age) {
                Err(e) => {
                    proof {
                        VerifierState::lemma_readings_error_grows(
                            now,
                            subs@,
                            max_age,
                            (i + 1) as nat,
                            subs@.len(),
                        );
                    }
                    return Err(e);
                },
                Ok(()) => {},
            }
            i += 1;
        }
        self.demand(oracle);
        let ghost start = self@;
        let mut i: usize = 0;
        while i < subs.len()
            invariant
                i <= subs@.len(),
                self@ == start.store_readings(oracle, data_type, subs@, i as nat),
            decreases subs.len() - i,
        {
            self.store_reading(oracle, data_type, subs[i]);
            i += 1;
        }
        Ok(())
    }

    /// Submit measurements for several keys at once, all of them or none.
    pub fn batch_submit_data(
        &mut self,
        now: u64,
        oracle: Addr,
        data_type: Sym,
        submissions: &Vec<(Sym, i128, u32, u64)>,
    ) -> (r: Result<(), Error>)
        ensures
            r == answer(
                old(self)@.submit_batch(
                    now,
                    oracle,
                    data_type,
                    submissions_of(submissions@),
                    Some(MAX_SUBMISSION_AGE),
                ),
            ),
            final(self)@ == after(
                old(self)@,
                old(self)@.submit_batch(
                    now,
                    oracle,
                    data_type,
                    submissions_of(submissions@),
                    Some(MAX_SUBMISSION_AGE),
                ),
            ),
    {
        let mut subs: Vec<OracleDataSubmission> = Vec::new();
        let mut i: usize = 0;
        while i < submissions.len()
            invariant
                i <= submissions@.len(),
                subs@ == submissions_of(submissions@.take(i as int)),
            decreases submissions.len() - i,
        {
            let (key, value, confidence, timestamp) = submissions[i];
            subs.push(OracleDataSubmission { key, value, confidence, timestamp });
            i += 1;
            assert(subs@ =~= submissions_of(submissions@.take(i as int)));
        }
        assert(submissions@.take(i as int) =~= submissions@);
        self.submit_batch(now, oracle, data_type, &subs, Some(MAX_SUBMISSION_AGE))
    }

    /// Submit measurements for several keys at once, all of them or none,
    /// however old they are.
    pub fn submit_data_batch(
        &mut self,
        now: u64,
        oracle: Addr,
        data_type: Sym,
        submissions: &Vec<OracleDataSubmission>,
    ) -> (r: Result<(), Error>)
        ensures
            r == answer(old(self)@.submit_batch(now, oracle, data_type, submissions@, None)),
            final(self)@ == after(
                old(self)@,
                old(self)@.submit_batch(now, oracle, data_type, submissions@, None),
            ),
    {
        self.submit_batch(now, oracle, data_type, submissions, None)
    }

    /// The readings that the median for a key is made of.
    fn eligible(&self, now: u64, data_type: Sym, key: Sym) -> (r: Vec<Reading>)
        requires
            self@.wf(),
        ensures
            r@ == self@.eligible(now, data_type, key),
            positive_weights(r@),
            r@.len() <= MAX_DATA_POINTS,
            total_weight(r@) <= 100 * r@.len(),
    {
        let mut out: Vec<Reading> = Vec::new();
        let max_age: u64 = self.get_max_data_age();
        let floor: u32 = match self.min_confidence {
            Some(c) => c,
            None => 0,
        };
        let ghost contributes = self@.contributes(now, data_type);
        match self.data_points.get(&(data_type, key)) {
            Some(points) => {
                let cap: usize = if points.len() <= MAX_DATA_POINTS {
                    points.len()
                } else {
                    MAX_DATA_POINTS
                };
                let mut i: usize = 0;
                while i < cap
                    invariant
                        i <= cap <= points@.len(),
                        cap <= MAX_DATA_POINTS,
                        self@.wf(),
                        contributes == self@.contributes(now, data_type),
                        max_age == self@.max_age(),
                        floor == self@.confidence_floor(),
                        out@ == points@.take(i as int).filter_map(contributes),
                        out@.len() <= i,
                        positive_weights(out@),
                        total_weight(out@) <= 100 * out@.len(),
                    decreases cap - i,
                {
                    proof {
                        assert(points@.take(i + 1).drop_last() =~= points@.take(i as int));
                    }
                    let p = points[i];
                    let ghost before = out@;
                    if now.saturating_sub(p.timestamp) <= max_age && p.confidence >= floor {
                        match self.oracles.get(&(data_type, p.oracle)) {
                            Some(entry) => {
                                if entry.active {
                                    out.push((p.value, entry.weight));
                                    assert(out@.drop_last() =~= before);
                                }
                            },
                            None => {},
                        }
                    }
                    i += 1;
                    assert(out@ =~= points@.take(i as int).filter_map(contributes));
                }
            },
            None => {
                assert(self@.points(data_type, key).take(0) =~= Seq::<OracleDataPoint>::empty());
            },
        }
        out
    }

    /// Whether the median for a key, if there is one, can be computed: its two
    /// middle values must not be so large that they cannot be added up.
    pub fn median_computable(&self, now: u64, data_type: Sym, key: Sym) -> (r: bool)
        requires
            self@.wf(),
        ensures
            r == (self@.has_median(now, data_type, key) ==> median_fits(
                self@.eligible(now, data_type, key),
            )),
    {
        let readings = self.eligible(now, data_type, key);
        if readings.len() == 0 || (readings.len() as u32) < self.get_min_oracle_count() {
            return true;
        }
        let (lower, upper) = middle_values(&readings);
        lower == upper || lower.checked_add(upper).is_some()
    }

    /// The weighted median of the submissions for a key that are fresh and
    /// confident enough and come from active oracles.
    pub fn get_median_value(&self, now: u64, data_type: Sym, key: Sym) -> (r: Result<i128, Error>)
        requires
            self@.wf(),
            self@.has_median(now, data_type, key) ==> median_fits(
                self@.eligible(now, data_type, key),
            ),
        ensures
            match r {
                Ok(m) => self@.has_median(now, data_type, key) && m == self@.median(
                    now,
                    data_type,
                    key,
                ),
                Err(e) => !self@.has_median(now, data_type, key) && e == Error::NoDataAvailable,
            },
    {
        let readings = self.eligible(now, data_type, key);
        if readings.len() == 0 || (readings.len() as u32) < self.get_min_oracle_count() {
            return Err(Error::NoDataAvailable);
        }
        Ok(median_of(&readings))
    }

    fn meets(value: i128, condition: &TriggerCondition) -> (r: bool)
        requires
            distance_fits(value as int, *condition),
        ensures
            r == condition_met(value as int, *condition),
    {
        match condition.comparison {
            TriggerComparison::LessThan => value < condition.threshold,
            TriggerComparison::GreaterThan => value > condition.threshold,
            TriggerComparison::Equal => value == condition.threshold,
            TriggerComparison::EqualWithTolerance => {
                let diff: i128 = saturating_sub(value, condition.threshold);
                let distance: i128 = if diff < 0 {
                    -diff
                } else {
                    diff
                };
                distance <= condition.tolerance
            },
        }
    }

    /// Whether the median for a key meets a trigger condition.
    pub fn verify_trigger(
        &self,
        now: u64,
        data_type: Sym,
        key: Sym,
        condition: TriggerCondition,
    ) -> (r: Result<bool, Error>)
        requires
            self@.wf(),
            self@.has_median(now, data_type, key) ==> median_fits(
                self@.eligible(now, data_type, key),
            ) && distance_fits(self@.median(now, data_type, key), condition),
        ensures
            r == self@.verify_trigger(now, data_type, key, condition),
    {
        match self.get_median_value(now, data_type, key) {
            Ok(median) => Ok(Self::meets(median, &condition)),
            Err(e) => Err(e),
        }
    }

    /// The latest submission for a key, if it is fresh enough.
    pub fn get_data(&self, now: u64, data_type: Sym, key: Sym) -> (r: Result<
        OracleDataPoint,
        Error,
    >)
        ensures
            ({
                let points = self@.points(data_type, key);
                r == if points.len() > 0 && age_of(now, latest_of(points).timestamp)
                    <= self@.max_age() {
                    Ok(latest_of(points))
                } else {
                    Err(Error::NoDataAvailable)
                }
            }),
            r matches Ok(p) ==> exists|i: int|
                is_latest(self@.points(data_type, key), i) && p == #[trigger] self@.points(
                    data_type,
                    key,
                )[i],
    {
        let points = match self.data_points.get(&(data_type, key)) {
            Some(v) => v,
            None => {
                return Err(Error::NoDataAvailable);
            },
        };
        if points.len() == 0 {
            return Err(Error::NoDataAvailable);
        }
        let mut best: usize = 0;
        let mut i: usize = 1;
        while i < points.len()
            invariant
                best < i <= points@.len(),
                forall|j: int|
                    0 <= j < i ==> (#[trigger] points@[j]).timestamp <= points@[best as int].timestamp,
                forall|j: int|
                    0 <= j < best ==> (#[trigger] points@[j]).timestamp
                        < points@[best as int].timestamp,
            decreases points.len() - i,
        {
            if points[i].timestamp > points[best].timestamp {
                best = i;
            }
            i += 1;
        }
        let latest = points[best];
        proof {
            assert(is_latest(points@, best as int));
            let k = choose|k: int| is_latest(points@, k);
            assert(k == best) by {
                if k < best {
                    assert(points@[k].timestamp < points@[best as int].timestamp);
                }
                if best < k {
                    assert(points@[best as int].timestamp < points@[k].timestamp);
                }
            }
        }
        if now.saturating_sub(latest.timestamp) > self.get_max_data_age() {
            return Err(Error::NoDataAvailable);
        }
        Ok(latest)
    }

    /// Statistics on the submissions for a key.
    pub fn get_aggregated(&self, now: u64, data_type: Sym, key: Sym) -> (r: Result<
        AggregatedData,
        Error,
    >)
        requires
            self@.wf(),
            self@.has_median(now, data_type, key) ==> median_fits(
                self@.eligible(now, data_type, key),
            ),
            self@.points(data_type, key).len() <= u32::MAX,
            list_at(self@.oracle_list, data_type).len() <= u32::MAX,
        ensures
            r == if self@.has_median(now, data_type, key) {
                Ok(self@.aggregate(now, data_type, key))
            } else {
                Err(Error::NoDataAvailable)
            },
    {
        let median_value: i128 = match self.get_median_value(now, data_type, key) {
            Ok(m) => m,
            Err(e) => {
                return Err(e);
            },
        };
        let mut oracle_count: u32 = 0;
        let mut min_confidence: u32 = 100;
        let mut confidence_sum: u128 = 0;
        let mut weight_sum: u128 = 0;
        let mut last_updated: u64 = 0;
        let ghost active = self@.from_active(data_type);
        proof {
            reveal(Seq::filter);
        }
        match self.data_points.get(&(data_type, key)) {
            Some(points) => {
                let mut i: usize = 0;
                assert(points@.take(0).filter(active) =~= Seq::<OracleDataPoint>::empty());
                while i < points.len()
                    invariant
                        i <= points@.len() <= u32::MAX,
                        self@.wf(),
                        active == self@.from_active(data_type),
                        oracle_count == points@.take(i as int).filter(active).len(),
                        oracle_count <= i,
                        min_confidence == lowest_confidence(points@.take(i as int).filter(active)),
                        last_updated == newest_timestamp(points@.take(i as int).filter(active)),
                        confidence_sum == self@.confidence_sum(
                            data_type,
                            points@.take(i as int).filter(active),
                        ),
                        weight_sum == self@.weight_sum(
                            data_type,
                            points@.take(i as int).filter(active),
                        ),
                        confidence_sum <= i * 0x64_FFFF_FFFF,
                        weight_sum <= i * 100,
                    decreases points.len() - i,
                {
                    proof {
                        reveal(Seq::filter);
                        assert(points@.take(i + 1).drop_last() =~= points@.take(i as int));
                        let kept = points@.take(i as int).filter(active);
                        assert(kept.push(points@[i as int]).drop_last() =~= kept);
                    }
                    let p = points[i];
                    match self.oracles.get(&(data_type, p.oracle)) {
                        Some(entry) => {
                            if entry.active {
                                let weight: u128 = entry.weight as u128;
                                proof {
                                    let c = p.confidence as int;
                                    let w = weight as int;
                                    assert(0 <= c * w <= 0xFFFF_FFFF * 100) by (nonlinear_arith)
                                        requires
                                            0 <= c <= 0xFFFF_FFFF,
                                            0 <= w <= 100,
                                    ;
                                }
                                oracle_count = oracle_count + 1;
                                if p.confidence < min_confidence {
                                    min_confidence = p.confidence;
                                }
                                if p.timestamp > last_updated {
                                    last_updated = p.timestamp;
                                }
                                confidence_sum = confidence_sum + (p.confidence as u128) * weight;
                                weight_sum = weight_sum + weight;
                            }
                        },
                        None => {},
                    }
                    i += 1;
                }
                assert(points@.take(i as int) =~= points@);
            },
            None => {},
        }
        let confidence: u32 = if weight_sum == 0 {
            0
        } else {
            let c: u128 = confidence_sum / weight_sum;
            if c > u32::MAX as u128 {
                u32::MAX
            } else {
                c as u32
            }
        };
        let active_oracle_count: u32 = self.count_active(data_type);
        Ok(
            AggregatedData {
                median_value,
                oracle_count,
                active_oracle_count,
                confidence,
                min_confidence,
                last_updated,
            },
        )
    }

    /// How many listed oracles of a data type are active.
    fn count_active(&self, data_type: Sym) -> (r: u32)
        requires
            list_at(self@.oracle_list, data_type).len() <= u32::MAX,
        ensures
            r == list_at(self@.oracle_list, data_type).filter(self@.oracle_active(data_type)).len(),
    {
        let ghost active = self@.oracle_active(data_type);
        let mut count: u32 = 0;
        proof {
            reveal(Seq::filter);
        }
        match self.oracle_list.get(&data_type) {
            Some(list) => {
                let mut i: usize = 0;
                while i < list.len()
                    invariant
                        i <= list@.len() <= u32::MAX,
                        active == self@.oracle_active(data_type),
                        count == list@.take(i as int).filter(active).len(),
                        count <= i,
                    decreases list.len() - i,
                {
                    proof {
                        reveal(Seq::filter);
                        assert(list@.take(i + 1).drop_last() =~= list@.take(i as int));
                    }
                    if self.is_active(data_type, list[i]) {
                        count = count + 1;
                    }
                    i += 1;
                }
                assert(list@.take(i as int) =~= list@);
            },
            None => {},
        }
        count
    }

    /// Why the newest submission for a key does not do.
    fn freshness_error(&self, now: u64, data_type: Sym, key: Sym, max_age: u64) -> (r: Option<Error>)
        ensures
            r == self@.freshness_error(now, data_type, key, max_age),
    {
        let mut latest: u64 = 0;
        match self.data_points.get(&(data_type, key)) {
            Some(points) => {
                if points.len() == 0 {
                    return Some(Error::NoDataAvailable);
                }
                let mut i: usize = 0;
                while i < points.len()
                    invariant
                        i <= points@.len(),
                        latest == newest_timestamp(points@.take(i as int)),
                    decreases points.len() - i,
                {
                    assert(points@.take(i + 1).drop_last() =~= points@.take(i as int));
                    if points[i].timestamp > latest {
                        latest = points[i].timestamp;
                    }
                    i += 1;
                }
                assert(points@.take(i as int) =~= points@);
            },
            None => {
                return Some(Error::NoDataAvailable);
            },
        }
        if now.saturating_sub(latest) > max_age {
            return Some(Error::StaleData);
        }
        None
    }

    /// Whether the newest submission for a key is at most `max_age` seconds old.
    pub fn has_fresh_data(&self, now: u64, data_type: Sym, key: Sym, max_age: u64) -> (r: bool)
        ensures
            r == (self@.freshness_error(now, data_type, key, max_age) is None),
    {
        self.freshness_error(now, data_type, key, max_age).is_none()
    }

    /// As `verify_trigger`, but refused where the newest submission is older
    /// than `max_age_seconds`. The result is announced.
    pub fn verify_trigger_fresh(
        &mut self,
        now: u64,
        data_type: Sym,
        key: Sym,
        condition: TriggerCondition,
        max_age_seconds: u64,
    ) -> (r: Result<bool, Error>)
        requires
            old(self)@.wf(),
            old(self)@.freshness_error(now, data_type, key, max_age_seconds) is None && old(
                self,
            )@.has_median(now, data_type, key) ==> median_fits(
                old(self)@.eligible(now, data_type, key),
            ) && distance_fits(old(self)@.median(now, data_type, key), condition),
        ensures
            r == answer(
                old(self)@.verify_trigger_fresh(now, data_type, key, condition, max_age_seconds),
            ),
            final(self)@ == after(
                old(self)@,
                old(self)@.verify_trigger_fresh(now, data_type, key, condition, max_age_seconds),
            ),
    {
        match self.freshness_error(now, data_type, key, max_age_seconds) {
            Some(e) => {
                return Err(e);
            },
            None => {},
        }
        let median: i128 = match self.get_median_value(now, data_type, key) {
            Ok(m) => m,
            Err(e) => {
                return Err(e);
            },
        };
        let result = Self::meets(median, &condition);
        self.emit(
            Event::VerificationResult {
                data_type,
                key,
                result,
                median,
                threshold: condition.threshold,
            },
        );
        Ok(result)
    }
}

} // verus!
