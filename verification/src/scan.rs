//! The cursor state machine and the catalog scan.
//!
//! The engine owns the real cursor; this machine owns the protocol.  The
//! caller reports each advance's status code and hands over each record's
//! key and value bytes; the machine classifies, transitions, decodes, and
//! collects.  Operations attempted in a state that forbids them are
//! rejected with `ContractViolation` and leave the machine unchanged.

use vstd::prelude::*;
use crate::status::{StatusOutcome, spec_classify, classify};
use crate::error::{ScanError, MalformedDocument};
use crate::catalog::{CatalogEntry, decode_record, extract_model, entry_model, ExtractModel};
use crate::wire::parse_doc;

verus! {

/// The positioning state of a cursor.
#[derive(Clone, Copy, Debug, PartialEq, Eq, Structural)]
pub enum Phase {
    /// Just opened, not yet positioned on any record.
    Created,
    /// The last advance returned a record, which may be read.
    Positioned,
    /// The last advance signalled the end of the table.
    Exhausted,
    /// An advance failed; the scan is aborted.
    Failed,
    /// Closed; terminal.
    Closed,
}

/// What the caller must do after reporting an advance status.
#[derive(Clone, Copy, Debug, PartialEq, Eq, Structural)]
pub enum AdvanceOutcome {
    /// A record is available: read its key and value next.
    HasRecord,
    /// The table is exhausted: the scan finished normally.
    Done,
}

/// What became of one record's value bytes.
#[derive(Clone, Copy, Debug, PartialEq, Eq, Structural)]
pub enum RecordOutcome {
    /// A catalog entry was decoded and collected.
    Decoded,
    /// An internal record without `ident`; skipped.
    Skipped,
    /// A malformed record; noted with its key, scan continues.
    Rejected,
}

/// The phase after reporting `code` for an advance: an illegal report (the
/// cursor holds no position to advance from) changes nothing.
pub open spec fn phase_after_advance(p: Phase, code: i32) -> Phase {
    if p != Phase::Created && p != Phase::Positioned {
        p
    } else {
        match spec_classify(code) {
            StatusOutcome::Success => Phase::Positioned,
            StatusOutcome::NotFound => Phase::Exhausted,
            _ => Phase::Failed,
        }
    }
}

/// How far along the `Created -> Positioned* -> terminal` order a phase is.
pub open spec fn phase_rank(p: Phase) -> int {
    match p {
        Phase::Created => 0,
        Phase::Positioned => 1,
        Phase::Exhausted => 2,
        Phase::Failed => 2,
        Phase::Closed => 3,
    }
}

/// The phases a cursor visits along a run of advance reports.
pub open spec fn phases_of(start: Phase, codes: Seq<i32>) -> Seq<Phase>
    decreases codes.len(),
{
    if codes.len() == 0 {
        Seq::empty()
    } else {
        let p1 = phase_after_advance(start, codes[0]);
        seq![p1] + phases_of(p1, codes.subrange(1, codes.len() as int))
    }
}

/// One advance never moves the phase backwards, and a terminal phase
/// absorbs every further report.
pub proof fn lemma_phase_step(p: Phase, code: i32)
    ensures
        phase_rank(phase_after_advance(p, code)) >= phase_rank(p),
        phase_rank(p) >= 2 ==> phase_after_advance(p, code) == p,
{
}

/// The cursor visits phases in the order `Created`, then a run of
/// `Positioned`, then a terminal phase: along any run of advance reports
/// the rank never decreases, and a terminal phase, once reached, persists.
pub proof fn lemma_phase_order(start: Phase, codes: Seq<i32>)
    ensures
        phases_of(start, codes).len() == codes.len(),
        forall|i: int| 0 <= i < codes.len() ==> phase_rank(
            #[trigger] phases_of(start, codes)[i],
        ) >= phase_rank(start),
        forall|i: int, j: int| 0 <= i <= j < codes.len() ==> phase_rank(
            phases_of(start, codes)[i],
        ) <= phase_rank(phases_of(start, codes)[j]),
        forall|i: int, j: int| 0 <= i <= j < codes.len() && phase_rank(
            phases_of(start, codes)[i],
        ) >= 2 ==> phases_of(start, codes)[j] == phases_of(start, codes)[i],
        phase_rank(start) >= 2 ==> forall|i: int| 0 <= i < codes.len() ==> phases_of(
            start,
            codes,
        )[i] == start,
    decreases codes.len(),
{
    if codes.len() > 0 {
        let p1 = phase_after_advance(start, codes[0]);
        let tail = codes.subrange(1, codes.len() as int);
        let ps = phases_of(start, codes);
        let tail_ps = phases_of(p1, tail);
        lemma_phase_step(start, codes[0]);
        lemma_phase_order(p1, tail);
        assert(ps[0] == p1);
        assert(forall|i: int| 1 <= i < ps.len() ==> ps[i] == tail_ps[i - 1]);
    }
}

/// Keys are non-decreasing.
pub open spec fn sorted_keys(s: Seq<i64>) -> bool {
    forall|i: int, j: int| 0 <= i <= j < s.len() ==> s[i] <= s[j]
}

/// Where the engine delivers each key at or above the last one seen, the
/// sequence of keys the scan has seen stays non-decreasing.
pub proof fn lemma_keys_stay_sorted(s: Seq<i64>, key: i64)
    requires
        sorted_keys(s),
        s.len() == 0 || s.last() <= key,
    ensures
        sorted_keys(s.push(key)),
{
    let t = s.push(key);
    assert forall|i: int, j: int| 0 <= i <= j < t.len() implies t[i] <= t[j] by {
        if j < s.len() {
        } else if i < s.len() {
            assert(s[i] <= s[s.len() - 1]);
        }
    }
}

/// One catalog scan: the cursor's phase, the entries decoded so far, the
/// malformed records noted so far, and (as a ghost) every key seen, in the
/// order the engine delivered them.
pub struct CatalogScan {
    pub phase: Phase,
    pub entries: Vec<CatalogEntry>,
    pub rejects: Vec<MalformedDocument>,
    pub keys: Ghost<Seq<i64>>,
}

impl CatalogScan {
    /// A fresh scan over a just-opened cursor.
    pub fn new() -> (r: CatalogScan)
        ensures
            r.phase == Phase::Created,
            r.entries@ == Seq::<CatalogEntry>::empty(),
            r.rejects@ == Seq::<MalformedDocument>::empty(),
            r.keys@ == Seq::<i64>::empty(),
    {
        CatalogScan {
            phase: Phase::Created,
            entries: Vec::new(),
            rejects: Vec::new(),
            keys: Ghost(Seq::empty()),
        }
    }

    /// Reports the status code of one advance of the engine cursor.
    /// Success positions the cursor; the exhaustion sentinel ends the scan
    /// normally; every other non-success status aborts it with its
    /// category.  Reporting an advance on a cursor that is neither fresh
    /// nor positioned is a contract violation and changes nothing.
    pub fn on_advance(&mut self, code: i32) -> (r: Result<AdvanceOutcome, ScanError>)
        ensures
            final(self).phase == phase_after_advance(old(self).phase, code),
            final(self).entries@ == old(self).entries@,
            final(self).rejects@ == old(self).rejects@,
            final(self).keys@ == old(self).keys@,
            old(self).phase != Phase::Created && old(self).phase != Phase::Positioned ==> r
                == Result::<AdvanceOutcome, ScanError>::Err(ScanError::ContractViolation),
            old(self).phase == Phase::Created || old(self).phase == Phase::Positioned ==> r
                == (match spec_classify(code) {
                StatusOutcome::Success => Result::<AdvanceOutcome, ScanError>::Ok(
                    AdvanceOutcome::HasRecord,
                ),
                StatusOutcome::NotFound => Result::<AdvanceOutcome, ScanError>::Ok(
                    AdvanceOutcome::Done,
                ),
                cat => Result::<AdvanceOutcome, ScanError>::Err(ScanError::OperationFailed(cat)),
            }),
    {
        if self.phase != Phase::Created && self.phase != Phase::Positioned {
            return Err(ScanError::ContractViolation);
        }
        match classify(code) {
            StatusOutcome::Success => {
                self.phase = Phase::Positioned;
                Ok(AdvanceOutcome::HasRecord)
            },
            StatusOutcome::NotFound => {
                self.phase = Phase::Exhausted;
                Ok(AdvanceOutcome::Done)
            },
            cat => {
                self.phase = Phase::Failed;
                Err(ScanError::OperationFailed(cat))
            },
        }
    }

    /// Hands over the key and value bytes of the record the cursor is
    /// positioned on.  The value is decoded: an entry is collected, an
    /// internal record is skipped, a malformed record is noted with its
    /// key and the scan goes on.  Reading while not positioned is a
    /// contract violation and changes nothing.
    pub fn on_record(&mut self, key: i64, value: &Vec<u8>) -> (r: Result<RecordOutcome, ScanError>)
        ensures
            old(self).phase != Phase::Positioned ==> r == Result::<
                RecordOutcome,
                ScanError,
            >::Err(ScanError::ContractViolation) && *final(self) == *old(self),
            old(self).phase == Phase::Positioned ==> final(self).phase == Phase::Positioned
                && final(self).keys@ == old(self).keys@.push(key)
                && (match parse_doc(value@) {
                Option::None => r == Result::<RecordOutcome, ScanError>::Ok(
                    RecordOutcome::Rejected,
                ) && final(self).entries@ == old(self).entries@ && final(self).rejects@.len()
                    == old(self).rejects@.len() + 1 && final(self).rejects@.subrange(
                    0,
                    old(self).rejects@.len() as int,
                ) == old(self).rejects@ && final(self).rejects@.last().record_key == key,
                Option::Some(fs) => match extract_model(fs) {
                    ExtractModel::Skip => r == Result::<RecordOutcome, ScanError>::Ok(
                        RecordOutcome::Skipped,
                    ) && final(self).entries@ == old(self).entries@ && final(self).rejects@
                        == old(self).rejects@,
                    ExtractModel::Entry(em) => r == Result::<RecordOutcome, ScanError>::Ok(
                        RecordOutcome::Decoded,
                    ) && final(self).rejects@ == old(self).rejects@ && final(self).entries@.len()
                        == old(self).entries@.len() + 1 && final(self).entries@.subrange(
                        0,
                        old(self).entries@.len() as int,
                    ) == old(self).entries@ && entry_model(final(self).entries@.last()) == em,
                    ExtractModel::Malformed(reason) => r == Result::<
                        RecordOutcome,
                        ScanError,
                    >::Ok(RecordOutcome::Rejected) && final(self).entries@ == old(self).entries@
                        && final(self).rejects@ == old(self).rejects@.push(
                        MalformedDocument { record_key: key, reason },
                    ),
                },
            }),
    {
        if self.phase != Phase::Positioned {
            return Err(ScanError::ContractViolation);
        }
        proof {
            self.keys@ = self.keys@.push(key);
        }
        let r = match decode_record(key, value) {
            Result::Ok(Some(e)) => {
                self.entries.push(e);
                Ok(RecordOutcome::Decoded)
            },
            Result::Ok(None) => Ok(RecordOutcome::Skipped),
            Result::Err(md) => {
                self.rejects.push(md);
                Ok(RecordOutcome::Rejected)
            },
        };
        proof {
            assert(self.entries@.subrange(0, old(self).entries@.len() as int)
                =~= old(self).entries@);
        }
        r
    }

    /// Closes the scan.  Legal from any state but `Closed`: closing twice
    /// is a contract violation and changes nothing.
    pub fn close(&mut self) -> (r: Result<(), ScanError>)
        ensures
            old(self).phase != Phase::Closed ==> r == Result::<(), ScanError>::Ok(())
                && final(self).phase == Phase::Closed
                && final(self).entries@ == old(self).entries@
                && final(self).rejects@ == old(self).rejects@
                && final(self).keys@ == old(self).keys@,
            old(self).phase == Phase::Closed ==> r == Result::<(), ScanError>::Err(
                ScanError::ContractViolation,
            ) && *final(self) == *old(self),
    {
        if self.phase == Phase::Closed {
            return Err(ScanError::ContractViolation);
        }
        self.phase = Phase::Closed;
        Ok(())
    }
}

} // verus!
