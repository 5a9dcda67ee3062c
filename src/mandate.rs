//! Standing debit authorizations and their own small lifecycle.
use vstd::prelude::*;
use crate::domain::MandateRequest;

verus! {

#[derive(Debug, Clone, Copy, PartialEq, Eq, Structural)]
pub enum MandateStatus {
    Active,
    Updated,
    Cancelled,
}

/// Earlier terms of a mandate, kept when it is amended.
#[derive(Debug)]
pub struct MandateTerms {
    pub debtor_account: String,
    pub creditor_account: String,
    pub effective_date: i64,
}

#[derive(Debug)]
pub struct MandateRecord {
    pub mandate_id: String,
    pub debtor_account: String,
    pub creditor_account: String,
    pub effective_date: i64,
    pub status: MandateStatus,
    pub history: Vec<MandateTerms>,
}

/// Why a mandate operation was refused.
#[derive(Debug, Clone, Copy, PartialEq, Eq, Structural)]
pub enum MandateError {
    /// The terms are malformed: an empty identifier or account, or equal accounts.
    InvalidTerms,
    /// A mandate with this identifier already exists.
    AlreadyExists,
    /// No mandate has this identifier.
    NotFound,
    /// The mandate is cancelled, which is terminal.
    Cancelled,
}

/// Mandate identifiers are unique in the sequence.
pub open spec fn unique_ids(ms: Seq<MandateRecord>) -> bool {
    forall|i: int, j: int|
        0 <= i < ms.len() && 0 <= j < ms.len() && #[trigger] ms[i].mandate_id@ == #[trigger] ms[j].mandate_id@
            ==> i == j
}

pub open spec fn has_id(ms: Seq<MandateRecord>, id: Seq<char>) -> bool {
    exists|i: int| 0 <= i < ms.len() && #[trigger] ms[i].mandate_id@ == id
}

/// The status of the mandate with this identifier, if any.
pub open spec fn lookup(ms: Seq<MandateRecord>, id: Seq<char>) -> Option<MandateStatus> {
    if has_id(ms, id) {
        Some(ms[choose|i: int| 0 <= i < ms.len() && #[trigger] ms[i].mandate_id@ == id].status)
    } else {
        None
    }
}

pub proof fn lemma_lookup_at(ms: Seq<MandateRecord>, i: int)
    requires
        unique_ids(ms),
        0 <= i < ms.len(),
    ensures
        lookup(ms, ms[i].mandate_id@) == Some(ms[i].status),
{
    let id = ms[i].mandate_id@;
    assert(has_id(ms, id));
    let j = choose|j: int| 0 <= j < ms.len() && #[trigger] ms[j].mandate_id@ == id;
    assert(ms[j].mandate_id@ == ms[i].mandate_id@);
}


pub proof fn lemma_lookup_push(ms: Seq<MandateRecord>, r: MandateRecord)
    requires
        unique_ids(ms),
        !has_id(ms, r.mandate_id@),
    ensures
        unique_ids(ms.push(r)),
        lookup(ms.push(r), r.mandate_id@) == Some(r.status),
        forall|k: Seq<char>| k != r.mandate_id@ ==> lookup(ms.push(r), k) == lookup(ms, k),
{
    let ns = ms.push(r);
    assert forall|i: int, j: int|
        0 <= i < ns.len() && 0 <= j < ns.len() && #[trigger] ns[i].mandate_id@ == #[trigger] ns[j].mandate_id@
        implies i == j by {
        if i < ms.len() && j < ms.len() {
            assert(ms[i].mandate_id@ == ms[j].mandate_id@);
        } else if i < ms.len() {
            assert(ms[i].mandate_id@ == r.mandate_id@);
        } else if j < ms.len() {
            assert(ms[j].mandate_id@ == r.mandate_id@);
        }
    }
    lemma_lookup_at(ns, ms.len() as int);
    assert forall|k: Seq<char>| k != r.mandate_id@ implies lookup(ns, k) == lookup(ms, k) by {
        if has_id(ms, k) {
            let j = choose|j: int| 0 <= j < ms.len() && #[trigger] ms[j].mandate_id@ == k;
            assert(ns[j].mandate_id@ == k);
            lemma_lookup_at(ms, j);
            lemma_lookup_at(ns, j);
        } else {
            assert forall|j: int| 0 <= j < ns.len() implies #[trigger] ns[j].mandate_id@ != k by {
                if j < ms.len() {
                    assert(ms[j].mandate_id@ != k);
                }
            }
        }
    }
}

pub proof fn lemma_lookup_update(ms: Seq<MandateRecord>, i: int, r: MandateRecord)
    requires
        unique_ids(ms),
        0 <= i < ms.len(),
        r.mandate_id@ == ms[i].mandate_id@,
    ensures
        unique_ids(ms.update(i, r)),
        lookup(ms.update(i, r), r.mandate_id@) == Some(r.status),
        forall|k: Seq<char>| k != r.mandate_id@ ==> lookup(ms.update(i, r), k) == lookup(ms, k),
{
    let ns = ms.update(i, r);
    assert forall|a: int, b: int|
        0 <= a < ns.len() && 0 <= b < ns.len() && #[trigger] ns[a].mandate_id@ == #[trigger] ns[b].mandate_id@
        implies a == b by {
        assert(ms[a].mandate_id@ == ns[a].mandate_id@);
        assert(ms[b].mandate_id@ == ns[b].mandate_id@);
    }
    lemma_lookup_at(ns, i);
    assert forall|k: Seq<char>| k != r.mandate_id@ implies lookup(ns, k) == lookup(ms, k) by {
        if has_id(ms, k) {
            let j = choose|j: int| 0 <= j < ms.len() && #[trigger] ms[j].mandate_id@ == k;
            assert(j != i);
            assert(ns[j].mandate_id@ == k);
            lemma_lookup_at(ms, j);
            lemma_lookup_at(ns, j);
        } else {
            assert forall|j: int| 0 <= j < ns.len() implies #[trigger] ns[j].mandate_id@ != k by {
                assert(ms[j].mandate_id@ != k);
            }
        }
    }
}

/// The position of the mandate with this identifier.
pub open spec fn index_of(ms: Seq<MandateRecord>, id: Seq<char>) -> int {
    choose|i: int| 0 <= i < ms.len() && #[trigger] ms[i].mandate_id@ == id
}

/// `m` holds the terms of `req`.
pub open spec fn holds_terms(m: MandateRecord, req: MandateRequest) -> bool {
    &&& m.mandate_id@ == req.mandate_id@
    &&& m.debtor_account@ == req.debtor_account@
    &&& m.creditor_account@ == req.creditor_account@
    &&& m.effective_date == req.mandate_date
}

/// `t` holds the terms `m` had.
pub open spec fn earlier_terms(t: MandateTerms, m: MandateRecord) -> bool {
    &&& t.debtor_account@ == m.debtor_account@
    &&& t.creditor_account@ == m.creditor_account@
    &&& t.effective_date == m.effective_date
}

/// Terms a mandate may be created with or amended to.
pub open spec fn terms_ok(req: MandateRequest) -> bool {
    &&& req.mandate_id@.len() > 0
    &&& req.debtor_account@.len() > 0
    &&& req.creditor_account@.len() > 0
    &&& req.debtor_account@ != req.creditor_account@
}

/// A mandate that exists and is not cancelled.
pub open spec fn amendable(s: Option<MandateStatus>) -> bool {
    s is Some && s != Some(MandateStatus::Cancelled)
}

/// All mandates, keyed by identifier.
#[derive(Debug)]
pub struct MandateRegistry {
    pub mandates: Vec<MandateRecord>,
}

impl MandateRegistry {
    pub open spec fn wf(&self) -> bool {
        unique_ids(self.mandates@)
    }

    pub open spec fn status_of(&self, id: Seq<char>) -> Option<MandateStatus> {
        lookup(self.mandates@, id)
    }

    pub fn new() -> (r: Self)
        ensures
            r.wf(),
            forall|id: Seq<char>| r.status_of(id) is None,
    {
        MandateRegistry { mandates: Vec::new() }
    }

    fn find(&self, id: &String) -> (r: Option<usize>)
        requires
            self.wf(),
        ensures
            r is None ==> !has_id(self.mandates@, id@),
            r matches Some(i) ==> i < self.mandates@.len() && self.mandates@[i as int].mandate_id@
                == id@,
    {
        let mut i: usize = 0;
        while i < self.mandates.len()
            invariant
                i <= self.mandates@.len(),
                forall|j: int| 0 <= j < i ==> #[trigger] self.mandates@[j].mandate_id@ != id@,
            decreases self.mandates.len() - i,
        {
            if self.mandates[i].mandate_id == *id {
                return Some(i);
            }
            i = i + 1;
        }
        None
    }

    /// The current status of a mandate.
    pub fn get_mandate_status(&self, id: &String) -> (r: Option<MandateStatus>)
        requires
            self.wf(),
        ensures
            r == self.status_of(id@),
    {
        match self.find(id) {
            None => None,
            Some(i) => {
                proof {
                    lemma_lookup_at(self.mandates@, i as int);
                }
                Some(self.mandates[i].status)
            },
        }
    }
    /// Records a new mandate in status Active.
    pub fn create_mandate(&mut self, req: MandateRequest) -> (r: Result<(), MandateError>)
        requires
            old(self).wf(),
        ensures
            final(self).wf(),
            !terms_ok(req) ==> r == Err::<(), MandateError>(MandateError::InvalidTerms),
            terms_ok(req) && old(self).status_of(req.mandate_id@) is Some ==> r == Err::<(), MandateError>(
                MandateError::AlreadyExists),
            r is Ok <==> terms_ok(req) && old(self).status_of(req.mandate_id@) is None,
            r is Ok ==> final(self).status_of(req.mandate_id@) == Some(MandateStatus::Active),
            r is Ok ==> final(self).mandates@.len() == old(self).mandates@.len() + 1
                && final(self).mandates@.drop_last() == old(self).mandates@
                && holds_terms(final(self).mandates@.last(), req)
                && final(self).mandates@.last().status == MandateStatus::Active
                && final(self).mandates@.last().history@.len() == 0,
            r is Err ==> final(self).mandates@ == old(self).mandates@,
            forall|k: Seq<char>| k != req.mandate_id@ ==> final(self).status_of(k) == old(self).status_of(k),
    {
        if req.mandate_id.as_str().unicode_len() == 0 || req.debtor_account.as_str().unicode_len() == 0
            || req.creditor_account.as_str().unicode_len() == 0
            || req.debtor_account == req.creditor_account {
            return Err(MandateError::InvalidTerms);
        }
        match self.find(&req.mandate_id) {
            Some(i) => {
                proof {
                    lemma_lookup_at(self.mandates@, i as int);
                }
                Err(MandateError::AlreadyExists)
            },
            None => {
                let rec = MandateRecord {
                    mandate_id: req.mandate_id,
                    debtor_account: req.debtor_account,
                    creditor_account: req.creditor_account,
                    effective_date: req.mandate_date,
                    status: MandateStatus::Active,
                    history: Vec::new(),
                };
                proof {
                    lemma_lookup_push(self.mandates@, rec);
                }
                let ghost ms = self.mandates@;
                self.mandates.push(rec);
                assert(self.mandates@.drop_last() =~= ms);
                Ok(())
            },
        }
    }

    /// Amends the terms of a mandate that is not cancelled; its status
    /// becomes Updated and the earlier terms are kept in its history.
    pub fn update_mandate(&mut self, req: MandateRequest) -> (r: Result<(), MandateError>)
        requires
            old(self).wf(),
        ensures
            final(self).wf(),
            !terms_ok(req) ==> r == Err::<(), MandateError>(MandateError::InvalidTerms),
            terms_ok(req) && old(self).status_of(req.mandate_id@) is None ==> r == Err::<(), MandateError>(
                MandateError::NotFound),
            terms_ok(req) && old(self).status_of(req.mandate_id@) == Some(MandateStatus::Cancelled)
                ==> r == Err::<(), MandateError>(MandateError::Cancelled),
            r is Ok <==> terms_ok(req) && amendable(old(self).status_of(req.mandate_id@)),
            r is Ok ==> final(self).status_of(req.mandate_id@) == Some(MandateStatus::Updated),
            r is Ok ==> {
                let i = index_of(old(self).mandates@, req.mandate_id@);
                let m = final(self).mandates@[i];
                &&& 0 <= i < old(self).mandates@.len()
                &&& final(self).mandates@.len() == old(self).mandates@.len()
                &&& forall|j: int|
                    0 <= j < old(self).mandates@.len() && j != i ==> #[trigger] final(self).mandates@[j]
                        == old(self).mandates@[j]
                &&& holds_terms(m, req)
                &&& m.status == MandateStatus::Updated
                &&& m.history@.len() == old(self).mandates@[i].history@.len() + 1
                &&& m.history@.drop_last() == old(self).mandates@[i].history@
                &&& earlier_terms(m.history@.last(), old(self).mandates@[i])
            },
            r is Err ==> final(self).mandates@ == old(self).mandates@,
            forall|k: Seq<char>| k != req.mandate_id@ ==> final(self).status_of(k) == old(self).status_of(k),
    {
        if req.mandate_id.as_str().unicode_len() == 0 || req.debtor_account.as_str().unicode_len() == 0
            || req.creditor_account.as_str().unicode_len() == 0
            || req.debtor_account == req.creditor_account {
            return Err(MandateError::InvalidTerms);
        }
        match self.find(&req.mandate_id) {
            None => Err(MandateError::NotFound),
            Some(i) => {
                proof {
                    lemma_lookup_at(self.mandates@, i as int);
                }
                if self.mandates[i].status == MandateStatus::Cancelled {
                    return Err(MandateError::Cancelled);
                }
                let mut rec = self.mandates.remove(i);
                let prev = MandateTerms {
                    debtor_account: rec.debtor_account,
                    creditor_account: rec.creditor_account,
                    effective_date: rec.effective_date,
                };
                let ghost old_history = rec.history@;
                rec.history.push(prev);
                assert(rec.history@.drop_last() =~= old_history);
                let rec = MandateRecord {
                    mandate_id: rec.mandate_id,
                    debtor_account: req.debtor_account,
                    creditor_account: req.creditor_account,
                    effective_date: req.mandate_date,
                    status: MandateStatus::Updated,
                    history: rec.history,
                };
                proof {
                    lemma_lookup_update(old(self).mandates@, i as int, rec);
                    assert(old(self).mandates@.update(i as int, rec) =~= self.mandates@.insert(i as int, rec));
                }
                self.mandates.insert(i, rec);
                Ok(())
            },
        }
    }

    /// Cancels a mandate; cancellation is terminal.
    pub fn cancel_mandate(&mut self, id: &String) -> (r: Result<(), MandateError>)
        requires
            old(self).wf(),
        ensures
            final(self).wf(),
            old(self).status_of(id@) is None ==> r == Err::<(), MandateError>(MandateError::NotFound),
            old(self).status_of(id@) == Some(MandateStatus::Cancelled) ==> r == Err::<(), MandateError>(
                MandateError::Cancelled),
            r is Ok <==> amendable(old(self).status_of(id@)),
            r is Ok ==> final(self).status_of(id@) == Some(MandateStatus::Cancelled),
            r is Ok ==> {
                let i = index_of(old(self).mandates@, id@);
                &&& 0 <= i < old(self).mandates@.len()
                &&& final(self).mandates@ == old(self).mandates@.update(
                    i,
                    MandateRecord { status: MandateStatus::Cancelled, ..old(self).mandates@[i] },
                )
            },
            r is Err ==> final(self).mandates@ == old(self).mandates@,
            forall|k: Seq<char>| k != id@ ==> final(self).status_of(k) == old(self).status_of(k),
    {
        match self.find(id) {
            None => Err(MandateError::NotFound),
            Some(i) => {
                proof {
                    lemma_lookup_at(self.mandates@, i as int);
                }
                if self.mandates[i].status == MandateStatus::Cancelled {
                    return Err(MandateError::Cancelled);
                }
                let rec = self.mandates.remove(i);
                let rec = MandateRecord { status: MandateStatus::Cancelled, ..rec };
                proof {
                    lemma_lookup_update(old(self).mandates@, i as int, rec);
                    assert(old(self).mandates@.update(i as int, rec) =~= self.mandates@.insert(i as int, rec));
                }
                self.mandates.insert(i, rec);
                Ok(())
            },
        }
    }
}


} // verus!
