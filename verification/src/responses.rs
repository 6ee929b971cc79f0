//! The completed-request store.
//!
//! Every finished exchange leaves its response here under its request
//! id, so a client can poll for a result out of band.  A device's
//! latest response is the stored one with the greatest timestamp among
//! that device's records.  Nothing is evicted: retention is left to the
//! embedding process.

use vstd::prelude::*;
use vstd::string::StrSliceExecFns;
use vstd::string::StringExecFns;

use crate::strutil::str_eq;

verus! {

/// Model of one stored response.
#[verifier::ext_equal]
pub struct ResponseModel {
    pub request_id: Seq<char>,
    pub device_id: Seq<char>,
    pub timestamp: u64,
    pub payload: Seq<char>,
}

/// One completed response: which request it answers, which device it
/// came from, when, and the response body as the caller serialized it.
pub struct StoredResponse {
    pub request_id: String,
    pub device_id: String,
    pub timestamp: u64,
    pub payload: String,
}

impl View for StoredResponse {
    type V = ResponseModel;

    open spec fn view(&self) -> ResponseModel {
        ResponseModel {
            request_id: self.request_id@,
            device_id: self.device_id@,
            timestamp: self.timestamp,
            payload: self.payload@,
        }
    }
}

pub open spec fn has_response(s: Seq<StoredResponse>, rid: Seq<char>) -> bool {
    exists|i: int| 0 <= i < s.len() && #[trigger] s[i].request_id@ == rid
}

pub open spec fn response_index(s: Seq<StoredResponse>, rid: Seq<char>) -> int {
    choose|i: int| 0 <= i < s.len() && #[trigger] s[i].request_id@ == rid
}

/// The responses of completed requests, keyed by request id.
pub struct ResponseStore {
    pub records: Vec<StoredResponse>,
}

impl ResponseStore {
    /// Request ids are unique.
    pub open spec fn wf(&self) -> bool {
        forall|i: int, j: int|
            0 <= i < j < self.records@.len() ==> #[trigger] self.records@[i].request_id@
                != #[trigger] self.records@[j].request_id@
    }

    pub fn new() -> (r: ResponseStore)
        ensures
            r.wf(),
            r.records@.len() == 0,
    {
        ResponseStore { records: Vec::new() }
    }

    /// Stores a completed response; a record already under the same
    /// request id is replaced.
    pub fn insert(&mut self, response: StoredResponse)
        requires
            old(self).wf(),
        ensures
            final(self).wf(),
            has_response(final(self).records@, response.request_id@),
            final(self).records@[response_index(
                final(self).records@,
                response.request_id@,
            )]@ == response@,
            forall|rid: Seq<char>|
                rid != response.request_id@ ==> has_response(final(self).records@, rid)
                    == has_response(old(self).records@, rid),
    {
        let found = find_response_index(&self.records, response.request_id.as_str());
        match found {
            Some(ix) => {
                proof {
                    let cix = response_index(self.records@, response.request_id@);
                    assert(0 <= cix < self.records@.len() && self.records@[cix].request_id@
                        == response.request_id@);
                    if cix != ix as int {
                        assert(false);
                    }
                }
                let ghost rid = response.request_id@;
                self.records[ix] = response;
                proof {
                    assert forall|i: int, j: int|
                        0 <= i < j < self.records@.len() implies #[trigger] self
                        .records@[i].request_id@ != #[trigger] self.records@[j].request_id@ by {
                        assert(old(self).records@[i].request_id@ != old(
                            self,
                        ).records@[j].request_id@);
                    }
                    let cix2 = response_index(self.records@, rid);
                    assert(self.records@[ix as int].request_id@ == rid);
                    assert(0 <= cix2 < self.records@.len() && self.records@[cix2].request_id@
                        == rid);
                    if cix2 != ix as int {
                        assert(false);
                    }
                    assert forall|r2: Seq<char>| r2 != rid implies has_response(self.records@, r2)
                        == has_response(old(self).records@, r2) by {
                        if has_response(self.records@, r2) {
                            let i = choose|i: int|
                                0 <= i < self.records@.len() && self.records@[i].request_id@ == r2;
                            assert(i != ix as int);
                            assert(old(self).records@[i].request_id@ == r2);
                        }
                        if has_response(old(self).records@, r2) {
                            let i = choose|i: int|
                                0 <= i < old(self).records@.len() && old(
                                    self,
                                ).records@[i].request_id@ == r2;
                            assert(i != ix as int);
                            assert(self.records@[i].request_id@ == r2);
                        }
                    }
                }
            },
            None => {
                let ghost rid = response.request_id@;
                self.records.push(response);
                proof {
                    let at = self.records@.len() - 1;
                    assert(self.records@[at].request_id@ == rid);
                    assert forall|i: int, j: int|
                        0 <= i < j < self.records@.len() implies #[trigger] self
                        .records@[i].request_id@ != #[trigger] self.records@[j].request_id@ by {
                        if j < at {
                            assert(self.records@[i] == old(self).records@[i]);
                            assert(self.records@[j] == old(self).records@[j]);
                        } else {
                            assert(self.records@[i] == old(self).records@[i]);
                            assert(old(self).records@[i].request_id@ != rid);
                        }
                    }
                    let cix2 = response_index(self.records@, rid);
                    assert(0 <= cix2 < self.records@.len() && self.records@[cix2].request_id@
                        == rid);
                    if cix2 != at {
                        assert(false);
                    }
                    assert forall|r2: Seq<char>| r2 != rid implies has_response(self.records@, r2)
                        == has_response(old(self).records@, r2) by {
                        if has_response(self.records@, r2) {
                            let i = choose|i: int|
                                0 <= i < self.records@.len() && self.records@[i].request_id@ == r2;
                            assert(i < at);
                            assert(old(self).records@[i].request_id@ == r2);
                        }
                        if has_response(old(self).records@, r2) {
                            let i = choose|i: int|
                                0 <= i < old(self).records@.len() && old(
                                    self,
                                ).records@[i].request_id@ == r2;
                            assert(self.records@[i].request_id@ == r2);
                        }
                    }
                }
            },
        }
    }

    /// The response stored under a request id.
    pub fn response_for(&self, request_id: &str) -> (r: Option<&StoredResponse>)
        requires
            self.wf(),
        ensures
            r is Some <==> has_response(self.records@, request_id@),
            r matches Some(resp) ==> resp@ == self.records@[response_index(
                self.records@,
                request_id@,
            )]@,
    {
        let found = find_response_index(&self.records, request_id);
        match found {
            Some(ix) => {
                proof {
                    let cix = response_index(self.records@, request_id@);
                    assert(0 <= cix < self.records@.len() && self.records@[cix].request_id@
                        == request_id@);
                    if cix != ix as int {
                        assert(false);
                    }
                }
                Some(&self.records[ix])
            },
            None => None,
        }
    }

    /// A device's records exist exactly when some stored response names
    /// it.
    pub open spec fn has_device_response(&self, device_id: Seq<char>) -> bool {
        exists|i: int|
            0 <= i < self.records@.len() && #[trigger] self.records@[i].device_id@ == device_id
    }

    /// The latest completed response of one device: a stored record of
    /// that device whose timestamp no other of its records exceeds.
    pub fn latest_for_device(&self, device_id: &str) -> (r: Option<&StoredResponse>)
        ensures
            r is Some <==> self.has_device_response(device_id@),
            r matches Some(resp) ==> resp.device_id@ == device_id@ && (exists|i: int|
                0 <= i < self.records@.len() && #[trigger] self.records@[i]@ == resp@) && (forall|
                j: int,
            |
                0 <= j < self.records@.len() && #[trigger] self.records@[j].device_id@
                    == device_id@ ==> self.records@[j].timestamp <= resp.timestamp),
    {
        let mut best: Option<usize> = None;
        let n = self.records.len();
        let mut i: usize = 0;
        while i < n
            invariant
                0 <= i <= n,
                n == self.records@.len(),
                match best {
                    Some(b) => b < i && self.records@[b as int].device_id@ == device_id@ && forall|
                        j: int,
                    |
                        0 <= j < i && #[trigger] self.records@[j].device_id@ == device_id@
                            ==> self.records@[j].timestamp <= self.records@[
                            b as int
                        ].timestamp,
                    None => forall|j: int|
                        0 <= j < i ==> #[trigger] self.records@[j].device_id@ != device_id@,
                },
            decreases n - i,
        {
            if str_eq(self.records[i].device_id.as_str(), device_id) {
                let better = match best {
                    Some(b) => self.records[i].timestamp > self.records[b].timestamp,
                    None => true,
                };
                if better {
                    best = Some(i);
                }
            }
            i += 1;
        }
        match best {
            Some(b) => {
                proof {
                    assert((b as int) < self.records@.len());
                    let w: int = b as int;
                    assert(self.records@[w]@ == self.records@[b as int]@);
                    assert(exists|i: int|
                        0 <= i < self.records@.len() && #[trigger] self.records@[i]@
                            == self.records@[b as int]@);
                }
                Some(&self.records[b])
            },
            None => None,
        }
    }
}

fn find_response_index(records: &Vec<StoredResponse>, rid: &str) -> (r: Option<usize>)
    ensures
        match r {
            Some(i) => i < records@.len() && records@[i as int].request_id@ == rid@,
            None => !has_response(records@, rid@),
        },
{
    let mut i: usize = 0;
    while i < records.len()
        invariant
            0 <= i <= records@.len(),
            forall|j: int| 0 <= j < i ==> records@[j].request_id@ != rid@,
        decreases records@.len() - i,
    {
        if str_eq(records[i].request_id.as_str(), rid) {
            return Some(i);
        }
        i += 1;
    }
    None
}

} // verus!
