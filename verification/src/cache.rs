//! The address and public-key cache.
//!
//! Device-derived values are expensive: each one costs a round trip to
//! the device.  The cache is keyed by device, derivation path, coin and
//! optional script type.  A lookup is answered from the table alone; a
//! value is written only after a successful, non-empty resolution, so a
//! failed or empty result is never cached and a later query retries the
//! device.  Writing the same key again replaces the entry, which makes
//! warm-up writes and foreground writes interchangeable.

use vstd::prelude::*;
use vstd::string::StrSliceExecFns;
use vstd::string::StringExecFns;

use crate::strutil::str_eq;

verus! {

/// The lookup key: device, path, coin, optional script type.
#[verifier::ext_equal]
pub struct CacheKeyModel {
    pub device_id: Seq<char>,
    pub path: Seq<char>,
    pub coin: Seq<char>,
    pub script_type: Option<Seq<char>>,
}

/// Model of one cached derivation.
#[verifier::ext_equal]
pub struct DerivationModel {
    pub device_id: Seq<char>,
    pub derivation_path: Seq<char>,
    pub coin_name: Seq<char>,
    pub script_type: Option<Seq<char>>,
    pub xpub: Option<Seq<char>>,
    pub address: Option<Seq<char>>,
    pub cached_at: i64,
    pub last_used: i64,
}

/// One cached derivation: the key fields, the values the device
/// confirmed, and when they were written.
pub struct CachedDerivation {
    pub device_id: String,
    pub derivation_path: String,
    pub coin_name: String,
    pub script_type: Option<String>,
    pub xpub: Option<String>,
    pub address: Option<String>,
    pub cached_at: i64,
    pub last_used: i64,
}

impl View for CachedDerivation {
    type V = DerivationModel;

    open spec fn view(&self) -> DerivationModel {
        DerivationModel {
            device_id: self.device_id@,
            derivation_path: self.derivation_path@,
            coin_name: self.coin_name@,
            script_type: match self.script_type {
                Some(s) => Some(s@),
                None => None,
            },
            xpub: match self.xpub {
                Some(s) => Some(s@),
                None => None,
            },
            address: match self.address {
                Some(s) => Some(s@),
                None => None,
            },
            cached_at: self.cached_at,
            last_used: self.last_used,
        }
    }
}

pub open spec fn key_of(e: DerivationModel) -> CacheKeyModel {
    CacheKeyModel {
        device_id: e.device_id,
        path: e.derivation_path,
        coin: e.coin_name,
        script_type: e.script_type,
    }
}

pub open spec fn has_key(entries: Seq<CachedDerivation>, k: CacheKeyModel) -> bool {
    exists|i: int| 0 <= i < entries.len() && key_of(#[trigger] entries[i]@) == k
}

pub open spec fn key_index(entries: Seq<CachedDerivation>, k: CacheKeyModel) -> int {
    choose|i: int| 0 <= i < entries.len() && key_of(#[trigger] entries[i]@) == k
}

/// The cache table.
pub struct DerivationCache {
    pub entries: Vec<CachedDerivation>,
}

impl DerivationCache {
    /// At most one entry per key.
    pub open spec fn wf(&self) -> bool {
        forall|i: int, j: int|
            0 <= i < j < self.entries@.len() ==> key_of(#[trigger] self.entries@[i]@) != key_of(
                #[trigger] self.entries@[j]@,
            )
    }

    pub fn new() -> (r: DerivationCache)
        ensures
            r.wf(),
            r.entries@.len() == 0,
    {
        DerivationCache { entries: Vec::new() }
    }

    /// Answers a lookup from the table alone; no device is involved.  The
    /// same key asked twice with no intervening write reads the identical
    /// entry.
    pub fn lookup(
        &self,
        device_id: &str,
        path: &str,
        coin: &str,
        script_type: Option<&String>,
    ) -> (r: Option<CachedDerivation>)
        requires
            self.wf(),
        ensures
            r is Some <==> has_key(
                self.entries@,
                (CacheKeyModel {
                    device_id: device_id@,
                    path: path@,
                    coin: coin@,
                    script_type: spec_opt_view(script_type),
                }),
            ),
            r matches Some(e) ==> e@ == self.entries@[key_index(
                self.entries@,
                (CacheKeyModel {
                    device_id: device_id@,
                    path: path@,
                    coin: coin@,
                    script_type: spec_opt_view(script_type),
                }),
            )]@,
    {
        let ghost k = CacheKeyModel {
            device_id: device_id@,
            path: path@,
            coin: coin@,
            script_type: spec_opt_view(script_type),
        };
        let found = find_key_index(&self.entries, device_id, path, coin, script_type);
        match found {
            Some(ix) => {
                proof {
                    let cix = key_index(self.entries@, k);
                    assert(0 <= cix < self.entries@.len() && key_of(self.entries@[cix]@) == k);
                    if cix != ix as int {
                        assert(false);
                    }
                }
                Some(clone_entry(&self.entries[ix]))
            },
            None => None,
        }
    }

    /// Writes a resolution.  Only a non-empty success is written: with
    /// neither a non-empty key nor a non-empty address the table is left
    /// exactly as it was, and a later lookup misses again.  Writing an
    /// existing key replaces its entry; every other position is
    /// untouched.
    pub fn store_derivation(
        &mut self,
        device_id: &str,
        path: &str,
        coin: &str,
        script_type: Option<&String>,
        xpub: Option<&String>,
        address: Option<&String>,
        now: i64,
    ) -> (stored: bool)
        requires
            old(self).wf(),
        ensures
            final(self).wf(),
            stored <==> spec_nonempty(xpub) || spec_nonempty(address),
            !stored ==> *final(self) == *old(self),
            stored ==> {
                let k = (CacheKeyModel {
                    device_id: device_id@,
                    path: path@,
                    coin: coin@,
                    script_type: spec_opt_view(script_type),
                });
                &&& has_key(final(self).entries@, k)
                &&& final(self).entries@[key_index(final(self).entries@, k)]@
                    == (DerivationModel {
                    device_id: device_id@,
                    derivation_path: path@,
                    coin_name: coin@,
                    script_type: spec_opt_view(script_type),
                    xpub: spec_opt_view(xpub),
                    address: spec_opt_view(address),
                    cached_at: now,
                    last_used: now,
                })
                &&& forall|k2: CacheKeyModel|
                    k2 != k ==> has_key(final(self).entries@, k2) == has_key(
                        old(self).entries@,
                        k2,
                    )
                &&& forall|j: int|
                    0 <= j < final(self).entries@.len() && key_of(
                        #[trigger] final(self).entries@[j]@,
                    ) != k ==> exists|oj: int|
                        0 <= oj < old(self).entries@.len() && final(self).entries@[j] == old(
                            self,
                        ).entries@[oj]
            },
    {
        let has_xpub = match xpub {
            Some(x) => x.as_str().unicode_len() > 0,
            None => false,
        };
        let has_address = match address {
            Some(a) => a.as_str().unicode_len() > 0,
            None => false,
        };
        if !has_xpub && !has_address {
            return false;
        }
        let entry = CachedDerivation {
            device_id: device_id.to_owned(),
            derivation_path: path.to_owned(),
            coin_name: coin.to_owned(),
            script_type: match script_type {
                Some(s) => Some(s.clone()),
                None => None,
            },
            xpub: match xpub {
                Some(s) => Some(s.clone()),
                None => None,
            },
            address: match address {
                Some(s) => Some(s.clone()),
                None => None,
            },
            cached_at: now,
            last_used: now,
        };
        let ghost k = key_of(entry@);
        let found = find_key_index(&self.entries, device_id, path, coin, script_type);
        match found {
            Some(ix) => {
                proof {
                    let cix = key_index(self.entries@, k);
                    assert(0 <= cix < self.entries@.len() && key_of(self.entries@[cix]@) == k);
                    if cix != ix as int {
                        assert(false);
                    }
                }
                self.entries[ix] = entry;
                proof {
                    assert forall|i: int, j: int|
                        0 <= i < j < self.entries@.len() implies key_of(
                        #[trigger] self.entries@[i]@,
                    ) != key_of(#[trigger] self.entries@[j]@) by {
                        assert(key_of(old(self).entries@[i]@) != key_of(old(self).entries@[j]@));
                        if i != ix as int && j != ix as int {
                            assert(self.entries@[i] == old(self).entries@[i]);
                            assert(self.entries@[j] == old(self).entries@[j]);
                        }
                    }
                    let cix2 = key_index(self.entries@, k);
                    assert(key_of(self.entries@[ix as int]@) == k);
                    assert(0 <= cix2 < self.entries@.len() && key_of(self.entries@[cix2]@) == k);
                    if cix2 != ix as int {
                        assert(false);
                    }
                    assert forall|k2: CacheKeyModel| k2 != k implies has_key(self.entries@, k2)
                        == has_key(old(self).entries@, k2) by {
                        if has_key(self.entries@, k2) {
                            let i = choose|i: int|
                                0 <= i < self.entries@.len() && key_of(self.entries@[i]@) == k2;
                            assert(i != ix as int);
                            assert(key_of(old(self).entries@[i]@) == k2);
                        }
                        if has_key(old(self).entries@, k2) {
                            let i = choose|i: int|
                                0 <= i < old(self).entries@.len() && key_of(
                                    old(self).entries@[i]@,
                                ) == k2;
                            assert(i != ix as int);
                            assert(key_of(self.entries@[i]@) == k2);
                        }
                    }
                    assert forall|j: int|
                        0 <= j < self.entries@.len() && key_of(#[trigger] self.entries@[j]@)
                            != k implies exists|oj: int|
                        0 <= oj < old(self).entries@.len() && self.entries@[j] == old(
                            self,
                        ).entries@[oj] by {
                        assert(j != ix as int);
                        assert(self.entries@[j] == old(self).entries@[j]);
                    }
                }
                true
            },
            None => {
                self.entries.push(entry);
                proof {
                    let at = self.entries@.len() - 1;
                    assert(key_of(self.entries@[at]@) == k);
                    assert forall|i: int, j: int|
                        0 <= i < j < self.entries@.len() implies key_of(
                        #[trigger] self.entries@[i]@,
                    ) != key_of(#[trigger] self.entries@[j]@) by {
                        if j < at {
                            assert(self.entries@[i] == old(self).entries@[i]);
                            assert(self.entries@[j] == old(self).entries@[j]);
                        } else {
                            assert(self.entries@[i] == old(self).entries@[i]);
                            assert(key_of(old(self).entries@[i]@) != k);
                        }
                    }
                    let cix2 = key_index(self.entries@, k);
                    assert(0 <= cix2 < self.entries@.len() && key_of(self.entries@[cix2]@) == k);
                    if cix2 != at {
                        assert(false);
                    }
                    assert forall|k2: CacheKeyModel| k2 != k implies has_key(self.entries@, k2)
                        == has_key(old(self).entries@, k2) by {
                        if has_key(self.entries@, k2) {
                            let i = choose|i: int|
                                0 <= i < self.entries@.len() && key_of(self.entries@[i]@) == k2;
                            assert(i != at);
                            assert(key_of(old(self).entries@[i]@) == k2);
                        }
                        if has_key(old(self).entries@, k2) {
                            let i = choose|i: int|
                                0 <= i < old(self).entries@.len() && key_of(
                                    old(self).entries@[i]@,
                                ) == k2;
                            assert(key_of(self.entries@[i]@) == k2);
                        }
                    }
                    assert forall|j: int|
                        0 <= j < self.entries@.len() && key_of(#[trigger] self.entries@[j]@)
                            != k implies exists|oj: int|
                        0 <= oj < old(self).entries@.len() && self.entries@[j] == old(
                            self,
                        ).entries@[oj] by {
                        assert(j != at);
                        assert(self.entries@[j] == old(self).entries@[j]);
                    }
                }
                true
            },
        }
    }

    /// Writes a resolution stamped with the current clock; the rule on
    /// what is written is exactly that of `store_derivation`.
    pub fn store_derivation_fresh(
        &mut self,
        device_id: &str,
        path: &str,
        coin: &str,
        script_type: Option<&String>,
        xpub: Option<&String>,
        address: Option<&String>,
    ) -> (stored: bool)
        requires
            old(self).wf(),
        ensures
            final(self).wf(),
            stored <==> spec_nonempty(xpub) || spec_nonempty(address),
            !stored ==> *final(self) == *old(self),
            stored ==> {
                let k = (CacheKeyModel {
                    device_id: device_id@,
                    path: path@,
                    coin: coin@,
                    script_type: spec_opt_view(script_type),
                });
                &&& has_key(final(self).entries@, k)
                &&& ({
                    let e = final(self).entries@[key_index(final(self).entries@, k)]@;
                    e.device_id == device_id@ && e.derivation_path == path@ && e.coin_name
                        == coin@ && e.script_type == spec_opt_view(script_type) && e.xpub
                        == spec_opt_view(xpub) && e.address == spec_opt_view(address)
                })
                &&& forall|k2: CacheKeyModel|
                    k2 != k ==> has_key(final(self).entries@, k2) == has_key(
                        old(self).entries@,
                        k2,
                    )
            },
    {
        let now = crate::ids::now_timestamp();
        self.store_derivation(device_id, path, coin, script_type, xpub, address, now)
    }

    /// Clears every entry of one device, and nothing else.
    pub fn clear_device(&mut self, device_id: &str)
        requires
            old(self).wf(),
        ensures
            final(self).wf(),
            final(self).entries@ == old(self).entries@.filter(
                |e: CachedDerivation| e.device_id@ != device_id@,
            ),
            forall|j: int|
                0 <= j < final(self).entries@.len()
                    ==> #[trigger] final(self).entries@[j].device_id@ != device_id@,
    {
        let mut kept: Vec<CachedDerivation> = Vec::new();
        let n = self.entries.len();
        let mut i: usize = 0;
        proof {
            assert(old(self).entries@.take(0) =~= Seq::<CachedDerivation>::empty());
            reveal(Seq::filter);
        }
        while i < n
            invariant
                0 <= i <= n,
                n == old(self).entries@.len(),
                self == old(self),
                kept@ == old(self).entries@.take(i as int).filter(
                    |e: CachedDerivation| e.device_id@ != device_id@,
                ),
                forall|j: int|
                    0 <= j < kept@.len() ==> #[trigger] kept@[j].device_id@ != device_id@,
            decreases n - i,
        {
            let keep = !str_eq(self.entries[i].device_id.as_str(), device_id);
            if keep {
                let copied = clone_entry(&self.entries[i]);
                proof {
                    assert(copied == old(self).entries@[i as int]);
                }
                kept.push(copied);
                proof {
                    reveal(Seq::filter);
                    let pred = |e: CachedDerivation| e.device_id@ != device_id@;
                    let taken = old(self).entries@.take(i + 1);
                    assert(taken.drop_last() =~= old(self).entries@.take(i as int));
                    assert(taken.last() == old(self).entries@[i as int]);
                    assert(kept@ =~= taken.filter(pred));
                }
            } else {
                proof {
                    reveal(Seq::filter);
                    let pred = |e: CachedDerivation| e.device_id@ != device_id@;
                    let taken = old(self).entries@.take(i + 1);
                    assert(taken.drop_last() =~= old(self).entries@.take(i as int));
                    assert(taken.last() == old(self).entries@[i as int]);
                    assert(kept@ =~= taken.filter(pred));
                }
            }
            i += 1;
        }
        proof {
            assert(old(self).entries@.take(n as int) =~= old(self).entries@);
        }
        self.entries = kept;
        proof {
            lemma_filter_keeps_distinct_cache_keys(
                old(self).entries@,
                |e: CachedDerivation| e.device_id@ != device_id@,
            );
        }
    }
}

pub open spec fn spec_opt_view(o: Option<&String>) -> Option<Seq<char>> {
    match o {
        Some(s) => Some(s@),
        None => None,
    }
}

pub open spec fn spec_nonempty(o: Option<&String>) -> bool {
    match o {
        Some(s) => s@.len() > 0,
        None => false,
    }
}

fn opt_str_eq(a: &Option<String>, b: Option<&String>) -> (r: bool)
    ensures
        r == ((match a {
            Some(s) => Some(s@),
            None => None,
        }) == spec_opt_view(b)),
{
    match (a, b) {
        (Some(x), Some(y)) => str_eq(x.as_str(), y.as_str()),
        (None, None) => true,
        _ => false,
    }
}

fn clone_entry(e: &CachedDerivation) -> (r: CachedDerivation)
    ensures
        r == *e,
{
    CachedDerivation {
        device_id: e.device_id.clone(),
        derivation_path: e.derivation_path.clone(),
        coin_name: e.coin_name.clone(),
        script_type: match &e.script_type {
            Some(s) => Some(s.clone()),
            None => None,
        },
        xpub: match &e.xpub {
            Some(s) => Some(s.clone()),
            None => None,
        },
        address: match &e.address {
            Some(s) => Some(s.clone()),
            None => None,
        },
        cached_at: e.cached_at,
        last_used: e.last_used,
    }
}

#[verifier::loop_isolation(false)]
fn find_key_index(
    entries: &Vec<CachedDerivation>,
    device_id: &str,
    path: &str,
    coin: &str,
    script_type: Option<&String>,
) -> (r: Option<usize>)
    ensures
        ({
            let k = (CacheKeyModel {
                device_id: device_id@,
                path: path@,
                coin: coin@,
                script_type: spec_opt_view(script_type),
            });
            match r {
                Some(i) => i < entries@.len() && key_of(entries@[i as int]@) == k,
                None => !has_key(entries@, k),
            }
        }),
{
    let ghost k = CacheKeyModel {
        device_id: device_id@,
        path: path@,
        coin: coin@,
        script_type: spec_opt_view(script_type),
    };
    let mut i: usize = 0;
    while i < entries.len()
        invariant
            0 <= i <= entries@.len(),
            forall|j: int| 0 <= j < i ==> key_of(#[trigger] entries@[j]@) != k,
        decreases entries@.len() - i,
    {
        let e = &entries[i];
        proof {
            assert(*e == entries@[i as int]);
        }
        let same_dev = str_eq(e.device_id.as_str(), device_id);
        let same_path = str_eq(e.derivation_path.as_str(), path);
        let same_coin = str_eq(e.coin_name.as_str(), coin);
        let same_st = opt_str_eq(&e.script_type, script_type);
        if same_dev && same_path && same_coin && same_st {
            proof {
                assert(entries@[i as int]@.device_id == device_id@);
                assert(entries@[i as int]@.derivation_path == path@);
                assert(entries@[i as int]@.coin_name == coin@);
                assert(entries@[i as int]@.script_type == spec_opt_view(script_type));
                assert(key_of(entries@[i as int]@) == k);
            }
            return Some(i);
        }
        proof {
            if key_of(entries@[i as int]@) == k {
                assert(entries@[i as int]@.device_id == device_id@);
                assert(entries@[i as int]@.derivation_path == path@);
                assert(entries@[i as int]@.coin_name == coin@);
                assert(entries@[i as int]@.script_type == spec_opt_view(script_type));
                assert(false);
            }
        }
        i += 1;
    }
    None
}

proof fn lemma_cache_filter_sub(v: Seq<CachedDerivation>, pred: spec_fn(CachedDerivation) -> bool)
    ensures
        forall|x: CachedDerivation| #[trigger] v.filter(pred).contains(x) ==> v.contains(x),
    decreases v.len(),
{
    reveal(Seq::filter);
    if v.len() > 0 {
        let prefix = v.drop_last();
        lemma_cache_filter_sub(prefix, pred);
        assert forall|x: CachedDerivation| #[trigger] v.filter(pred).contains(x) implies v.contains(
            x,
        ) by {
            let f = v.filter(pred);
            let i = choose|i: int| 0 <= i < f.len() && f[i] == x;
            if pred(v.last()) && i == f.len() - 1 {
                assert(v[v.len() - 1] == x);
            } else {
                assert(prefix.filter(pred).contains(x));
                let kk = choose|kk: int| 0 <= kk < prefix.len() && prefix[kk] == x;
                assert(v[kk] == x);
            }
        }
    }
}

proof fn lemma_filter_keeps_distinct_cache_keys(
    v: Seq<CachedDerivation>,
    pred: spec_fn(CachedDerivation) -> bool,
)
    requires
        forall|i: int, j: int|
            0 <= i < j < v.len() ==> key_of(#[trigger] v[i]@) != key_of(#[trigger] v[j]@),
    ensures
        forall|i: int, j: int|
            0 <= i < j < v.filter(pred).len() ==> key_of(#[trigger] v.filter(pred)[i]@) != key_of(
                #[trigger] v.filter(pred)[j]@,
            ),
    decreases v.len(),
{
    reveal(Seq::filter);
    if v.len() > 0 {
        let prefix = v.drop_last();
        lemma_filter_keeps_distinct_cache_keys(prefix, pred);
        assert forall|i: int, j: int|
            0 <= i < j < v.filter(pred).len() implies key_of(#[trigger] v.filter(pred)[i]@)
            != key_of(#[trigger] v.filter(pred)[j]@) by {
            let f = v.filter(pred);
            let fp = prefix.filter(pred);
            if pred(v.last()) {
                assert(f == fp.push(v.last()));
                if j < f.len() - 1 {
                    assert(f[i] == fp[i] && f[j] == fp[j]);
                } else {
                    assert(f[j] == v.last());
                    assert(f[i] == fp[i]);
                    lemma_cache_filter_sub(prefix, pred);
                    assert(fp.contains(fp[i]));
                    assert(prefix.contains(fp[i]));
                    let kk = choose|kk: int| 0 <= kk < prefix.len() && prefix[kk] == fp[i];
                    assert(v[kk] == fp[i]);
                    assert(key_of(v[kk]@) != key_of(v.last()@));
                }
            } else {
                assert(f == fp);
            }
        }
    }
}

} // verus!
