//! Interactive-flow exclusivity.
//!
//! A device that is mid-way through an interactive flow — PIN entry or
//! seed recovery — must not be handed any other request.  The registry
//! keeps one set of device ids per flow kind, checked before a session is
//! created and cleared on every terminal outcome, and the alias table that
//! maps a transient device id to its canonical one while a flow is
//! running (a device may re-enumerate under a different id mid-flow).

use vstd::prelude::*;
use vstd::string::StrSliceExecFns;
use vstd::string::StringExecFns;

use crate::strutil::str_eq;

verus! {

/// A device id is in a set when some entry reads the same.
pub open spec fn contains_id(v: Seq<String>, id: Seq<char>) -> bool {
    exists|i: int| 0 <= i < v.len() && #[trigger] v[i]@ == id
}

pub open spec fn alias_target(v: Seq<(String, String)>, a: Seq<char>) -> Seq<char>
    decreases v.len(),
{
    if v.len() == 0 {
        a
    } else if v[0].0@ == a {
        v[0].1@
    } else {
        alias_target(v.skip(1), a)
    }
}

/// The in-flow sets and the alias table.
pub struct FlowRegistry {
    pub pin_flows: Vec<String>,
    pub recovery_flows: Vec<String>,
    pub aliases: Vec<(String, String)>,
}

impl FlowRegistry {
    /// Entries of a set name pairwise different devices, and each alias
    /// key appears once.
    pub open spec fn wf(&self) -> bool {
        &&& forall|i: int, j: int|
            0 <= i < j < self.pin_flows@.len() ==> #[trigger] self.pin_flows@[i]@
                != #[trigger] self.pin_flows@[j]@
        &&& forall|i: int, j: int|
            0 <= i < j < self.recovery_flows@.len() ==> #[trigger] self.recovery_flows@[i]@
                != #[trigger] self.recovery_flows@[j]@
        &&& forall|i: int, j: int|
            0 <= i < j < self.aliases@.len() ==> #[trigger] self.aliases@[i].0@
                != #[trigger] self.aliases@[j].0@
    }

    pub open spec fn in_pin_flow(&self, id: Seq<char>) -> bool {
        contains_id(self.pin_flows@, id)
    }

    pub open spec fn in_recovery_flow(&self, id: Seq<char>) -> bool {
        contains_id(self.recovery_flows@, id)
    }

    /// A device is busy while either interactive flow owns it.
    pub open spec fn busy(&self, id: Seq<char>) -> bool {
        self.in_pin_flow(id) || self.in_recovery_flow(id)
    }

    pub fn new() -> (r: FlowRegistry)
        ensures
            r.wf(),
            forall|id: Seq<char>| !r.in_pin_flow(id) && !r.in_recovery_flow(id),
            r.aliases@.len() == 0,
    {
        FlowRegistry { pin_flows: Vec::new(), recovery_flows: Vec::new(), aliases: Vec::new() }
    }

    /// Marks a device as being in the PIN flow.
    pub fn mark_device_in_pin_flow(&mut self, device_id: &str)
        requires
            old(self).wf(),
        ensures
            final(self).wf(),
            final(self).in_pin_flow(device_id@),
            forall|x: Seq<char>|
                x != device_id@ ==> final(self).in_pin_flow(x) == old(self).in_pin_flow(x),
            final(self).recovery_flows == old(self).recovery_flows,
            final(self).aliases == old(self).aliases,
    {
        if !set_contains(&self.pin_flows, device_id) {
            self.pin_flows.push(device_id.to_owned());
            proof {
                assert(self.pin_flows@[self.pin_flows@.len() - 1]@ == device_id@);
                assert forall|x: Seq<char>| x != device_id@ implies contains_id(self.pin_flows@, x)
                    == contains_id(old(self).pin_flows@, x) by {
                    if contains_id(self.pin_flows@, x) {
                        let i = choose|i: int|
                            0 <= i < self.pin_flows@.len() && self.pin_flows@[i]@ == x;
                        assert(i < old(self).pin_flows@.len());
                        assert(old(self).pin_flows@[i]@ == x);
                    }
                    if contains_id(old(self).pin_flows@, x) {
                        let i = choose|i: int|
                            0 <= i < old(self).pin_flows@.len() && old(self).pin_flows@[i]@ == x;
                        assert(self.pin_flows@[i]@ == x);
                    }
                }
            }
        }
    }

    /// Whether a device is currently in the PIN flow.
    pub fn is_device_in_pin_flow(&self, device_id: &str) -> (r: bool)
        ensures
            r == self.in_pin_flow(device_id@),
    {
        set_contains(&self.pin_flows, device_id)
    }

    /// Releases a device from the PIN flow.
    pub fn unmark_device_in_pin_flow(&mut self, device_id: &str)
        requires
            old(self).wf(),
        ensures
            final(self).wf(),
            !final(self).in_pin_flow(device_id@),
            forall|x: Seq<char>|
                x != device_id@ ==> final(self).in_pin_flow(x) == old(self).in_pin_flow(x),
            final(self).recovery_flows == old(self).recovery_flows,
            final(self).aliases == old(self).aliases,
    {
        set_remove(&mut self.pin_flows, device_id);
    }

    /// Marks a device as being in the recovery flow.
    pub fn mark_device_in_recovery_flow(&mut self, device_id: &str)
        requires
            old(self).wf(),
        ensures
            final(self).wf(),
            final(self).in_recovery_flow(device_id@),
            forall|x: Seq<char>|
                x != device_id@ ==> final(self).in_recovery_flow(x) == old(self).in_recovery_flow(
                    x,
                ),
            final(self).pin_flows == old(self).pin_flows,
            final(self).aliases == old(self).aliases,
    {
        if !set_contains(&self.recovery_flows, device_id) {
            self.recovery_flows.push(device_id.to_owned());
            proof {
                assert(self.recovery_flows@[self.recovery_flows@.len() - 1]@ == device_id@);
                assert forall|x: Seq<char>| x != device_id@ implies contains_id(
                    self.recovery_flows@,
                    x,
                ) == contains_id(old(self).recovery_flows@, x) by {
                    if contains_id(self.recovery_flows@, x) {
                        let i = choose|i: int|
                            0 <= i < self.recovery_flows@.len() && self.recovery_flows@[i]@ == x;
                        assert(i < old(self).recovery_flows@.len());
                        assert(old(self).recovery_flows@[i]@ == x);
                    }
                    if contains_id(old(self).recovery_flows@, x) {
                        let i = choose|i: int|
                            0 <= i < old(self).recovery_flows@.len() && old(self)
                                .recovery_flows@[i]@ == x;
                        assert(self.recovery_flows@[i]@ == x);
                    }
                }
            }
        }
    }

    /// Whether a device is currently in the recovery flow.
    pub fn is_device_in_recovery_flow(&self, device_id: &str) -> (r: bool)
        ensures
            r == self.in_recovery_flow(device_id@),
    {
        set_contains(&self.recovery_flows, device_id)
    }

    /// Releases a device from the recovery flow and drops every alias
    /// that resolved to it.
    pub fn unmark_device_in_recovery_flow(&mut self, device_id: &str)
        requires
            old(self).wf(),
        ensures
            final(self).wf(),
            !final(self).in_recovery_flow(device_id@),
            forall|x: Seq<char>|
                x != device_id@ ==> final(self).in_recovery_flow(x) == old(self).in_recovery_flow(
                    x,
                ),
            final(self).pin_flows == old(self).pin_flows,
            final(self).aliases@ == old(self).aliases@.filter(
                |p: (String, String)| p.1@ != device_id@,
            ),
    {
        set_remove(&mut self.recovery_flows, device_id);
        let mut kept: Vec<(String, String)> = Vec::new();
        let n = self.aliases.len();
        let mut i: usize = 0;
        proof {
            assert(old(self).aliases@.take(0) =~= Seq::<(String, String)>::empty());
            reveal(Seq::filter);
        }
        while i < n
            invariant
                0 <= i <= n,
                n == old(self).aliases@.len(),
                self.aliases == old(self).aliases,
                self.pin_flows == old(self).pin_flows,
                kept@ == old(self).aliases@.take(i as int).filter(
                    |p: (String, String)| p.1@ != device_id@,
                ),
            decreases n - i,
        {
            let keep = !str_eq(self.aliases[i].1.as_str(), device_id);
            if keep {
                let a = self.aliases[i].0.clone();
                let c = self.aliases[i].1.clone();
                kept.push((a, c));
                proof {
                    reveal(Seq::filter);
                    let pred = |p: (String, String)| p.1@ != device_id@;
                    let taken = old(self).aliases@.take(i + 1);
                    assert(taken.drop_last() =~= old(self).aliases@.take(i as int));
                    assert(taken.last() == old(self).aliases@[i as int]);
                    assert((a, c) == old(self).aliases@[i as int]);
                    assert(kept@ =~= taken.filter(pred));
                }
            } else {
                proof {
                    reveal(Seq::filter);
                    let pred = |p: (String, String)| p.1@ != device_id@;
                    let taken = old(self).aliases@.take(i + 1);
                    assert(taken.drop_last() =~= old(self).aliases@.take(i as int));
                    assert(taken.last() == old(self).aliases@[i as int]);
                    assert(kept@ =~= taken.filter(pred));
                }
            }
            i += 1;
        }
        proof {
            assert(old(self).aliases@.take(n as int) =~= old(self).aliases@);
        }
        self.aliases = kept;
        proof {
            lemma_filter_keeps_distinct_keys(
                old(self).aliases@,
                |p: (String, String)| p.1@ != device_id@,
            );
        }
    }

    /// Records that a transient id stands for a canonical one for the
    /// rest of the flow; an existing record for the same transient id is
    /// replaced.
    pub fn add_recovery_device_alias(&mut self, alias_id: &str, canonical_id: &str)
        requires
            old(self).wf(),
        ensures
            final(self).wf(),
            alias_target(final(self).aliases@, alias_id@) == canonical_id@,
            final(self).pin_flows == old(self).pin_flows,
            final(self).recovery_flows == old(self).recovery_flows,
    {
        let mut idx: usize = 0;
        let n = self.aliases.len();
        let mut found: bool = false;
        let mut at: usize = 0;
        while idx < n
            invariant
                0 <= idx <= n,
                n == self.aliases@.len(),
                self == old(self),
                found ==> at < idx && self.aliases@[at as int].0@ == alias_id@,
                !found ==> forall|j: int| 0 <= j < idx ==> self.aliases@[j].0@ != alias_id@,
            decreases n - idx,
        {
            if !found && str_eq(self.aliases[idx].0.as_str(), alias_id) {
                found = true;
                at = idx;
            }
            idx += 1;
        }
        if found {
            self.aliases.remove(at);
            proof {
                old(self).aliases@.remove_ensures(at as int);
                assert forall|i: int, j: int|
                    0 <= i < j < self.aliases@.len() implies #[trigger] self.aliases@[i].0@
                    != #[trigger] self.aliases@[j].0@ by {
                    let oi = if i < at as int {
                        i
                    } else {
                        i + 1
                    };
                    let oj = if j < at as int {
                        j
                    } else {
                        j + 1
                    };
                    assert(old(self).aliases@[oi] == self.aliases@[i]);
                    assert(old(self).aliases@[oj] == self.aliases@[j]);
                }
                assert forall|j: int| 0 <= j < self.aliases@.len() implies #[trigger] self
                    .aliases@[j].0@ != alias_id@ by {
                    let oj = if j < at as int {
                        j
                    } else {
                        j + 1
                    };
                    assert(old(self).aliases@[oj] == self.aliases@[j]);
                    if oj != at as int {
                        assert(old(self).aliases@[oj].0@ != old(self).aliases@[at as int].0@);
                    }
                }
            }
        } else {
            proof {
                assert forall|j: int| 0 <= j < self.aliases@.len() implies #[trigger] self
                    .aliases@[j].0@ != alias_id@ by {}
            }
        }
        let ghost cleared = self.aliases@;
        self.aliases.push((alias_id.to_owned(), canonical_id.to_owned()));
        proof {
            let entry = self.aliases@[self.aliases@.len() - 1];
            lemma_alias_target_absent_push(cleared, alias_id@, entry);
            assert forall|i: int, j: int|
                0 <= i < j < self.aliases@.len() implies #[trigger] self.aliases@[i].0@
                != #[trigger] self.aliases@[j].0@ by {
                if j == self.aliases@.len() - 1 {
                    assert(self.aliases@[i] == cleared[i]);
                } else {
                    assert(self.aliases@[i] == cleared[i]);
                    assert(self.aliases@[j] == cleared[j]);
                }
            }
        }
    }

    /// Resolves a device id through the alias table; an id with no alias
    /// is its own canonical id.
    pub fn get_canonical_device_id(&self, device_id: &str) -> (r: String)
        ensures
            r@ == alias_target(self.aliases@, device_id@),
    {
        proof {
            assert(self.aliases@.skip(0) =~= self.aliases@);
        }
        let n = self.aliases.len();
        let mut i: usize = 0;
        while i < n
            invariant
                0 <= i <= n,
                n == self.aliases@.len(),
                alias_target(self.aliases@, device_id@) == alias_target(
                    self.aliases@.skip(i as int),
                    device_id@,
                ),
                forall|j: int| 0 <= j < i ==> self.aliases@[j].0@ != device_id@,
            decreases n - i,
        {
            proof {
                assert(self.aliases@.skip(i as int)[0] == self.aliases@[i as int]);
                assert(self.aliases@.skip(i as int).skip(1) =~= self.aliases@.skip(i + 1));
            }
            if str_eq(self.aliases[i].0.as_str(), device_id) {
                return self.aliases[i].1.clone();
            }
            i += 1;
        }
        proof {
            assert(self.aliases@.skip(n as int) =~= Seq::<(String, String)>::empty());
        }
        device_id.to_owned()
    }

    /// Two ids may name the same physical device: they are equal, resolve
    /// to the same canonical id, both carry the device line's usb marker,
    /// or one looks like a serial number while the other is a bus/address
    /// form.
    pub fn are_devices_potentially_same(&self, id1: &str, id2: &str) -> (r: bool)
        ensures
            r == spec_potentially_same(self.aliases@, id1@, id2@),
    {
        if str_eq(id1, id2) {
            return true;
        }
        let c1 = self.get_canonical_device_id(id1);
        let c2 = self.get_canonical_device_id(id2);
        if str_eq(c1.as_str(), c2.as_str()) {
            return true;
        }
        let marker = "keepkey_2b24_0002_";
        if crate::strutil::str_contains(id1, marker) && crate::strutil::str_contains(id2, marker) {
            return true;
        }
        if is_serial_form(id1) && is_bus_addr_form(id2) {
            return true;
        }
        if is_bus_addr_form(id1) && is_serial_form(id2) {
            return true;
        }
        false
    }
}

/// What counts as two ids possibly naming one device.
pub open spec fn spec_potentially_same(
    aliases: Seq<(String, String)>,
    id1: Seq<char>,
    id2: Seq<char>,
) -> bool {
    ||| id1 == id2
    ||| alias_target(aliases, id1) == alias_target(aliases, id2)
    ||| (crate::strutil::contains_seq(id1, "keepkey_2b24_0002_"@) && crate::strutil::contains_seq(
        id2,
        "keepkey_2b24_0002_"@,
    ))
    ||| (spec_serial_form(id1) && spec_bus_addr_form(id2))
    ||| (spec_bus_addr_form(id1) && spec_serial_form(id2))
}

/// A bare serial number: 24 characters, letters and digits only.
pub open spec fn spec_serial_form(id: Seq<char>) -> bool {
    id.len() == 24 && forall|i: int| 0 <= i < id.len() ==> is_alphanumeric_char(#[trigger] id[i])
}

pub open spec fn is_alphanumeric_char(c: char) -> bool {
    ('0' <= c && c <= '9') || ('a' <= c && c <= 'z') || ('A' <= c && c <= 'Z')
}

/// A transient bus/address id mentions both words.
pub open spec fn spec_bus_addr_form(id: Seq<char>) -> bool {
    crate::strutil::contains_seq(id, "bus"@) && crate::strutil::contains_seq(id, "addr"@)
}

fn is_serial_form(id: &str) -> (r: bool)
    ensures
        r == spec_serial_form(id@),
{
    let n = id.unicode_len();
    if n != 24 {
        return false;
    }
    let mut i: usize = 0;
    while i < n
        invariant
            0 <= i <= n,
            n == id@.len(),
            forall|j: int| 0 <= j < i ==> is_alphanumeric_char(#[trigger] id@[j]),
        decreases n - i,
    {
        let c = id.get_char(i);
        let ok = ('0' <= c && c <= '9') || ('a' <= c && c <= 'z') || ('A' <= c && c <= 'Z');
        if !ok {
            return false;
        }
        i += 1;
    }
    true
}

fn is_bus_addr_form(id: &str) -> (r: bool)
    ensures
        r == spec_bus_addr_form(id@),
{
    crate::strutil::str_contains(id, "bus") && crate::strutil::str_contains(id, "addr")
}

fn set_contains(v: &Vec<String>, id: &str) -> (r: bool)
    ensures
        r == contains_id(v@, id@),
{
    let mut i: usize = 0;
    while i < v.len()
        invariant
            0 <= i <= v@.len(),
            forall|j: int| 0 <= j < i ==> v@[j]@ != id@,
        decreases v@.len() - i,
    {
        if str_eq(v[i].as_str(), id) {
            return true;
        }
        i += 1;
    }
    false
}

fn set_remove(v: &mut Vec<String>, id: &str)
    requires
        forall|i: int, j: int|
            0 <= i < j < old(v)@.len() ==> #[trigger] old(v)@[i]@ != #[trigger] old(v)@[j]@,
    ensures
        forall|i: int, j: int|
            0 <= i < j < final(v)@.len() ==> #[trigger] final(v)@[i]@ != #[trigger] final(v)@[j]@,
        !contains_id(final(v)@, id@),
        forall|x: Seq<char>| x != id@ ==> contains_id(final(v)@, x) == contains_id(old(v)@, x),
{
    let n = v.len();
    let mut i: usize = 0;
    while i < n
        invariant
            0 <= i <= n,
            n == v@.len(),
            v == old(v),
            forall|a: int, b: int|
                0 <= a < b < old(v)@.len() ==> #[trigger] old(v)@[a]@ != #[trigger] old(v)@[b]@,
            forall|j: int| 0 <= j < i ==> v@[j]@ != id@,
        decreases n - i,
    {
        if str_eq(v[i].as_str(), id) {
            let ghost at = i as int;
            v.remove(i);
            proof {
                old(v)@.remove_ensures(at);
                assert forall|a: int, b: int|
                    0 <= a < b < v@.len() implies #[trigger] v@[a]@ != #[trigger] v@[b]@ by {
                    let oa = if a < at {
                        a
                    } else {
                        a + 1
                    };
                    let ob = if b < at {
                        b
                    } else {
                        b + 1
                    };
                    assert(old(v)@[oa] == v@[a]);
                    assert(old(v)@[ob] == v@[b]);
                }
                assert forall|j: int| 0 <= j < v@.len() implies #[trigger] v@[j]@ != id@ by {
                    let oj = if j < at {
                        j
                    } else {
                        j + 1
                    };
                    assert(old(v)@[oj] == v@[j]);
                    if oj != at {
                        assert(old(v)@[oj]@ != old(v)@[at]@);
                    }
                }
                assert forall|x: Seq<char>| x != id@ implies contains_id(v@, x) == contains_id(
                    old(v)@,
                    x,
                ) by {
                    if contains_id(old(v)@, x) {
                        let oj = choose|oj: int|
                            0 <= oj < old(v)@.len() && old(v)@[oj]@ == x;
                        let nj = if oj < at {
                            oj
                        } else {
                            oj - 1
                        };
                        assert(oj != at);
                        assert(v@[nj] == old(v)@[oj]);
                    }
                    if contains_id(v@, x) {
                        let nj = choose|nj: int| 0 <= nj < v@.len() && v@[nj]@ == x;
                        let oj = if nj < at {
                            nj
                        } else {
                            nj + 1
                        };
                        assert(old(v)@[oj] == v@[nj]);
                    }
                }
            }
            return ;
        }
        i += 1;
    }
    proof {
        assert(forall|j: int| 0 <= j < v@.len() ==> #[trigger] v@[j]@ != id@);
    }
}

proof fn lemma_alias_target_absent_push(
    v: Seq<(String, String)>,
    a: Seq<char>,
    entry: (String, String),
)
    requires
        forall|j: int| 0 <= j < v.len() ==> #[trigger] v[j].0@ != a,
        entry.0@ == a,
    ensures
        alias_target(v.push(entry), a) == entry.1@,
    decreases v.len(),
{
    if v.len() == 0 {
        assert(v.push(entry)[0] == entry);
    } else {
        assert(v.push(entry)[0] == v[0]);
        assert(v.push(entry).skip(1) =~= v.skip(1).push(entry));
        assert(forall|j: int|
            0 <= j < v.skip(1).len() ==> #[trigger] v.skip(1)[j].0@ == v[j + 1].0@);
        lemma_alias_target_absent_push(v.skip(1), a, entry);
    }
}

proof fn lemma_filter_sub(v: Seq<(String, String)>, pred: spec_fn((String, String)) -> bool)
    ensures
        forall|x: (String, String)| #[trigger] v.filter(pred).contains(x) ==> v.contains(x),
    decreases v.len(),
{
    reveal(Seq::filter);
    if v.len() > 0 {
        let prefix = v.drop_last();
        lemma_filter_sub(prefix, pred);
        assert forall|x: (String, String)| #[trigger] v.filter(pred).contains(x) implies v.contains(
            x,
        ) by {
            let f = v.filter(pred);
            let i = choose|i: int| 0 <= i < f.len() && f[i] == x;
            if pred(v.last()) && i == f.len() - 1 {
                assert(v[v.len() - 1] == x);
            } else {
                assert(prefix.filter(pred).contains(x));
                let k = choose|k: int| 0 <= k < prefix.len() && prefix[k] == x;
                assert(v[k] == x);
            }
        }
    }
}

proof fn lemma_filter_keeps_distinct_keys(
    v: Seq<(String, String)>,
    pred: spec_fn((String, String)) -> bool,
)
    requires
        forall|i: int, j: int| 0 <= i < j < v.len() ==> #[trigger] v[i].0@ != #[trigger] v[j].0@,
    ensures
        forall|i: int, j: int|
            0 <= i < j < v.filter(pred).len() ==> #[trigger] v.filter(pred)[i].0@
                != #[trigger] v.filter(pred)[j].0@,
    decreases v.len(),
{
    reveal(Seq::filter);
    if v.len() > 0 {
        let prefix = v.drop_last();
        lemma_filter_keeps_distinct_keys(prefix, pred);
        assert forall|i: int, j: int|
            0 <= i < j < v.filter(pred).len() implies #[trigger] v.filter(pred)[i].0@
            != #[trigger] v.filter(pred)[j].0@ by {
            let f = v.filter(pred);
            let fp = prefix.filter(pred);
            if pred(v.last()) {
                assert(f == fp.push(v.last()));
                if j < f.len() - 1 {
                    assert(f[i] == fp[i] && f[j] == fp[j]);
                } else {
                    assert(f[j] == v.last());
                    assert(f[i] == fp[i]);
                    lemma_filter_sub(prefix, pred);
                    assert(fp.contains(fp[i]));
                    assert(prefix.contains(fp[i]));
                    let k = choose|k: int| 0 <= k < prefix.len() && prefix[k] == fp[i];
                    assert(v[k] == fp[i]);
                    assert(v[k].0@ != v.last().0@);
                }
            } else {
                assert(f == fp);
            }
        }
    }
}

} // verus!
