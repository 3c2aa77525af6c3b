//! The agent process pool. The default key leaves out model and thought
//! level: those can be switched inside one session, so including them
//! would restart processes on every menu change.

use vstd::prelude::*;
use crate::external::{hex_lower, sha256_spec};
use crate::text::str_eq;
use crate::types::{ProcessPoolKey, pool_key_text};

verus! {

/// The pool key of an agent process.
#[derive(Debug)]
pub struct PoolKey {
    pub agent: String,
    pub executable: String,
    pub version: String,
    pub cwd: String,
    pub auth_fingerprint: String,
}

pub struct PoolKeyV {
    pub agent: Seq<char>,
    pub executable: Seq<char>,
    pub version: Seq<char>,
    pub cwd: Seq<char>,
    pub auth_fingerprint: Seq<char>,
}

impl View for PoolKey {
    type V = PoolKeyV;

    open spec fn view(&self) -> PoolKeyV {
        PoolKeyV {
            agent: self.agent@,
            executable: self.executable@,
            version: self.version@,
            cwd: self.cwd@,
            auth_fingerprint: self.auth_fingerprint@,
        }
    }
}

/// The fingerprint of a key: lowercase hex SHA-256 of its `|`-joined fields.
pub open spec fn key_fingerprint(k: PoolKeyV) -> Seq<char> {
    hex_lower(sha256_spec(vstd::utf8::encode_utf8(pool_key_text(k.agent, k.executable, k.version, k.cwd, k.auth_fingerprint))))
}

impl PoolKey {
    /// The key of an OpenCode process.
    pub fn opencode(executable: &str, version: &str, cwd: &str, auth_fingerprint: &str) -> (k: PoolKey)
        ensures
            k@ == (PoolKeyV {
                agent: "opencode"@,
                executable: executable@,
                version: version@,
                cwd: cwd@,
                auth_fingerprint: auth_fingerprint@,
            }),
    {
        PoolKey {
            agent: "opencode".to_owned(),
            executable: executable.to_owned(),
            version: version.to_owned(),
            cwd: cwd.to_owned(),
            auth_fingerprint: auth_fingerprint.to_owned(),
        }
    }

    pub fn fingerprint(&self) -> (r: String)
        ensures
            r@ == key_fingerprint(self@),
    {
        let k = ProcessPoolKey {
            agent: self.agent.clone(),
            executable: self.executable.clone(),
            version: self.version.clone(),
            cwd: self.cwd.clone(),
            auth_fingerprint: self.auth_fingerprint.clone(),
        };
        k.fingerprint()
    }

    pub fn duplicate(&self) -> (r: PoolKey)
        ensures
            r@ == self@,
    {
        PoolKey {
            agent: self.agent.clone(),
            executable: self.executable.clone(),
            version: self.version.clone(),
            cwd: self.cwd.clone(),
            auth_fingerprint: self.auth_fingerprint.clone(),
        }
    }
}

/// A pool slot: the key it was created for and its working directory.
#[derive(Debug)]
pub struct PoolSlot {
    pub key: PoolKey,
    pub cwd: String,
    /// Whether the model is part of the key; never set by default.
    pub include_model_in_key: bool,
}

pub struct PoolSlotV {
    pub key: PoolKeyV,
    pub cwd: Seq<char>,
    pub include_model_in_key: bool,
}

impl View for PoolSlot {
    type V = PoolSlotV;

    open spec fn view(&self) -> PoolSlotV {
        PoolSlotV { key: self.key@, cwd: self.cwd@, include_model_in_key: self.include_model_in_key }
    }
}

impl PoolSlot {
    pub fn duplicate(&self) -> (r: PoolSlot)
        ensures
            r@ == self@,
    {
        PoolSlot { key: self.key.duplicate(), cwd: self.cwd.clone(), include_model_in_key: self.include_model_in_key }
    }
}

/// Slots by fingerprint; each fingerprint occurs once.
pub struct ProcessPool {
    slots: Vec<(String, PoolSlot)>,
}

/// Index of the slot with fingerprint `fp`.
pub open spec fn slot_index(slots: Seq<(Seq<char>, PoolSlotV)>, fp: Seq<char>) -> Option<int> {
    if exists|k: int| 0 <= k < slots.len() && slots[k].0 == fp {
        Some(choose|k: int| 0 <= k < slots.len() && slots[k].0 == fp)
    } else {
        None
    }
}

impl ProcessPool {
    pub closed spec fn slots(&self) -> Seq<(Seq<char>, PoolSlotV)> {
        self.slots@.map_values(|e: (String, PoolSlot)| (e.0@, e.1@))
    }

    /// Each fingerprint has at most one slot.
    pub open spec fn wf(&self) -> bool {
        forall|i: int, j: int| 0 <= i < j < self.slots().len() ==> #[trigger] self.slots()[i].0 != #[trigger] self.slots()[j].0
    }

    pub fn new() -> (p: ProcessPool)
        ensures
            p.wf(),
            p.slots().len() == 0,
    {
        let p = ProcessPool { slots: Vec::new() };
        proof { assert(p.slots() =~= Seq::<(Seq<char>, PoolSlotV)>::empty()); }
        p
    }

    /// The slot for `key`, created on first use. A later key with the same
    /// fingerprint gets the existing slot.
    pub fn acquire(&mut self, key: PoolKey) -> (r: PoolSlot)
        requires
            old(self).wf(),
        ensures
            final(self).wf(),
            match slot_index(old(self).slots(), key_fingerprint(key@)) {
                Some(k) => final(self).slots() == old(self).slots() && r@ == old(self).slots()[k].1,
                None => {
                    &&& r@ == (PoolSlotV { key: key@, cwd: key@.cwd, include_model_in_key: false })
                    &&& final(self).slots() == old(self).slots().push((key_fingerprint(key@), r@))
                },
            },
    {
        let fp = key.fingerprint();
        let ghost slots = self.slots();
        let mut i: usize = 0;
        while i < self.slots.len()
            invariant
                slots == self.slots(),
                slots == old(self).slots(),
                fp@ == key_fingerprint(key@),
                self.wf(),
                i <= self.slots@.len(),
                forall|j: int| 0 <= j < i ==> (#[trigger] slots[j]).0 != fp@,
            decreases self.slots@.len() - i,
        {
            proof { assert(slots[i as int] == (self.slots@[i as int].0@, self.slots@[i as int].1@)); }
            if str_eq(self.slots[i].0.as_str(), fp.as_str()) {
                proof {
                    let k = slot_index(slots, fp@)->Some_0;
                    if k != i as int {
                        if k < i as int {
                            assert(slots[k].0 != fp@);
                        } else {
                            assert(slots[i as int].0 != slots[k].0);
                        }
                    }
                }
                return self.slots[i].1.duplicate();
            }
            i += 1;
        }
        let cwd = key.cwd.clone();
        let slot = PoolSlot { key, cwd, include_model_in_key: false };
        let copy = slot.duplicate();
        let ghost fpv = fp@;
        self.slots.push((fp, slot));
        proof {
            assert(self.slots() =~= slots.push((fpv, copy@)));
            assert forall|a: int, b: int| 0 <= a < b < self.slots().len() implies #[trigger] self.slots()[a].0 != #[trigger] self.slots()[b].0 by {
                if b == self.slots().len() - 1 {
                    assert(self.slots()[a] == slots[a]);
                }
            }
        }
        copy
    }

    pub fn len(&self) -> (n: usize)
        ensures
            n == self.slots().len(),
    {
        self.slots.len()
    }

    pub fn is_empty(&self) -> (b: bool)
        ensures
            b == (self.slots().len() == 0),
    {
        self.slots.len() == 0
    }
}

} // verus!
