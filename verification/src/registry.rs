//! The process-wide room registry.
//!
//! It maps a room code to the room's name and to a plain handle by which the
//! caller reaches that room's inbound channel. An entry is inserted exactly
//! once when a room session reserves a unique code, read at every player
//! join, and removed exactly once when the session tears down. The caller is
//! expected to guard a shared registry with a reader/writer lock; the
//! operations here are the plain single-threaded map they protect.

use vstd::prelude::*;

verus! {

/// One registered room: its code, its game-supplied name, and the token by
/// which the caller reaches the room's inbound channel.
pub struct RegistryEntry {
    pub code: String,
    pub name: String,
    pub handle: u64,
}

/// The mapping from room code to live room. Well-formed registries hold
/// pairwise distinct codes; every operation preserves that.
pub struct Registry {
    pub entries: Vec<RegistryEntry>,
}

impl Registry {
    /// No two entries hold the same code.
    pub open spec fn wf(self) -> bool {
        forall|i: int, j: int|
            0 <= i < j < self.entries@.len() ==> self.entries@[i].code@ != self.entries@[j].code@
    }

    /// Whether some entry holds this code.
    pub open spec fn has_code(self, code: Seq<char>) -> bool {
        exists|i: int| 0 <= i < self.entries@.len() && self.entries@[i].code@ == code
    }

    /// The entry holding this code; meaningful when the code is present and
    /// the registry is well-formed, which pins the entry down uniquely.
    pub open spec fn entry_for(self, code: Seq<char>) -> RegistryEntry
        recommends
            self.has_code(code),
    {
        self.entries@[choose|i: int|
            0 <= i < self.entries@.len() && self.entries@[i].code@ == code]
    }

    /// The name registered under this code.
    pub open spec fn name_of(self, code: Seq<char>) -> Seq<char>
        recommends
            self.has_code(code),
    {
        self.entry_for(code).name@
    }

    /// The channel handle registered under this code.
    pub open spec fn handle_of(self, code: Seq<char>) -> u64
        recommends
            self.has_code(code),
    {
        self.entry_for(code).handle
    }

    /// In a well-formed registry, an entry whose code matches is the entry
    /// the spec functions speak of.
    pub proof fn lemma_entry_for(self, code: Seq<char>, i: int)
        requires
            self.wf(),
            0 <= i < self.entries@.len(),
            self.entries@[i].code@ == code,
        ensures
            self.has_code(code),
            self.entry_for(code) == self.entries@[i],
    {
        let j = choose|j: int| 0 <= j < self.entries@.len() && self.entries@[j].code@ == code;
        if i < j {
            assert(self.entries@[i].code@ != self.entries@[j].code@);
        } else if j < i {
            assert(self.entries@[j].code@ != self.entries@[i].code@);
        }
    }

    /// An empty registry.
    pub fn new() -> (r: Registry)
        ensures
            r.wf(),
            r.entries@.len() == 0,
            forall|c: Seq<char>| !r.has_code(c),
    {
        Registry { entries: Vec::new() }
    }

    /// Whether this code is currently registered.
    pub fn contains(&self, code: &String) -> (found: bool)
        ensures
            found == self.has_code(code@),
    {
        let n = self.entries.len();
        let mut j: usize = 0;
        while j < n
            invariant
                n == self.entries@.len(),
                j <= n,
                forall|k: int| 0 <= k < j ==> self.entries@[k].code@ != code@,
            decreases n - j,
        {
            if self.entries[j].code == *code {
                assert(self.entries@[j as int].code@ == code@);
                return true;
            }
            j = j + 1;
        }
        false
    }

    /// Reserve a code for a room: insert the entry unless the code is
    /// already taken, and report whether the reservation succeeded. This is
    /// the single point that keeps room codes unique across the process.
    pub fn reserve(&mut self, code: String, name: String, handle: u64) -> (ok: bool)
        requires
            old(self).wf(),
        ensures
            final(self).wf(),
            ok == !old(self).has_code(code@),
            ok ==> final(self).entries@ == old(self).entries@.push(
                (RegistryEntry { code: code, name: name, handle: handle }),
            ),
            ok ==> final(self).has_code(code@) && final(self).name_of(code@) == name@
                && final(self).handle_of(code@) == handle,
            ok ==> forall|c: Seq<char>|
                c != code@ ==> final(self).has_code(c) == old(self).has_code(c),
            ok ==> forall|c: Seq<char>|
                c != code@ && old(self).has_code(c) ==> final(self).entry_for(c) == old(
                    self,
                ).entry_for(c),
            !ok ==> final(self).entries@ == old(self).entries@,
    {
        if self.contains(&code) {
            return false;
        }
        let ghost prior = self.entries@;
        let ghost codev = code@;
        let entry = RegistryEntry { code, name, handle };
        self.entries.push(entry);
        proof {
            let n = prior.len() as int;
            self.lemma_entry_for(codev, n);
            assert forall|c: Seq<char>| c != codev implies final(self).has_code(c) == old(
                self,
            ).has_code(c) by {
                if old(self).has_code(c) {
                    let i = choose|i: int| 0 <= i < prior.len() && prior[i].code@ == c;
                    assert(self.entries@[i].code@ == c);
                }
                if final(self).has_code(c) {
                    let i = choose|i: int|
                        0 <= i < self.entries@.len() && self.entries@[i].code@ == c;
                    assert(prior[i].code@ == c);
                }
            }
            assert forall|c: Seq<char>| c != codev && old(self).has_code(c)
                implies self.entry_for(c) == old(self).entry_for(c) by {
                let i = choose|i: int| 0 <= i < prior.len() && prior[i].code@ == c;
                assert(self.entries@[i].code@ == c);
                self.lemma_entry_for(c, i);
                old(self).lemma_entry_for(c, i);
            }
        }
        true
    }

    /// The handle registered under a code, if any: read once at player-join
    /// time to route the joining player to its room session.
    pub fn lookup_handle(&self, code: &String) -> (r: Option<u64>)
        requires
            self.wf(),
        ensures
            r matches Some(h) ==> self.has_code(code@) && h == self.handle_of(code@),
            r is None ==> !self.has_code(code@),
    {
        let n = self.entries.len();
        let mut j: usize = 0;
        while j < n
            invariant
                self.wf(),
                n == self.entries@.len(),
                j <= n,
                forall|k: int| 0 <= k < j ==> self.entries@[k].code@ != code@,
            decreases n - j,
        {
            if self.entries[j].code == *code {
                proof {
                    self.lemma_entry_for(code@, j as int);
                }
                return Some(self.entries[j].handle);
            }
            j = j + 1;
        }
        None
    }

    /// The name registered under a code, if any: the pre-upgrade room info
    /// query, used for human-facing lookups before a socket upgrade.
    pub fn room_name(&self, code: &String) -> (r: Option<String>)
        requires
            self.wf(),
        ensures
            r matches Some(name) ==> self.has_code(code@) && name@ == self.name_of(code@),
            r is None ==> !self.has_code(code@),
    {
        let n = self.entries.len();
        let mut j: usize = 0;
        while j < n
            invariant
                self.wf(),
                n == self.entries@.len(),
                j <= n,
                forall|k: int| 0 <= k < j ==> self.entries@[k].code@ != code@,
            decreases n - j,
        {
            if self.entries[j].code == *code {
                proof {
                    self.lemma_entry_for(code@, j as int);
                }
                return Some(self.entries[j].name.clone());
            }
            j = j + 1;
        }
        None
    }

    /// Drop the entry under this code, if any; a no-op when the code is
    /// absent, so teardown may call it unconditionally.
    pub fn remove(&mut self, code: &String)
        requires
            old(self).wf(),
        ensures
            final(self).wf(),
            !final(self).has_code(code@),
            forall|c: Seq<char>|
                c != code@ ==> final(self).has_code(c) == old(self).has_code(c),
            forall|c: Seq<char>|
                c != code@ && old(self).has_code(c) ==> final(self).entry_for(c) == old(
                    self,
                ).entry_for(c),
            !old(self).has_code(code@) ==> final(self).entries@ == old(self).entries@,
    {
        let n = self.entries.len();
        let mut j: usize = 0;
        while j < n
            invariant
                old(self).wf(),
                self.entries@ == old(self).entries@,
                n == self.entries@.len(),
                j <= n,
                forall|k: int| 0 <= k < j ==> self.entries@[k].code@ != code@,
            decreases n - j,
        {
            if self.entries[j].code == *code {
                let ghost prior = self.entries@;
                let ghost idx = j as int;
                self.entries.remove(j);
                proof {
                    prior.remove_ensures(idx);
                    assert forall|c: Seq<char>| c != code@ && old(self).has_code(c)
                        implies final(self).has_code(c) && final(self).entry_for(c) == old(
                        self,
                    ).entry_for(c) by {
                        let i = choose|i: int| 0 <= i < prior.len() && prior[i].code@ == c;
                        old(self).lemma_entry_for(c, i);
                        let i2 = if i < idx {
                            i
                        } else {
                            i - 1
                        };
                        assert(self.entries@[i2] == prior[i]);
                        self.lemma_entry_for(c, i2);
                    }
                    assert forall|c: Seq<char>| c != code@ && final(self).has_code(c)
                        implies old(self).has_code(c) by {
                        let i = choose|i: int|
                            0 <= i < self.entries@.len() && self.entries@[i].code@ == c;
                        let i2 = if i < idx {
                            i
                        } else {
                            i + 1
                        };
                        assert(self.entries@[i] == prior[i2]);
                    }
                    assert forall|i: int| 0 <= i < self.entries@.len()
                        implies self.entries@[i].code@ != code@ by {
                        let i2 = if i < idx {
                            i
                        } else {
                            i + 1
                        };
                        assert(self.entries@[i] == prior[i2]);
                    }
                }
                return ;
            }
            j = j + 1;
        }
    }
}

} // verus!
