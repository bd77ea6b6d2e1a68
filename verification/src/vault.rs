//! The per-user key vault and the presence gate that guards its exports.
//!
//! Entries are kept wrapped under the vault's key capability; a secret is
//! only unwrapped on export, and export is gated: when the presence
//! capability reports itself available, a denied presence check fails the
//! whole call before anything is unwrapped.

use vstd::prelude::*;

use crate::codec::{str_eq, utf8_to_string};
use crate::errors::VaultError;

verus! {

use vstd::utf8::{encode_utf8, decode_utf8, valid_utf8};
use vstd::pervasive::VecAdditionalExecFns;

/// What the platform's presence capability reports about itself.
#[derive(Clone, Copy, Debug, PartialEq, Eq, Structural)]
pub enum Availability {
    Available,
    DeviceAbsent,
    DeviceBusy,
    NotConfigured,
    DisabledByPolicy,
    Unknown,
}

/// The wire status code of an availability report.
pub open spec fn availability_code_spec(a: Availability) -> i32 {
    match a {
        Availability::Available => 0i32,
        Availability::DeviceAbsent => 2i32,
        Availability::DeviceBusy => 2i32,
        Availability::NotConfigured => 7i32,
        Availability::DisabledByPolicy => 5i32,
        Availability::Unknown => 5i32,
    }
}

/// The wire status code for an availability report: 0 when the capability is
/// available, 2 when the device is busy or absent, 7 when it is not
/// configured for the user, and 5 when it is disabled by policy or in an
/// unknown state.
pub fn availability_code(a: Availability) -> (r: i32)
    ensures
        r == availability_code_spec(a),
{
    match a {
        Availability::Available => 0,
        Availability::DeviceAbsent => 2,
        Availability::DeviceBusy => 2,
        Availability::NotConfigured => 7,
        Availability::DisabledByPolicy => 5,
        Availability::Unknown => 5,
    }
}

/// One reading of the presence gate, taken by the caller for one logical
/// authorization decision: the capability's availability, and the outcome of
/// the (blocking, at-most-once) presence check if one was run.
#[derive(Clone, Copy, Debug, PartialEq, Eq, Structural)]
pub struct GateReading {
    pub availability: Availability,
    pub presence_verified: bool,
}

/// Whether a presence check must be run before the gated operation: exactly
/// when the capability reports itself available; any other status delegates
/// to whatever gating the platform layer itself enforces.
pub fn presence_check_required(availability: Availability) -> (r: bool)
    ensures
        r == (availability == Availability::Available),
{
    availability == Availability::Available
}

pub const WRAP_TAG_0: u8 = 0x42;

pub const WRAP_TAG_1: u8 = 0x4B;

pub const WRAP_MASK: u8 = 0xA5;

/// At-rest wrapping of a secret under the vault's key capability: a tagged,
/// byte-masked reversible transform. This is the software stand-in for a
/// platform's hardware-backed key; a deployment substitutes its keystore
/// behind the same two operations, and the vault's logic relies only on
/// unwrapping inverting wrapping.
pub open spec fn wrap_spec(b: Seq<u8>) -> Seq<u8> {
    seq![WRAP_TAG_0, WRAP_TAG_1] + b.map_values(|x: u8| (x ^ WRAP_MASK) as u8)
}

/// The inverse of [`wrap_spec`]: rejects anything that does not carry the
/// wrapping tag.
pub open spec fn unwrap_spec(c: Seq<u8>) -> Option<Seq<u8>> {
    if c.len() >= 2 && c[0] == WRAP_TAG_0 && c[1] == WRAP_TAG_1 {
        Some(c.skip(2).map_values(|x: u8| (x ^ WRAP_MASK) as u8))
    } else {
        None
    }
}

/// Unwrapping inverts wrapping.
pub proof fn lemma_unwrap_wrap(b: Seq<u8>)
    ensures
        unwrap_spec(wrap_spec(b)) == Some(b),
{
    let w = wrap_spec(b);
    assert(w.len() >= 2 && w[0] == WRAP_TAG_0 && w[1] == WRAP_TAG_1);
    let masked = b.map_values(|x: u8| (x ^ WRAP_MASK) as u8);
    assert(w.skip(2) =~= masked);
    let out = masked.map_values(|x: u8| (x ^ WRAP_MASK) as u8);
    assert forall|i: int| 0 <= i < b.len() implies out[i] == b[i] by {
        let x = b[i];
        assert(((x ^ 0xA5u8) ^ 0xA5u8) == x) by (bit_vector);
    };
    assert(out =~= b);
}

/// Wraps a secret's bytes for storage at rest.
pub fn wrap_blob(b: &[u8]) -> (r: Vec<u8>)
    ensures
        r@ == wrap_spec(b@),
{
    let mut out: Vec<u8> = Vec::new();
    out.push(WRAP_TAG_0);
    out.push(WRAP_TAG_1);
    let mut i: usize = 0;
    while i < b.len()
        invariant
            i <= b@.len(),
            out@.len() == 2 + i,
            out@[0] == WRAP_TAG_0,
            out@[1] == WRAP_TAG_1,
            forall|j: int| 0 <= j < i ==> out@[2 + j] == (b@[j] ^ WRAP_MASK),
        decreases b@.len() - i,
    {
        out.push(b[i] ^ WRAP_MASK);
        i = i + 1;
    }
    proof {
        assert(out@ =~= wrap_spec(b@));
    }
    out
}

/// Recovers a secret's bytes from a stored blob, rejecting blobs the
/// capability did not wrap.
pub fn unwrap_blob(c: &[u8]) -> (r: Option<Vec<u8>>)
    ensures
        match r {
            Some(v) => unwrap_spec(c@) == Some(v@),
            None => unwrap_spec(c@) is None,
        },
{
    if c.len() < 2 {
        return None;
    }
    if c[0] != WRAP_TAG_0 || c[1] != WRAP_TAG_1 {
        return None;
    }
    let mut out: Vec<u8> = Vec::new();
    let mut i: usize = 2;
    while i < c.len()
        invariant
            2 <= i <= c@.len(),
            out@.len() == i - 2,
            forall|j: int| 0 <= j < i - 2 ==> out@[j] == (c@[2 + j] ^ WRAP_MASK),
        decreases c@.len() - i,
    {
        out.push(c[i] ^ WRAP_MASK);
        i = i + 1;
    }
    proof {
        assert(out@ =~= unwrap_spec(c@).unwrap());
    }
    Some(out)
}

/// What an export returns, given the vault's contents, the user id and the
/// presence-gate probe. When the capability is available and the presence
/// check did not pass, the export fails; a missing entry fails earlier; an
/// entry whose bytes are not valid UTF-8 once unwrapped fails later.
pub open spec fn export_spec(
    m: Map<Seq<char>, Seq<u8>>,
    u: Seq<char>,
    gate: GateReading,
) -> Result<Seq<char>, VaultError> {
    if !m.contains_key(u) {
        Err(VaultError::NotFound)
    } else if gate.availability == Availability::Available && !gate.presence_verified {
        Err(VaultError::PresenceDenied)
    } else {
        match unwrap_spec(m[u]) {
            None => Err(VaultError::WrapFormat),
            Some(b) => if valid_utf8(b) {
                Ok(decode_utf8(b))
            } else {
                Err(VaultError::Encoding)
            },
        }
    }
}

/// A denied presence check under an available capability never releases a
/// key: the export fails whatever the vault holds.
pub proof fn lemma_presence_denied_blocks_export(
    m: Map<Seq<char>, Seq<u8>>,
    u: Seq<char>,
    gate: GateReading,
)
    requires
        gate.availability == Availability::Available,
        !gate.presence_verified,
    ensures
        export_spec(m, u, gate) is Err,
{
}

/// Vault round trip: after an import of key `k` under user `u`, an export of
/// `u` under an available capability and an affirmed presence check returns
/// exactly `k`.
pub proof fn lemma_import_then_export(
    m: Map<Seq<char>, Seq<u8>>,
    u: Seq<char>,
    k: Seq<char>,
    gate: GateReading,
)
    requires
        gate.availability == Availability::Available,
        gate.presence_verified,
    ensures
        export_spec(m.insert(u, wrap_spec(encode_utf8(k))), u, gate) == Ok::<
            Seq<char>,
            VaultError,
        >(k),
{
    lemma_unwrap_wrap(encode_utf8(k));
    vstd::utf8::encode_utf8_valid_utf8(k);
    vstd::utf8::encode_utf8_decode_utf8(k);
}

/// Deleting is idempotent: a second delete changes nothing, and the entry is
/// gone after the first.
pub proof fn lemma_delete_idempotent(m: Map<Seq<char>, Seq<u8>>, u: Seq<char>)
    ensures
        m.remove(u).remove(u) == m.remove(u),
        !m.remove(u).contains_key(u),
{
    assert(m.remove(u).remove(u) =~= m.remove(u));
}

struct VaultEntry {
    user_id: String,
    blob: Vec<u8>,
}

/// The per-user key vault: a directory of wrapped blobs keyed by user id.
/// Its view is the map from user ids to stored blob bytes; persistence of
/// that directory lives at the process edge.
pub struct KeyManager {
    entries: Vec<VaultEntry>,
}

impl View for KeyManager {
    type V = Map<Seq<char>, Seq<u8>>;

    closed spec fn view(&self) -> Map<Seq<char>, Seq<u8>> {
        Map::new(|u: Seq<char>| self.contains_user(u), |u: Seq<char>| self.blob_of(u))
    }
}

impl KeyManager {
    pub closed spec fn contains_user(&self, u: Seq<char>) -> bool {
        exists|i: int| 0 <= i < self.entries@.len() && self.entries@[i].user_id@ == u
    }

    closed spec fn idx_of(&self, u: Seq<char>) -> int {
        choose|i: int| 0 <= i < self.entries@.len() && self.entries@[i].user_id@ == u
    }

    closed spec fn blob_of(&self, u: Seq<char>) -> Seq<u8> {
        self.entries@[self.idx_of(u)].blob@
    }

    /// The stored user ids, in directory order.
    pub closed spec fn entry_keys(&self) -> Seq<Seq<char>> {
        self.entries@.map_values(|e: VaultEntry| e.user_id@)
    }

    /// Well-formed: no user id is stored twice.
    pub closed spec fn wf(&self) -> bool {
        forall|i: int, j: int|
            0 <= i < j < self.entries@.len() ==> self.entries@[i].user_id@
                != self.entries@[j].user_id@
    }

    proof fn lemma_entry_maps(&self, i: int)
        requires
            self.wf(),
            0 <= i < self.entries@.len(),
        ensures
            self@.contains_key(self.entries@[i].user_id@),
            self@[self.entries@[i].user_id@] == self.entries@[i].blob@,
    {
        let u = self.entries@[i].user_id@;
        assert(self.contains_user(u));
        let j = self.idx_of(u);
        assert(0 <= j < self.entries@.len() && self.entries@[j].user_id@ == u);
        if i < j {
            assert(self.entries@[i].user_id@ != self.entries@[j].user_id@);
        }
        if j < i {
            assert(self.entries@[j].user_id@ != self.entries@[i].user_id@);
        }
    }

    /// An empty vault.
    pub fn new() -> (r: Self)
        ensures
            r.wf(),
            r@ == Map::<Seq<char>, Seq<u8>>::empty(),
            r.entry_keys().len() == 0,
    {
        let r = KeyManager { entries: Vec::new() };
        proof {
            assert(r@ =~= Map::<Seq<char>, Seq<u8>>::empty());
        }
        r
    }

    fn find(&self, user_id: &str) -> (r: Option<usize>)
        ensures
            match r {
                Some(i) => i < self.entries@.len() && self.entries@[i as int].user_id@
                    == user_id@,
                None => !self.contains_user(user_id@),
            },
    {
        let mut i: usize = 0;
        while i < self.entries.len()
            invariant
                i <= self.entries@.len(),
                forall|j: int| 0 <= j < i ==> self.entries@[j].user_id@ != user_id@,
            decreases self.entries@.len() - i,
        {
            if str_eq(self.entries[i].user_id.as_str(), user_id) {
                return Some(i);
            }
            i = i + 1;
        }
        None
    }

    /// Stores an already wrapped blob under a user id, replacing any prior
    /// entry. The at-rest directory holds exactly these blobs, so the
    /// process edge uses this to reload a persisted directory.
    pub fn insert_blob(&mut self, user_id: &str, blob: Vec<u8>)
        requires
            old(self).wf(),
        ensures
            final(self).wf(),
            final(self)@ == old(self)@.insert(user_id@, blob@),
    {
        let ghost bv = blob@;
        match self.find(user_id) {
            Some(i) => {
                let e = VaultEntry { user_id: user_id.to_owned(), blob };
                self.entries.set(i, e);
                proof {
                    self.lemma_insert_at(*old(self), i as int, user_id@, bv);
                }
            },
            None => {
                let e = VaultEntry { user_id: user_id.to_owned(), blob };
                self.entries.push(e);
                proof {
                    assert(self.entries@.subrange(0, old(self).entries@.len() as int)
                        =~= old(self).entries@);
                    self.lemma_insert_push(*old(self), user_id@, bv);
                }
            },
        }
    }

    proof fn lemma_insert_at(&self, prev: Self, i: int, u: Seq<char>, bv: Seq<u8>)
        requires
            prev.wf(),
            0 <= i < prev.entries@.len(),
            prev.entries@[i].user_id@ == u,
            self.entries@ == prev.entries@.update(
                i,
                VaultEntry { user_id: self.entries@[i].user_id, blob: self.entries@[i].blob },
            ),
            self.entries@[i].user_id@ == u,
            self.entries@[i].blob@ == bv,
        ensures
            self.wf(),
            self@ == prev@.insert(u, bv),
    {
        assert forall|p: int, q: int|
            0 <= p < q < self.entries@.len() implies self.entries@[p].user_id@
            != self.entries@[q].user_id@ by {
            assert(prev.entries@[p].user_id@ != prev.entries@[q].user_id@);
        };
        assert forall|v: Seq<char>| #[trigger] self@.contains_key(v) == prev@.insert(
            u,
            bv,
        ).contains_key(v) by {
            if v == u {
                assert(self.contains_user(u));
            } else {
                if self.contains_user(v) {
                    let j = self.idx_of(v);
                    assert(prev.entries@[j].user_id@ == v);
                }
                if prev.contains_user(v) {
                    let j = prev.idx_of(v);
                    assert(self.entries@[j].user_id@ == v);
                }
            }
        };
        assert forall|v: Seq<char>| self@.contains_key(v) implies #[trigger] self@[v] == prev@.insert(
            u,
            bv,
        )[v] by {
            if v == u {
                self.lemma_entry_maps(i);
            } else {
                let j = self.idx_of(v);
                assert(0 <= j < self.entries@.len() && self.entries@[j].user_id@ == v);
                assert(j != i);
                self.lemma_entry_maps(j);
                prev.lemma_entry_maps(j);
            }
        };
        assert(self@ =~= prev@.insert(u, bv));
    }

    proof fn lemma_insert_push(&self, prev: Self, u: Seq<char>, bv: Seq<u8>)
        requires
            prev.wf(),
            !prev.contains_user(u),
            self.entries@.len() == prev.entries@.len() + 1,
            self.entries@.subrange(0, prev.entries@.len() as int) == prev.entries@,
            self.entries@[prev.entries@.len() as int].user_id@ == u,
            self.entries@[prev.entries@.len() as int].blob@ == bv,
        ensures
            self.wf(),
            self@ == prev@.insert(u, bv),
    {
        let n = prev.entries@.len() as int;
        assert forall|p: int, q: int|
            0 <= p < q < self.entries@.len() implies self.entries@[p].user_id@
            != self.entries@[q].user_id@ by {
            if q < n {
                assert(self.entries@[p] == prev.entries@[p]);
                assert(self.entries@[q] == prev.entries@[q]);
            } else {
                assert(self.entries@[p] == prev.entries@[p]);
                assert(!prev.contains_user(u));
            }
        };
        assert forall|v: Seq<char>| #[trigger] self@.contains_key(v) == prev@.insert(
            u,
            bv,
        ).contains_key(v) by {
            if v == u {
                assert(self.entries@[n].user_id@ == u);
                assert(self.contains_user(u));
            } else {
                if self.contains_user(v) {
                    let j = self.idx_of(v);
                    assert(j < n);
                    assert(prev.entries@[j].user_id@ == v);
                }
                if prev.contains_user(v) {
                    let j = prev.idx_of(v);
                    assert(self.entries@[j] == prev.entries@[j]);
                }
            }
        };
        assert forall|v: Seq<char>| self@.contains_key(v) implies #[trigger] self@[v] == prev@.insert(
            u,
            bv,
        )[v] by {
            if v == u {
                self.lemma_entry_maps(n);
            } else {
                let j = self.idx_of(v);
                assert(0 <= j < self.entries@.len() && self.entries@[j].user_id@ == v);
                assert(j != n);
                assert(self.entries@[j] == prev.entries@[j]);
                self.lemma_entry_maps(j);
                prev.lemma_entry_maps(j);
            }
        };
        assert(self@ =~= prev@.insert(u, bv));
    }

    /// Imports a secret: wraps its UTF-8 bytes under the key capability and
    /// stores the blob, overwriting any prior entry for the user.
    pub fn import_key(&mut self, user_id: &str, bw_key: &str) -> (r: Result<(), VaultError>)
        requires
            old(self).wf(),
        ensures
            final(self).wf(),
            r is Ok,
            final(self)@ == old(self)@.insert(user_id@, wrap_spec(encode_utf8(bw_key@))),
    {
        let wrapped = wrap_blob(bw_key.as_bytes());
        self.insert_blob(user_id, wrapped);
        Ok(())
    }

    /// Whether an entry is stored for the user; touches neither the blob nor
    /// the presence gate.
    pub fn check_key_exists(&self, user_id: &str) -> (r: bool)
        requires
            self.wf(),
        ensures
            r == self@.contains_key(user_id@),
    {
        match self.find(user_id) {
            Some(i) => {
                proof {
                    self.lemma_entry_maps(i as int);
                }
                true
            },
            None => false,
        }
    }

    /// Exports a secret under a gate reading: behaves exactly as
    /// [`export_spec`] on the vault's contents.
    pub fn export_key(&self, user_id: &str, gate: GateReading) -> (r: Result<String, VaultError>)
        requires
            self.wf(),
        ensures
            ({
                let s = export_spec(self@, user_id@, gate);
                &&& (r matches Ok(k) ==> (s matches Ok(sk) && k@ == sk))
                &&& (r matches Err(e) ==> (s matches Err(se) && e == se))
            }),
    {
        let i = match self.find(user_id) {
            Some(i) => i,
            None => {
                return Err(VaultError::NotFound);
            },
        };
        proof {
            self.lemma_entry_maps(i as int);
        }
        if availability_code(gate.availability) == 0 && !gate.presence_verified {
            return Err(VaultError::PresenceDenied);
        }
        assert(gate.availability == Availability::Available ==> gate.presence_verified);
        let unwrapped = match unwrap_blob(self.entries[i].blob.as_slice()) {
            Some(v) => v,
            None => {
                return Err(VaultError::WrapFormat);
            },
        };
        let ghost b = unwrapped@;
        match utf8_to_string(unwrapped) {
            Some(s) => {
                proof {
                    vstd::utf8::encode_utf8_decode_utf8(s@);
                }
                Ok(s)
            },
            None => Err(VaultError::Encoding),
        }
    }

    /// Removes the entry for a user; removing an absent entry is not an
    /// error.
    pub fn delete_key(&mut self, user_id: &str) -> (r: Result<(), VaultError>)
        requires
            old(self).wf(),
        ensures
            final(self).wf(),
            r is Ok,
            final(self)@ == old(self)@.remove(user_id@),
    {
        match self.find(user_id) {
            Some(i) => {
                self.entries.remove(i);
                proof {
                    self.lemma_remove_at(*old(self), i as int, user_id@);
                }
            },
            None => {
                proof {
                    assert(self@ =~= old(self)@.remove(user_id@));
                }
            },
        }
        Ok(())
    }

    proof fn lemma_remove_at(&self, prev: Self, i: int, u: Seq<char>)
        requires
            prev.wf(),
            0 <= i < prev.entries@.len(),
            prev.entries@[i].user_id@ == u,
            self.entries@ == prev.entries@.remove(i),
        ensures
            self.wf(),
            self@ == prev@.remove(u),
    {
        let n = prev.entries@.len() as int;
        assert forall|p: int, q: int|
            0 <= p < q < self.entries@.len() implies self.entries@[p].user_id@
            != self.entries@[q].user_id@ by {
            let p0 = if p < i { p } else { p + 1 };
            let q0 = if q < i { q } else { q + 1 };
            assert(self.entries@[p] == prev.entries@[p0]);
            assert(self.entries@[q] == prev.entries@[q0]);
        };
        assert forall|v: Seq<char>| #[trigger] self@.contains_key(v) == prev@.remove(
            u,
        ).contains_key(v) by {
            if self.contains_user(v) {
                let j = self.idx_of(v);
                let j0 = if j < i { j } else { j + 1 };
                assert(self.entries@[j] == prev.entries@[j0]);
                assert(prev.entries@[j0].user_id@ == v);
                if v == u {
                    assert(prev.entries@[i].user_id@ == prev.entries@[j0].user_id@);
                    assert(j0 == i);
                    assert(false);
                }
            }
            if prev.contains_user(v) && v != u {
                let j = prev.idx_of(v);
                assert(prev.entries@[j].user_id@ == v);
                assert(j != i);
                let j1 = if j < i { j } else { j - 1 };
                assert(self.entries@[j1] == prev.entries@[j]);
                assert(self.contains_user(v));
            }
        };
        assert forall|v: Seq<char>| self@.contains_key(v) implies #[trigger] self@[v] == prev@.remove(
            u,
        )[v] by {
            let j = self.idx_of(v);
            let j0 = if j < i { j } else { j + 1 };
            assert(self.entries@[j] == prev.entries@[j0]);
            self.lemma_entry_maps(j);
            prev.lemma_entry_maps(j0);
        };
        assert(self@ =~= prev@.remove(u));
    }

    /// The stored user ids, in directory order.
    pub fn list_keys(&self) -> (r: Vec<String>)
        requires
            self.wf(),
        ensures
            r@.len() == self.entry_keys().len(),
            forall|i: int| 0 <= i < r@.len() ==> r@[i]@ == self.entry_keys()[i],
            forall|i: int, j: int| 0 <= i < j < r@.len() ==> r@[i]@ != r@[j]@,
            forall|i: int| 0 <= i < r@.len() ==> self@.contains_key(r@[i]@),
            forall|u: Seq<char>|
                self@.contains_key(u) ==> exists|i: int| 0 <= i < r@.len() && r@[i]@ == u,
    {
        let mut keys: Vec<String> = Vec::new();
        let mut i: usize = 0;
        while i < self.entries.len()
            invariant
                i <= self.entries@.len(),
                keys@.len() == i,
                forall|j: int| 0 <= j < i ==> keys@[j]@ == self.entries@[j].user_id@,
            decreases self.entries@.len() - i,
        {
            keys.push(self.entries[i].user_id.clone());
            i = i + 1;
        }
        proof {
            assert forall|j: int| 0 <= j < keys@.len() implies self@.contains_key(
                #[trigger] keys@[j]@,
            ) by {
                self.lemma_entry_maps(j);
            };
            assert forall|u: Seq<char>| self@.contains_key(u) implies exists|j: int|
                0 <= j < keys@.len() && keys@[j]@ == u by {
                let j = self.idx_of(u);
                assert(keys@[j]@ == u);
            };
        }
        keys
    }

    /// The stored blob for a user, for the process edge to persist.
    pub fn export_blob(&self, user_id: &str) -> (r: Option<Vec<u8>>)
        requires
            self.wf(),
        ensures
            match r {
                Some(b) => self@.contains_key(user_id@) && b@ == self@[user_id@],
                None => !self@.contains_key(user_id@),
            },
    {
        match self.find(user_id) {
            Some(i) => {
                proof {
                    self.lemma_entry_maps(i as int);
                }
                Some(self.entries[i].blob.clone())
            },
            None => None,
        }
    }
}

impl Default for KeyManager {
    /// An empty vault, as [`KeyManager::new`] builds one.
    fn default() -> (r: Self)
        ensures
            r.wf(),
            r@ == Map::<Seq<char>, Seq<u8>>::empty(),
    {
        Self::new()
    }
}

/// Vault round trip: importing a key and at once exporting it under an
/// available capability and an affirmed presence check yields the key back.
pub fn import_then_export(
    vault: &mut KeyManager,
    user_id: &str,
    bw_key: &str,
    gate: GateReading,
) -> (r: String)
    requires
        old(vault).wf(),
        gate.availability == Availability::Available,
        gate.presence_verified,
    ensures
        r@ == bw_key@,
{
    let _ = vault.import_key(user_id, bw_key);
    proof {
        lemma_import_then_export(old(vault)@, user_id@, bw_key@, gate);
    }
    match vault.export_key(user_id, gate) {
        Ok(s) => s,
        Err(_) => vstd::pervasive::unreached(),
    }
}

} // verus!
