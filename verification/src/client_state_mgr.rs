use vstd::prelude::*;

use crate::client_state::{client_wf, ClientState};

verus! {

/// True when some entry of `s` belongs to client `id`.
pub open spec fn seq_has_client(s: Seq<ClientState>, id: u16) -> bool {
    exists|i: int| 0 <= i < s.len() && s[i].client == id
}

/// Index of an entry of `s` that belongs to client `id`.
pub open spec fn seq_client_index(s: Seq<ClientState>, id: u16) -> int {
    choose|i: int| 0 <= i < s.len() && s[i].client == id
}

/// Each client id occurs at most once in `s`.
pub open spec fn seq_clients_unique(s: Seq<ClientState>) -> bool {
    forall|i: int, j: int| 0 <= i < j < s.len() ==> s[i].client != s[j].client
}

/// The mapping from client id to account state that a sequence of states
/// represents.
pub open spec fn states_as_map(s: Seq<ClientState>) -> Map<u16, ClientState> {
    Map::new(|id: u16| seq_has_client(s, id), |id: u16| s[seq_client_index(s, id)])
}

/// Ledger invariant over the abstract mapping: every account satisfies the
/// per-account balance invariant and is stored under its own id.
pub open spec fn ledger_wf(m: Map<u16, ClientState>) -> bool {
    forall|id: u16| #[trigger] m.contains_key(id) ==> client_wf(m[id]) && m[id].client == id
}

/// The state of an account opened by its first deposit.
pub open spec fn fresh_client(id: u16, amt: int) -> ClientState {
    ClientState { client: id, available: amt as i64, held: 0, total: amt as i64, locked: false }
}

/// Abstract effect of a deposit: the account is opened when absent, then
/// `amt` is added to both `available` and `total`. A deposit is refused only
/// when the new balance would not fit the fixed-point range.
pub open spec fn spec_deposit(m: Map<u16, ClientState>, id: u16, amt: int) -> (
    Map<u16, ClientState>,
    bool,
) {
    if m.contains_key(id) {
        let c = m[id];
        if c.total + amt <= i64::MAX {
            (
                m.insert(
                    id,
                    ClientState {
                        available: (c.available + amt) as i64,
                        total: (c.total + amt) as i64,
                        ..c
                    },
                ),
                true,
            )
        } else {
            (m, false)
        }
    } else {
        if amt <= i64::MAX {
            (m.insert(id, fresh_client(id, amt)), true)
        } else {
            (m, false)
        }
    }
}

/// Abstract effect of a withdrawal: `amt` leaves both `available` and
/// `total`; refused when the account is absent or short of available funds.
pub open spec fn spec_withdraw(m: Map<u16, ClientState>, id: u16, amt: int) -> (
    Map<u16, ClientState>,
    bool,
) {
    if m.contains_key(id) && m[id].available >= amt {
        let c = m[id];
        (
            m.insert(
                id,
                ClientState {
                    available: (c.available - amt) as i64,
                    total: (c.total - amt) as i64,
                    ..c
                },
            ),
            true,
        )
    } else {
        (m, false)
    }
}

/// Abstract effect of opening a dispute: `amt` moves from `available` to
/// `held`, `total` unchanged; refused when the account is absent or short of
/// available funds.
pub open spec fn spec_open_dispute(m: Map<u16, ClientState>, id: u16, amt: int) -> (
    Map<u16, ClientState>,
    bool,
) {
    if m.contains_key(id) && m[id].available >= amt {
        let c = m[id];
        (
            m.insert(
                id,
                ClientState {
                    available: (c.available - amt) as i64,
                    held: (c.held + amt) as i64,
                    ..c
                },
            ),
            true,
        )
    } else {
        (m, false)
    }
}

/// Abstract effect of resolving a dispute: `amt` moves back from `held` to
/// `available`, `total` unchanged; refused when the account is absent or its
/// held funds are short.
pub open spec fn spec_resolve(m: Map<u16, ClientState>, id: u16, amt: int) -> (
    Map<u16, ClientState>,
    bool,
) {
    if m.contains_key(id) && m[id].held >= amt {
        let c = m[id];
        (
            m.insert(
                id,
                ClientState {
                    available: (c.available + amt) as i64,
                    held: (c.held - amt) as i64,
                    ..c
                },
            ),
            true,
        )
    } else {
        (m, false)
    }
}

/// Abstract effect of a chargeback: `amt` leaves both `held` and `total`
/// (the disputed funds are removed, not refunded) and the account is locked
/// for good; refused when the account is absent or its held funds are short.
pub open spec fn spec_chargeback(m: Map<u16, ClientState>, id: u16, amt: int) -> (
    Map<u16, ClientState>,
    bool,
) {
    if m.contains_key(id) && m[id].held >= amt {
        let c = m[id];
        (
            m.insert(
                id,
                ClientState { held: (c.held - amt) as i64, total: (c.total - amt) as i64, locked: true, ..c },
            ),
            true,
        )
    } else {
        (m, false)
    }
}

/// Interface to manage clients states.
///
/// The store keeps one entry per client id; its abstract value (the view) is
/// the mapping from client id to account state.
pub struct ClientsStatesMgr {
    clients_states: Vec<ClientState>,
}

impl View for ClientsStatesMgr {
    type V = Map<u16, ClientState>;

    closed spec fn view(&self) -> Map<u16, ClientState> {
        states_as_map(self.clients_states@)
    }
}

/// The entry of `s` that belongs to a present client id is the one the
/// abstract mapping returns.
proof fn lemma_unique_index(s: Seq<ClientState>, i: int, id: u16)
    requires
        seq_clients_unique(s),
        0 <= i < s.len(),
        s[i].client == id,
    ensures
        seq_has_client(s, id),
        seq_client_index(s, id) == i,
        states_as_map(s).contains_key(id),
        states_as_map(s)[id] == s[i],
{
    assert(seq_has_client(s, id));
    let j = seq_client_index(s, id);
    assert(0 <= j < s.len() && s[j].client == id);
    if i < j {
        assert(s[i].client != s[j].client);
    } else if j < i {
        assert(s[j].client != s[i].client);
    }
}

/// Replacing the entry at `i` by a state of the same client updates the
/// abstract mapping at that client id alone.
proof fn lemma_states_map_update(s: Seq<ClientState>, i: int, st: ClientState)
    requires
        seq_clients_unique(s),
        0 <= i < s.len(),
        st.client == s[i].client,
    ensures
        seq_clients_unique(s.update(i, st)),
        states_as_map(s.update(i, st)) == states_as_map(s).insert(st.client, st),
{
    let s2 = s.update(i, st);
    assert forall|p: int, q: int| 0 <= p < q < s2.len() implies s2[p].client != s2[q].client by {
        assert(s[p].client != s[q].client);
    }
    lemma_unique_index(s2, i, st.client);
    assert forall|id: u16| id != st.client implies #[trigger] seq_has_client(s2, id)
        == seq_has_client(s, id) && (seq_has_client(s, id) ==> states_as_map(s2)[id]
        == states_as_map(s)[id]) by {
        if seq_has_client(s, id) {
            let j = seq_client_index(s, id);
            assert(0 <= j < s.len() && s[j].client == id);
            assert(s2[j] == s[j]);
            lemma_unique_index(s2, j, id);
            lemma_unique_index(s, j, id);
        }
        if seq_has_client(s2, id) {
            let j = seq_client_index(s2, id);
            assert(0 <= j < s2.len() && s2[j].client == id);
            assert(j != i);
            assert(s[j].client == id);
            assert(seq_has_client(s, id));
        }
    }
    assert(states_as_map(s2) =~= states_as_map(s).insert(st.client, st));
}

/// Appending a state for a client id that is absent from `s` adds exactly
/// that entry to the abstract mapping.
proof fn lemma_states_map_push(s: Seq<ClientState>, st: ClientState)
    requires
        seq_clients_unique(s),
        !seq_has_client(s, st.client),
    ensures
        seq_clients_unique(s.push(st)),
        states_as_map(s.push(st)) == states_as_map(s).insert(st.client, st),
{
    let s2 = s.push(st);
    assert forall|p: int, q: int| 0 <= p < q < s2.len() implies s2[p].client != s2[q].client by {
        if q < s.len() {
            assert(s[p].client != s[q].client);
        } else {
            assert(s2[q] == st);
            assert(s2[p] == s[p]);
            assert(!(s[p].client == st.client));
        }
    }
    lemma_unique_index(s2, s.len() as int, st.client);
    assert forall|id: u16| id != st.client implies #[trigger] seq_has_client(s2, id)
        == seq_has_client(s, id) && (seq_has_client(s, id) ==> states_as_map(s2)[id]
        == states_as_map(s)[id]) by {
        if seq_has_client(s, id) {
            let j = seq_client_index(s, id);
            assert(0 <= j < s.len() && s[j].client == id);
            assert(s2[j] == s[j]);
            lemma_unique_index(s2, j, id);
            lemma_unique_index(s, j, id);
        }
        if seq_has_client(s2, id) {
            let j = seq_client_index(s2, id);
            assert(0 <= j < s2.len() && s2[j].client == id);
            assert(j != s.len());
            assert(s[j].client == id);
            assert(seq_has_client(s, id));
        }
    }
    assert(states_as_map(s2) =~= states_as_map(s).insert(st.client, st));
}

impl ClientsStatesMgr {
    /// Representation invariant: one entry per client id, each entry well
    /// formed and carrying its own id.
    pub closed spec fn wf(&self) -> bool {
        &&& seq_clients_unique(self.clients_states@)
        &&& forall|i: int| 0 <= i < self.clients_states@.len() ==> client_wf(
            #[trigger] self.clients_states@[i],
        )
    }

    /// A well-formed store represents a well-formed abstract ledger.
    pub proof fn lemma_wf_ledger(&self)
        requires
            self.wf(),
        ensures
            ledger_wf(self@),
    {
        let s = self.clients_states@;
        assert forall|id: u16| #[trigger] self@.contains_key(id) implies client_wf(self@[id])
            && self@[id].client == id by {
            assert(seq_has_client(s, id));
            let i = seq_client_index(s, id);
            assert(0 <= i < s.len() && s[i].client == id);
            assert(client_wf(s[i]));
        }
    }

    /// Law: in every well-formed store — and every operation of this store
    /// keeps it well formed — each account's total equals its available funds
    /// plus its held funds, and neither component is negative.
    pub proof fn lemma_balance_invariant(&self)
        requires
            self.wf(),
        ensures
            forall|id: u16| #[trigger] self@.contains_key(id) ==> self@[id].total
                == self@[id].available + self@[id].held && self@[id].available >= 0
                && self@[id].held >= 0,
    {
        self.lemma_wf_ledger();
    }

    /// Create state manager with no accounts.
    pub fn new() -> (mgr: ClientsStatesMgr)
        ensures
            mgr.wf(),
            mgr@ == Map::<u16, ClientState>::empty(),
    {
        let mgr = ClientsStatesMgr { clients_states: Vec::new() };
        proof {
            assert(mgr@ =~= Map::<u16, ClientState>::empty());
        }
        mgr
    }

    /// Get current states of all clients; the returned sequence carries one
    /// entry per account and represents exactly the current ledger mapping.
    pub fn get_states(&self) -> (states: Vec<ClientState>)
        requires
            self.wf(),
        ensures
            seq_clients_unique(states@),
            states_as_map(states@) == self@,
            forall|i: int| 0 <= i < states@.len() ==> client_wf(#[trigger] states@[i]),
    {
        let mut out: Vec<ClientState> = Vec::new();
        let n = self.clients_states.len();
        let mut idx: usize = 0;
        while idx < n
            invariant
                n == self.clients_states@.len(),
                idx <= n,
                out@ == self.clients_states@.subrange(0, idx as int),
            decreases n - idx,
        {
            out.push(self.clients_states[idx]);
            idx += 1;
        }
        proof {
            assert(out@ == self.clients_states@);
        }
        out
    }

    /// Read the current state of one client, if present.
    pub fn get_client_details(&self, client_id: u16) -> (r: Option<&ClientState>)
        requires
            self.wf(),
        ensures
            match r {
                Some(c) => self@.contains_key(client_id) && *c == self@[client_id],
                None => !self@.contains_key(client_id),
            },
    {
        match self.find_index(client_id) {
            Some(i) => {
                proof {
                    lemma_unique_index(self.clients_states@, i as int, client_id);
                }
                Some(&self.clients_states[i])
            },
            None => None,
        }
    }

    /// Index of the entry for `client_id`, if one is present.
    fn find_index(&self, client_id: u16) -> (r: Option<usize>)
        ensures
            match r {
                Some(i) => 0 <= i < self.clients_states@.len()
                    && self.clients_states@[i as int].client == client_id,
                None => !seq_has_client(self.clients_states@, client_id),
            },
    {
        let n = self.clients_states.len();
        let mut idx: usize = 0;
        while idx < n
            invariant
                n == self.clients_states@.len(),
                idx <= n,
                forall|j: int| 0 <= j < idx ==> self.clients_states@[j].client != client_id,
            decreases n - idx,
        {
            if self.clients_states[idx].client == client_id {
                return Some(idx);
            }
            idx += 1;
        }
        None
    }

    /// Apply deposit - i.e. increase available funds. The account is created
    /// on first deposit. Succeeds for every non-negative amount whose
    /// addition keeps the balance inside the fixed-point range.
    pub fn apply_deposit(&mut self, client_id: u16, amount: i64) -> (r: bool)
        requires
            old(self).wf(),
            amount >= 0,
        ensures
            final(self).wf(),
            (final(self)@, r) == spec_deposit(old(self)@, client_id, amount as int),
    {
        match self.find_index(client_id) {
            Some(i) => {
                proof {
                    lemma_unique_index(self.clients_states@, i as int, client_id);
                }
                let c = self.clients_states[i];
                if amount <= i64::MAX - c.total {
                    let updated = ClientState {
                        available: c.available + amount,
                        total: c.total + amount,
                        ..c
                    };
                    proof {
                        lemma_states_map_update(self.clients_states@, i as int, updated);
                    }
                    self.clients_states[i] = updated;
                    true
                } else {
                    false
                }
            },
            None => {
                let fresh = ClientState {
                    client: client_id,
                    available: amount,
                    held: 0,
                    total: amount,
                    locked: false,
                };
                proof {
                    lemma_states_map_push(self.clients_states@, fresh);
                }
                self.clients_states.push(fresh);
                true
            },
        }
    }

    /// Apply withdrawal on clients account - decrease funds. Fails when the
    /// account is absent or its available funds are below the amount.
    pub fn apply_withdrawal(&mut self, client_id: u16, amount: i64) -> (r: bool)
        requires
            old(self).wf(),
            amount >= 0,
        ensures
            final(self).wf(),
            (final(self)@, r) == spec_withdraw(old(self)@, client_id, amount as int),
    {
        match self.find_index(client_id) {
            Some(i) => {
                proof {
                    lemma_unique_index(self.clients_states@, i as int, client_id);
                }
                let c = self.clients_states[i];
                if c.available >= amount {
                    let updated = ClientState {
                        available: c.available - amount,
                        total: c.total - amount,
                        ..c
                    };
                    proof {
                        lemma_states_map_update(self.clients_states@, i as int, updated);
                    }
                    self.clients_states[i] = updated;
                    true
                } else {
                    false
                }
            },
            None => false,
        }
    }

    /// Apply dispute on client state: the amount moves from available to
    /// held. Fails when the account is absent or its available funds are
    /// below the amount.
    pub fn apply_dispute(&mut self, client_id: u16, amount: i64) -> (r: bool)
        requires
            old(self).wf(),
            amount >= 0,
        ensures
            final(self).wf(),
            (final(self)@, r) == spec_open_dispute(old(self)@, client_id, amount as int),
    {
        match self.find_index(client_id) {
            Some(i) => {
                proof {
                    lemma_unique_index(self.clients_states@, i as int, client_id);
                }
                let c = self.clients_states[i];
                if c.available >= amount {
                    let updated = ClientState {
                        available: c.available - amount,
                        held: c.held + amount,
                        ..c
                    };
                    proof {
                        lemma_states_map_update(self.clients_states@, i as int, updated);
                    }
                    self.clients_states[i] = updated;
                    true
                } else {
                    false
                }
            },
            None => false,
        }
    }

    /// Apply resolve on client state: the amount moves back from held to
    /// available. Fails when the account is absent or its held funds are
    /// below the amount.
    pub fn apply_resolve(&mut self, client_id: u16, amount: i64) -> (r: bool)
        requires
            old(self).wf(),
            amount >= 0,
        ensures
            final(self).wf(),
            (final(self)@, r) == spec_resolve(old(self)@, client_id, amount as int),
    {
        match self.find_index(client_id) {
            Some(i) => {
                proof {
                    lemma_unique_index(self.clients_states@, i as int, client_id);
                }
                let c = self.clients_states[i];
                if c.held >= amount {
                    let updated = ClientState {
                        available: c.available + amount,
                        held: c.held - amount,
                        ..c
                    };
                    proof {
                        lemma_states_map_update(self.clients_states@, i as int, updated);
                    }
                    self.clients_states[i] = updated;
                    true
                } else {
                    false
                }
            },
            None => false,
        }
    }

    /// Apply chargeback on client's state and mark the account as locked for
    /// good: the amount leaves both held and total. Fails when the account is
    /// absent or its held funds are below the amount.
    pub fn apply_chargeback(&mut self, client_id: u16, amount: i64) -> (r: bool)
        requires
            old(self).wf(),
            amount >= 0,
        ensures
            final(self).wf(),
            (final(self)@, r) == spec_chargeback(old(self)@, client_id, amount as int),
    {
        match self.find_index(client_id) {
            Some(i) => {
                proof {
                    lemma_unique_index(self.clients_states@, i as int, client_id);
                }
                let c = self.clients_states[i];
                if c.held >= amount {
                    let updated = ClientState {
                        held: c.held - amount,
                        total: c.total - amount,
                        locked: true,
                        ..c
                    };
                    proof {
                        lemma_states_map_update(self.clients_states@, i as int, updated);
                    }
                    self.clients_states[i] = updated;
                    true
                } else {
                    false
                }
            },
            None => false,
        }
    }
}

} // verus!
