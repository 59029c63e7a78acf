//! Pending invitations: payloads kept under their tokens until they expire.

use vstd::prelude::*;
use crate::models::InviteRequest;

verus! {

/// One pending invitation and the second at which it stops being reachable.
pub struct PendingInvitation {
    pub token: String,
    pub payload: InviteRequest,
    pub expires_at: u64,
}

/// The payload kept under `token`, if it is still reachable at `now`.
pub open spec fn live_payload(
    m: Map<Seq<char>, (InviteRequest, u64)>,
    token: Seq<char>,
    now: int,
) -> Option<InviteRequest> {
    if m.contains_key(token) && now < m[token].1 {
        Some(m[token].0)
    } else {
        None
    }
}

/// A store of pending invitations with a fixed lifetime per entry.
pub struct PendingInvitations {
    entries: Vec<PendingInvitation>,
    contents: Ghost<Map<Seq<char>, (InviteRequest, u64)>>,
}

impl View for PendingInvitations {
    type V = Map<Seq<char>, (InviteRequest, u64)>;

    /// Each token with its payload and expiry second.
    closed spec fn view(&self) -> Self::V {
        self.contents@
    }
}

impl PendingInvitations {
    /// The entries stand for the contents, one entry per token.
    pub closed spec fn wf(&self) -> bool {
        let e = self.entries@;
        let m = self.contents@;
        &&& forall|i: int|
            0 <= i < e.len() ==> #[trigger] m.contains_key(e[i].token@) && m[e[i].token@] == (
                e[i].payload,
                e[i].expires_at,
            )
        &&& forall|k: Seq<char>|
            #[trigger] m.contains_key(k) ==> exists|i: int| 0 <= i < e.len() && e[i].token@ == k
        &&& forall|i: int, j: int|
            0 <= i < e.len() && 0 <= j < e.len() && i != j ==> e[i].token@ != e[j].token@
    }

    /// An empty store.
    pub fn new() -> (r: PendingInvitations)
        ensures
            r.wf(),
            r@ == Map::<Seq<char>, (InviteRequest, u64)>::empty(),
    {
        PendingInvitations { entries: Vec::new(), contents: Ghost(Map::empty()) }
    }

    fn position(&self, token: &String) -> (r: Option<usize>)
        requires
            self.wf(),
        ensures
            r is None <==> !self@.contains_key(token@),
            r matches Some(i) ==> i < self.entries@.len() && self.entries@[i as int].token@
                == token@,
    {
        let n = self.entries.len();
        let mut i: usize = 0;
        while i < n
            invariant
                self.wf(),
                n == self.entries@.len(),
                i <= n,
                forall|k: int| 0 <= k < i ==> self.entries@[k].token@ != token@,
            decreases n - i,
        {
            if self.entries[i].token == *token {
                return Some(i);
            }
            i = i + 1;
        }
        proof {
            if self@.contains_key(token@) {
                let k = choose|k: int|
                    0 <= k < self.entries@.len() && self.entries@[k].token@ == token@;
            }
        }
        None
    }

    /// Keeps `payload` under `token` for `ttl_secs` seconds from `now`,
    /// replacing what the token held before.
    pub fn set_ex(&mut self, token: String, payload: InviteRequest, ttl_secs: u64, now: u64)
        requires
            old(self).wf(),
            now + ttl_secs <= u64::MAX,
        ensures
            final(self).wf(),
            final(self)@ == old(self)@.insert(token@, (payload, (now + ttl_secs) as u64)),
    {
        let expires_at = now + ttl_secs;
        let ghost key = token@;
        let ghost m = self.contents@.insert(key, (payload, expires_at));
        let entry = PendingInvitation { token, payload, expires_at };
        let ghost idx: int;
        match self.position(&entry.token) {
            Some(i) => {
                self.entries.set(i, entry);
                proof {
                    idx = i as int;
                }
            },
            None => {
                self.entries.push(entry);
                proof {
                    idx = self.entries@.len() - 1;
                }
            },
        }
        assert(self.entries@[idx].token@ == key);
        self.contents = Ghost(m);
        let ghost e = self.entries@;
        let ghost oe = old(self).entries@;
        assert forall|i: int| 0 <= i < e.len() implies #[trigger] m.contains_key(e[i].token@)
            && m[e[i].token@] == (e[i].payload, e[i].expires_at) by {
            if i != idx {
                assert(e[i] == oe[i]);
                assert(oe[i].token@ != key);
            }
        }
        assert forall|i: int, j: int|
            0 <= i < e.len() && 0 <= j < e.len() && i != j implies e[i].token@ != e[j].token@ by {
            if i != idx && j != idx {
                assert(e[i] == oe[i] && e[j] == oe[j]);
            } else if i == idx {
                assert(e[j] == oe[j]);
            } else {
                assert(e[i] == oe[i]);
            }
        }
        assert forall|k: Seq<char>| #[trigger] m.contains_key(k) implies exists|i: int|
            0 <= i < self.entries@.len() && self.entries@[i].token@ == k by {
            if k == key {
                assert(0 <= idx < self.entries@.len() && self.entries@[idx].token@ == k);
            } else {
                let i = choose|i: int|
                    0 <= i < old(self).entries@.len() && old(self).entries@[i].token@ == k;
                assert(self.entries@[i].token@ == k);
            }
        }
    }

    /// The payload under `token` if it is still reachable at `now`.
    pub fn get(&self, token: &String, now: u64) -> (r: Option<InviteRequest>)
        requires
            self.wf(),
        ensures
            r == live_payload(self@, token@, now as int),
    {
        match self.position(token) {
            Some(i) => {
                let e = &self.entries[i];
                if now < e.expires_at {
                    Some(e.payload.duplicate())
                } else {
                    None
                }
            },
            None => None,
        }
    }
}

/// A payload kept for `ttl` seconds from `now` is reachable at every second
/// before `now + ttl` and unreachable from then on.
pub proof fn lemma_reachable_until_expiry(
    m: Map<Seq<char>, (InviteRequest, u64)>,
    token: Seq<char>,
    payload: InviteRequest,
    now: u64,
    ttl: u64,
    t: int,
)
    requires
        now + ttl <= u64::MAX,
    ensures
        live_payload(m.insert(token, (payload, (now + ttl) as u64)), token, t) == (if t < now
            + ttl {
            Some(payload)
        } else {
            None
        }),
{
}

/// Keeping a second payload under another token leaves the first reachable
/// exactly as before.
pub proof fn lemma_other_token_untouched(
    m: Map<Seq<char>, (InviteRequest, u64)>,
    token: Seq<char>,
    other: Seq<char>,
    payload: InviteRequest,
    expires_at: u64,
    t: int,
)
    requires
        token != other,
    ensures
        live_payload(m.insert(other, (payload, expires_at)), token, t) == live_payload(m, token, t),
{
}

} // verus!
