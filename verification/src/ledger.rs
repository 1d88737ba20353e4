use crate::seqs::lemma_filter_member;
use crate::token::TokenId;
use vstd::prelude::*;

verus! {

/// One revoked token: its identifier, and the expiry the token carried.
#[derive(Debug, Clone, Copy)]
pub struct RevocationEntry {
    pub token_id: TokenId,
    /// Seconds since the Unix epoch.
    pub expires_at: u64,
}

/// Whether some entry of the list names the token.
pub open spec fn listed(entries: Seq<RevocationEntry>, token_id: TokenId) -> bool {
    exists|k: int| 0 <= k < entries.len() && (#[trigger] entries[k]).token_id == token_id
}

/// Whether a cut at `now` keeps the entry: it does until the entry's expiry
/// has passed.
pub open spec fn live(entry: RevocationEntry, now: u64) -> bool {
    entry.expires_at >= now
}

/// The entries that a cut at `now` keeps, in their order.
pub open spec fn pruned(entries: Seq<RevocationEntry>, now: u64) -> Seq<RevocationEntry> {
    entries.filter(|e: RevocationEntry| live(e, now))
}

/// The deny-list of tokens that must be turned away although their
/// signature and expiry are in order.
#[derive(Debug)]
pub struct RevocationLedger {
    entries: Vec<RevocationEntry>,
}

impl View for RevocationLedger {
    type V = Seq<RevocationEntry>;

    closed spec fn view(&self) -> Seq<RevocationEntry> {
        self.entries@
    }
}

impl Clone for RevocationLedger {
    fn clone(&self) -> (r: RevocationLedger)
        ensures
            r@ == self@,
    {
        RevocationLedger { entries: self.entries.clone() }
    }
}

impl RevocationLedger {
    /// A ledger with no entry.
    pub fn new() -> (ledger: RevocationLedger)
        ensures
            ledger@ == Seq::<RevocationEntry>::empty(),
    {
        RevocationLedger { entries: Vec::new() }
    }

    /// The number of entries.
    pub fn len(&self) -> (n: usize)
        ensures
            n == self@.len(),
    {
        self.entries.len()
    }

    /// Whether the ledger names the token.
    pub fn is_revoked(&self, token_id: &TokenId) -> (b: bool)
        ensures
            b == listed(self@, *token_id),
    {
        let mut i: usize = 0;
        while i < self.entries.len()
            invariant
                i <= self.entries.len(),
                forall|k: int| 0 <= k < i ==> (#[trigger] self.entries[k]).token_id != *token_id,
            decreases self.entries.len() - i,
        {
            if self.entries[i].token_id.same(token_id) {
                return true;
            }
            i += 1;
        }
        false
    }

    /// Records that the token is revoked. A token already named keeps the
    /// entry it has.
    pub fn revoke(&mut self, token_id: TokenId, expires_at: u64)
        ensures
            final(self)@ == if listed(old(self)@, token_id) {
                old(self)@
            } else {
                old(self)@.push(RevocationEntry { token_id, expires_at })
            },
            listed(final(self)@, token_id),
    {
        if !self.is_revoked(&token_id) {
            self.entries.push(RevocationEntry { token_id, expires_at });
            assert(self.entries@[self.entries@.len() - 1].token_id == token_id);
        }
    }

    /// Drops the entries whose expiry has passed at `now`.
    pub fn prune(&mut self, now: u64)
        ensures
            final(self)@ == pruned(old(self)@, now),
    {
        let mut kept: Vec<RevocationEntry> = Vec::new();
        let mut i: usize = 0;
        while i < self.entries.len()
            invariant
                i <= self.entries.len(),
                self.entries@ == old(self).entries@,
                kept@ == pruned(self.entries@.take(i as int), now),
            decreases self.entries.len() - i,
        {
            let entry = self.entries[i];
            proof {
                assert(self.entries@.take(i + 1) =~= self.entries@.take(i as int).push(entry));
                self.entries@.take(i as int).lemma_filter_push(
                    entry,
                    |e: RevocationEntry| live(e, now),
                );
            }
            if entry.expires_at >= now {
                kept.push(entry);
            }
            i += 1;
        }
        assert(self.entries@.take(self.entries.len() as int) =~= self.entries@);
        self.entries = kept;
    }
}

/// A cut keeps exactly the entries that are still live: a token is named
/// after the cut if and only if a live entry named it before.
pub proof fn lemma_pruned_lists(entries: Seq<RevocationEntry>, now: u64, token_id: TokenId)
    ensures
        listed(pruned(entries, now), token_id) <==> exists|k: int|
            0 <= k < entries.len() && (#[trigger] entries[k]).token_id == token_id && live(
                entries[k],
                now,
            ),
{
    let keep = |e: RevocationEntry| live(e, now);
    let after = pruned(entries, now);
    if listed(after, token_id) {
        let k = choose|k: int| 0 <= k < after.len() && (#[trigger] after[k]).token_id == token_id;
        assert(after.contains(after[k]));
        lemma_filter_member(entries, keep, after[k]);
        let j = choose|j: int| 0 <= j < entries.len() && entries[j] == after[k];
        assert(entries[j].token_id == token_id && live(entries[j], now));
    }
    if exists|k: int|
        0 <= k < entries.len() && (#[trigger] entries[k]).token_id == token_id && live(
            entries[k],
            now,
        ) {
        let k = choose|k: int|
            0 <= k < entries.len() && (#[trigger] entries[k]).token_id == token_id && live(
                entries[k],
                now,
            );
        assert(entries.contains(entries[k]));
        lemma_filter_member(entries, keep, entries[k]);
        let j = choose|j: int| 0 <= j < after.len() && after[j] == entries[k];
        assert(after[j].token_id == token_id);
    }
}

} // verus!
