//! The client registry: a keyed, read-only collection of per-chain
//! clients, built once at startup, that answers the three aggregate
//! queries by merging per-chain outcomes into one keyed result.

use vstd::prelude::*;
use vstd::string::*;
use crate::chain::{first_ok, meta_like, none_ok, ChainMetaData};
use crate::client::EvmChainClient;
use crate::error::ClientError;
use crate::primitives::U256;

verus! {

/// The registry key of a client: its chain's short name.
pub open spec fn key_of(c: EvmChainClient) -> Seq<char> {
    c.metadata.short_name@
}

/// Whether the clients of a sequence carry pairwise distinct keys.
pub open spec fn keys_distinct(s: Seq<EvmChainClient>) -> bool {
    forall|i: int, j: int| 0 <= i < j < s.len() ==> key_of(s[i]) != key_of(s[j])
}

/// Whether some client of the sequence carries the given key.
pub open spec fn has_key(s: Seq<EvmChainClient>, k: Seq<char>) -> bool {
    exists|i: int| 0 <= i < s.len() && key_of(s[i]) == k
}

/// Whether position `n` holds the last client with its key.
pub open spec fn is_last_with_key(s: Seq<EvmChainClient>, n: int) -> bool {
    &&& 0 <= n < s.len()
    &&& forall|m: int| n < m < s.len() ==> key_of(s[m]) != key_of(s[n])
}

/// The clients at positions `n..` that are the last with their key,
/// ordered by descending position.
pub open spec fn kept_from(s: Seq<EvmChainClient>, n: int) -> Seq<EvmChainClient>
    decreases s.len() - n,
{
    if n < 0 || n >= s.len() {
        Seq::empty()
    } else if is_last_with_key(s, n) {
        kept_from(s, n + 1).push(s[n])
    } else {
        kept_from(s, n + 1)
    }
}

/// One client per distinct key of the input, each the last with its
/// key, ordered by position of that last occurrence. This is the
/// content a keyed map would hold after inserting the clients in
/// order, later entries replacing earlier ones with the same key.
pub open spec fn dedup_by_key(s: Seq<EvmChainClient>) -> Seq<EvmChainClient> {
    kept_from(s, 0).reverse()
}

/// Whether some client at positions `n..` carries the given key.
pub open spec fn has_key_from(s: Seq<EvmChainClient>, n: int, k: Seq<char>) -> bool {
    exists|m: int| n <= m < s.len() && key_of(s[m]) == k
}

/// The keys kept from positions `n..` are exactly the keys present at
/// positions `n..`.
proof fn lemma_kept_from_keys(s: Seq<EvmChainClient>, n: int)
    requires
        0 <= n,
    ensures
        forall|k: Seq<char>| #[trigger] has_key(kept_from(s, n), k) <==> has_key_from(s, n, k),
    decreases s.len() - n,
{
    if n >= s.len() {
        assert forall|k: Seq<char>| #[trigger] has_key(kept_from(s, n), k) <==> has_key_from(
            s,
            n,
            k,
        ) by {
            assert(kept_from(s, n).len() == 0);
            if has_key(kept_from(s, n), k) {
                let i = choose|i: int|
                    0 <= i < kept_from(s, n).len() && key_of(kept_from(s, n)[i]) == k;
                assert(false);
            }
            if has_key_from(s, n, k) {
                let m = choose|m: int| n <= m < s.len() && key_of(s[m]) == k;
                assert(false);
            }
        }
    } else {
        lemma_kept_from_keys(s, n + 1);
        let rest = kept_from(s, n + 1);
        let whole = kept_from(s, n);
        assert forall|k: Seq<char>| #[trigger] has_key(whole, k) <==> has_key_from(s, n, k) by {
            if has_key(whole, k) {
                let i = choose|i: int| 0 <= i < whole.len() && key_of(whole[i]) == k;
                if is_last_with_key(s, n) && i == whole.len() - 1 {
                    assert(whole[i] == s[n]);
                    assert(n <= n < s.len() && key_of(s[n]) == k);
                } else {
                    assert(whole[i] == rest[i]);
                    assert(has_key(rest, k));
                    assert(has_key_from(s, n + 1, k));
                    let m = choose|m: int| n + 1 <= m < s.len() && key_of(s[m]) == k;
                    assert(n <= m < s.len() && key_of(s[m]) == k);
                }
            }
            if has_key_from(s, n, k) {
                let m = choose|m: int| n <= m < s.len() && key_of(s[m]) == k;
                if m > n {
                    assert(has_key_from(s, n + 1, k));
                    assert(has_key(rest, k));
                    let i = choose|i: int| 0 <= i < rest.len() && key_of(rest[i]) == k;
                    assert(key_of(whole[i]) == k);
                    assert(has_key(whole, k));
                } else {
                    // m == n: either s[n] itself is kept, or a later
                    // client carries the same key
                    if is_last_with_key(s, n) {
                        assert(key_of(whole[whole.len() - 1]) == k);
                        assert(has_key(whole, k));
                    } else {
                        let m0 = choose|m0: int|
                            n < m0 < s.len() && key_of(s[m0]) == key_of(s[n]);
                        assert(has_key_from(s, n + 1, k));
                        assert(has_key(rest, k));
                        let i = choose|i: int| 0 <= i < rest.len() && key_of(rest[i]) == k;
                        assert(key_of(whole[i]) == k);
                        assert(has_key(whole, k));
                    }
                }
            }
        }
    }
}

/// The kept clients carry pairwise distinct keys.
proof fn lemma_kept_from_distinct(s: Seq<EvmChainClient>, n: int)
    ensures
        keys_distinct(kept_from(s, n)),
    decreases s.len() - n,
{
    if n < 0 || n >= s.len() {
    } else {
        lemma_kept_from_distinct(s, n + 1);
        lemma_kept_from_keys(s, n + 1);
        let rest = kept_from(s, n + 1);
        if is_last_with_key(s, n) {
            let whole = rest.push(s[n]);
            assert(!has_key(rest, key_of(s[n])));
            assert forall|i: int, j: int| 0 <= i < j < whole.len() implies key_of(whole[i])
                != key_of(whole[j]) by {
                if j < rest.len() {
                    assert(whole[i] == rest[i] && whole[j] == rest[j]);
                } else {
                    assert(whole[j] == s[n]);
                    assert(whole[i] == rest[i]);
                    if key_of(rest[i]) == key_of(s[n]) {
                        assert(has_key(rest, key_of(s[n])));
                    }
                }
            }
        }
    }
}

/// Reversal keeps keys pairwise distinct.
proof fn lemma_reverse_distinct(s: Seq<EvmChainClient>)
    requires
        keys_distinct(s),
    ensures
        keys_distinct(s.reverse()),
{
    let r = s.reverse();
    assert forall|i: int, j: int| 0 <= i < j < r.len() implies key_of(r[i]) != key_of(r[j]) by {
        assert(r[i] == s[s.len() - 1 - i]);
        assert(r[j] == s[s.len() - 1 - j]);
    }
}

/// Reversal keeps the key set.
proof fn lemma_reverse_keys(s: Seq<EvmChainClient>)
    ensures
        forall|k: Seq<char>| #[trigger] has_key(s.reverse(), k) <==> has_key(s, k),
{
    let r = s.reverse();
    assert forall|k: Seq<char>| #[trigger] has_key(r, k) implies has_key(s, k) by {
        let i = choose|i: int| 0 <= i < r.len() && key_of(r[i]) == k;
        assert(r[i] == s[s.len() - 1 - i]);
    }
    assert forall|k: Seq<char>| has_key(s, k) implies #[trigger] has_key(r, k) by {
        let i = choose|i: int| 0 <= i < s.len() && key_of(s[i]) == k;
        assert(r[s.len() - 1 - i] == s[i]);
    }
}

/// When keys are pairwise distinct, every client is kept: the kept
/// clients from position `n` on are exactly the clients at `n..`, in
/// descending position order.
proof fn lemma_kept_from_identity(s: Seq<EvmChainClient>, n: int)
    requires
        keys_distinct(s),
        0 <= n <= s.len(),
    ensures
        kept_from(s, n).len() == s.len() - n,
        forall|i: int| 0 <= i < s.len() - n ==> #[trigger] kept_from(s, n)[i] == s[s.len() - 1 - i],
    decreases s.len() - n,
{
    if n < s.len() {
        lemma_kept_from_identity(s, n + 1);
        assert(is_last_with_key(s, n));
        let rec = kept_from(s, n + 1);
        let whole = kept_from(s, n);
        assert(whole == rec.push(s[n]));
        assert forall|i: int| 0 <= i < s.len() - n implies #[trigger] whole[i] == s[s.len() - 1
            - i] by {
            if i < rec.len() {
                assert(whole[i] == rec[i]);
            } else {
                assert(whole[i] == s[n]);
            }
        }
    }
}

/// De-duplicating a sequence whose keys are already pairwise distinct
/// changes nothing.
pub proof fn lemma_dedup_identity(s: Seq<EvmChainClient>)
    requires
        keys_distinct(s),
    ensures
        dedup_by_key(s) == s,
{
    lemma_kept_from_identity(s, 0);
    let kept = kept_from(s, 0);
    assert forall|i: int| 0 <= i < s.len() implies kept.reverse()[i] == s[i] by {
        assert(kept.reverse()[i] == kept[kept.len() - 1 - i]);
        assert(kept[kept.len() - 1 - i] == s[s.len() - 1 - (kept.len() - 1 - i)]);
    }
    assert(dedup_by_key(s) =~= s);
}

/// De-duplication keeps exactly the keys of the input.
pub proof fn lemma_dedup_same_keys(s: Seq<EvmChainClient>)
    ensures
        forall|k: Seq<char>| #[trigger] has_key(dedup_by_key(s), k) <==> has_key(s, k),
{
    lemma_kept_from_keys(s, 0);
    lemma_reverse_keys(kept_from(s, 0));
    assert forall|k: Seq<char>| #[trigger] has_key(dedup_by_key(s), k) <==> has_key(s, k) by {
        assert(has_key(dedup_by_key(s), k) <==> has_key(kept_from(s, 0), k));
        assert(has_key(kept_from(s, 0), k) <==> has_key_from(s, 0, k));
        assert(has_key_from(s, 0, k) <==> has_key(s, k));
    }
}

/// The balance the aggregate records for one chain given the outcome
/// of its call: the fetched balance, or zero when the call failed.
pub open spec fn outcome_or_zero(o: Option<U256>) -> U256 {
    match o {
        Some(b) => b,
        None => U256 { w0: 0, w1: 0, w2: 0, w3: 0 },
    }
}

/// A keyed, read-only collection of per-chain clients.
#[derive(Debug)]
pub struct EvmClientRegistry {
    /// The registered clients, keyed by their chain's short name;
    /// keys are pairwise distinct.
    pub clients: Vec<EvmChainClient>,
}

impl EvmClientRegistry {
    /// Every registered key is unique.
    pub open spec fn wf(&self) -> bool {
        keys_distinct(self.clients@)
    }

    /// Builds a registry from the given clients. A later client with
    /// the same short name replaces an earlier one, as inserting into
    /// a keyed map would; keys of the result are pairwise distinct.
    pub fn new(clients: Vec<EvmChainClient>) -> (r: Self)
        ensures
            r.clients@ == dedup_by_key(clients@),
            r.wf(),
            forall|k: Seq<char>| #[trigger] has_key(r.clients@, k) <==> has_key(clients@, k),
            keys_distinct(clients@) ==> r.clients@ == clients@,
    {
        proof {
            if keys_distinct(clients@) {
                lemma_dedup_identity(clients@);
            }
        }
        proof {
            lemma_kept_from_distinct(clients@, 0);
            lemma_reverse_distinct(kept_from(clients@, 0));
        }
        let ghost s = clients@;
        let mut rest = clients;
        let mut rev: Vec<EvmChainClient> = Vec::new();
        while rest.len() > 0
            invariant
                rest@ == s.take(rest@.len() as int),
                rest@.len() <= s.len(),
                rev@ == kept_from(s, rest@.len() as int),
            decreases rest@.len(),
        {
            proof {
                lemma_kept_from_keys(s, rest@.len() as int);
            }
            let idx = rest.len() - 1;
            let c = rest.pop().unwrap();
            proof {
                assert(c == s[idx as int]);
                assert(rest@ =~= s.take(idx as int));
            }
            let mut seen = false;
            let mut p: usize = 0;
            while p < rev.len()
                invariant
                    p <= rev@.len(),
                    seen == exists|q: int| 0 <= q < p && key_of(rev@[q]) == c.metadata.short_name@,
                decreases rev@.len() - p,
            {
                if rev[p].metadata.short_name == c.metadata.short_name {
                    seen = true;
                }
                p = p + 1;
            }
            proof {
                assert(seen == has_key(rev@, c.metadata.short_name@));
                assert(has_key(rev@, key_of(s[idx as int])) <==> has_key_from(
                    s,
                    idx + 1 as int,
                    key_of(s[idx as int]),
                ));
                assert(seen == !is_last_with_key(s, idx as int));
            }
            if !seen {
                rev.push(c);
            }
        }
        proof {
            assert(rev@ == kept_from(s, 0));
        }
        let ghost rev0 = rev@;
        let mut out: Vec<EvmChainClient> = Vec::new();
        while rev.len() > 0
            invariant
                rev@ == rev0.take(rev@.len() as int),
                rev@.len() <= rev0.len(),
                out@.len() == rev0.len() - rev@.len(),
                forall|q: int| 0 <= q < out@.len() ==> out@[q] == rev0[rev0.len() - 1 - q],
            decreases rev@.len(),
        {
            let c = rev.pop().unwrap();
            proof {
                assert(c == rev0[rev@.len() as int]);
                assert(rev@ =~= rev0.take(rev@.len() as int));
            }
            out.push(c);
        }
        proof {
            assert(out@ =~= rev0.reverse());
            assert(out@ == dedup_by_key(s));
            lemma_dedup_same_keys(s);
        }
        EvmClientRegistry { clients: out }
    }

    /// The registered clients.
    pub fn inner(&self) -> (r: &Vec<EvmChainClient>)
        ensures
            r == &self.clients,
    {
        &self.clients
    }

    /// The number of registered chains.
    pub fn len(&self) -> (r: usize)
        ensures
            r == self.clients@.len(),
    {
        self.clients.len()
    }

    /// Merges the per-chain outcomes of one native-balance fan-out
    /// into the aggregate result: every registered chain's key is
    /// present, a failed chain reports a zero balance, every other
    /// chain the balance its call fetched. No chain's failure fails
    /// the aggregate.
    pub fn merge_native_balances(&self, outcomes: &Vec<Option<U256>>) -> (r: Vec<(String, U256)>)
        requires
            outcomes@.len() == self.clients@.len(),
        ensures
            r@.len() == self.clients@.len(),
            forall|i: int|
                0 <= i < r@.len() ==> (#[trigger] r@[i]).0 == self.clients@[i].metadata.short_name
                    && r@[i].1 == outcome_or_zero(outcomes@[i]),
    {
        let mut r: Vec<(String, U256)> = Vec::new();
        let mut i: usize = 0;
        while i < self.clients.len()
            invariant
                i <= self.clients@.len(),
                outcomes@.len() == self.clients@.len(),
                r@.len() == i,
                forall|j: int|
                    0 <= j < i ==> (#[trigger] r@[j]).0 == self.clients@[j].metadata.short_name
                        && r@[j].1 == outcome_or_zero(outcomes@[j]),
            decreases self.clients@.len() - i,
        {
            let key = self.clients[i].metadata.short_name.clone();
            let balance = match outcomes[i] {
                Some(b) => b,
                None => U256::zero(),
            };
            r.push((key, balance));
            i = i + 1;
        }
        r
    }

    /// The positions of the chains a token-balance fan-out dispatches
    /// to: exactly the registered chains whose token catalog is not
    /// empty, in registry order.
    pub fn token_query_indices(&self) -> (r: Vec<usize>)
        ensures
            forall|j: int|
                0 <= j < r@.len() ==> (#[trigger] r@[j]) < self.clients@.len()
                    && self.clients@[r@[j] as int].tokens@.len() > 0,
            forall|j1: int, j2: int| 0 <= j1 < j2 < r@.len() ==> r@[j1] < r@[j2],
            forall|i: int|
                0 <= i < self.clients@.len() && (#[trigger] self.clients@[i]).tokens@.len() > 0
                    ==> exists|j: int| 0 <= j < r@.len() && r@[j] == i,
    {
        let mut r: Vec<usize> = Vec::new();
        let mut i: usize = 0;
        while i < self.clients.len()
            invariant
                i <= self.clients@.len(),
                forall|j: int|
                    0 <= j < r@.len() ==> (#[trigger] r@[j]) < i && self.clients@[r@[j] as int]
                        .tokens@.len() > 0,
                forall|j1: int, j2: int| 0 <= j1 < j2 < r@.len() ==> r@[j1] < r@[j2],
                forall|m: int|
                    0 <= m < i && (#[trigger] self.clients@[m]).tokens@.len() > 0 ==> exists|
                        j: int,
                    | 0 <= j < r@.len() && r@[j] == m,
            decreases self.clients@.len() - i,
        {
            let ghost r_old = r@;
            if self.clients[i].tokens.len() > 0 {
                r.push(i);
            }
            proof {
                assert forall|m: int|
                    0 <= m < i + 1 && (#[trigger] self.clients@[m]).tokens@.len() > 0 implies exists|
                    j: int,
                | 0 <= j < r@.len() && r@[j] == m by {
                    if m == i as int {
                        assert(r@[r@.len() - 1] == i);
                    } else {
                        let j = choose|j: int| 0 <= j < r_old.len() && r_old[j] == m;
                        assert(r@[j] == m);
                    }
                }
            }
            i = i + 1;
        }
        r
    }

    /// Labels per-chain results with the keys of the chains they came
    /// from: entry `j` of the result pairs the short name of the
    /// client at `indices[j]` with `results[j]`.
    pub fn label_results<T>(&self, indices: &Vec<usize>, results: Vec<T>) -> (r: Vec<(String, T)>)
        requires
            indices@.len() == results@.len(),
            forall|j: int| 0 <= j < indices@.len() ==> (#[trigger] indices@[j]) < self.clients@.len(),
        ensures
            r@.len() == indices@.len(),
            forall|j: int|
                0 <= j < r@.len() ==> (#[trigger] r@[j]).0 == self.clients@[indices@[j] as int]
                    .metadata.short_name && r@[j].1 == results@[j],
    {
        let ghost res0 = results@;
        let n = indices.len();
        let mut res = results;
        let mut rev: Vec<(String, T)> = Vec::new();
        while res.len() > 0
            invariant
                n == indices@.len(),
                res0.len() == n,
                forall|j: int| 0 <= j < indices@.len() ==> (#[trigger] indices@[j])
                    < self.clients@.len(),
                res@ == res0.take(res@.len() as int),
                res@.len() <= n,
                rev@.len() == n - res@.len(),
                forall|p: int|
                    0 <= p < rev@.len() ==> (#[trigger] rev@[p]).0 == self.clients@[indices@[n - 1
                        - p] as int].metadata.short_name && rev@[p].1 == res0[n - 1 - p],
            decreases res@.len(),
        {
            let pos = res.len() - 1;
            let t = res.pop().unwrap();
            proof {
                assert(t == res0[pos as int]);
                assert(res@ =~= res0.take(pos as int));
            }
            let key = self.clients[indices[pos]].metadata.short_name.clone();
            rev.push((key, t));
        }
        let ghost rev0 = rev@;
        let mut out: Vec<(String, T)> = Vec::new();
        while rev.len() > 0
            invariant
                rev@ == rev0.take(rev@.len() as int),
                rev@.len() <= rev0.len(),
                out@.len() == rev0.len() - rev@.len(),
                forall|q: int|
                    0 <= q < out@.len() ==> (#[trigger] out@[q]) == rev0[rev0.len() - 1 - q],
            decreases rev@.len(),
        {
            let c = rev.pop().unwrap();
            proof {
                assert(c == rev0[rev@.len() as int]);
                assert(rev@ =~= rev0.take(rev@.len() as int));
            }
            out.push(c);
        }
        proof {
            assert forall|j: int| 0 <= j < out@.len() implies (#[trigger] out@[j]).0
                == self.clients@[indices@[j] as int].metadata.short_name && out@[j].1
                == res0[j] by {
                assert(out@[j] == rev0[rev0.len() - 1 - j]);
            }
        }
        out
    }

    /// Merges the per-chain outcomes of one transaction fan-out into
    /// the aggregate result: every registered chain's key is present,
    /// a failed chain reports an empty list, every other chain the
    /// page its query fetched. No chain's failure fails the aggregate.
    pub fn merge_transactions<T>(&self, outcomes: Vec<Option<Vec<T>>>) -> (r: Vec<(String, Vec<T>)>)
        requires
            outcomes@.len() == self.clients@.len(),
        ensures
            r@.len() == self.clients@.len(),
            forall|i: int|
                0 <= i < r@.len() ==> (#[trigger] r@[i]).0 == self.clients@[i].metadata.short_name,
            forall|i: int|
                0 <= i < r@.len() ==> match outcomes@[i] {
                    Some(v) => (#[trigger] r@[i]).1 == v,
                    None => r@[i].1@ == Seq::<T>::empty(),
                },
    {
        let ghost oc0 = outcomes@;
        let n = self.clients.len();
        let mut oc = outcomes;
        let mut rev: Vec<(String, Vec<T>)> = Vec::new();
        while oc.len() > 0
            invariant
                n == self.clients@.len(),
                oc0.len() == n,
                oc@ == oc0.take(oc@.len() as int),
                oc@.len() <= n,
                rev@.len() == n - oc@.len(),
                forall|p: int|
                    0 <= p < rev@.len() ==> (#[trigger] rev@[p]).0 == self.clients@[n - 1
                        - p].metadata.short_name,
                forall|p: int|
                    0 <= p < rev@.len() ==> match oc0[n - 1 - p] {
                        Some(v) => (#[trigger] rev@[p]).1 == v,
                        None => rev@[p].1@ == Seq::<T>::empty(),
                    },
            decreases oc@.len(),
        {
            let pos = oc.len() - 1;
            let item = oc.pop().unwrap();
            proof {
                assert(item == oc0[pos as int]);
                assert(oc@ =~= oc0.take(pos as int));
            }
            let key = self.clients[pos].metadata.short_name.clone();
            let txs = match item {
                Some(v) => v,
                None => Vec::new(),
            };
            rev.push((key, txs));
        }
        let ghost rev0 = rev@;
        let mut out: Vec<(String, Vec<T>)> = Vec::new();
        while rev.len() > 0
            invariant
                rev@ == rev0.take(rev@.len() as int),
                rev@.len() <= rev0.len(),
                out@.len() == rev0.len() - rev@.len(),
                forall|q: int|
                    0 <= q < out@.len() ==> (#[trigger] out@[q]) == rev0[rev0.len() - 1 - q],
            decreases rev@.len(),
        {
            let c = rev.pop().unwrap();
            proof {
                assert(c == rev0[rev@.len() as int]);
                assert(rev@ =~= rev0.take(rev@.len() as int));
            }
            out.push(c);
        }
        proof {
            assert forall|i: int| 0 <= i < out@.len() implies (#[trigger] out@[i]).0
                == self.clients@[i].metadata.short_name by {
                assert(out@[i] == rev0[rev0.len() - 1 - i]);
            }
            assert forall|i: int| 0 <= i < out@.len() implies match oc0[i] {
                Some(v) => (#[trigger] out@[i]).1 == v,
                None => out@[i].1@ == Seq::<T>::empty(),
            } by {
                assert(out@[i] == rev0[rev0.len() - 1 - i]);
            }
        }
        out
    }

    /// Looks a chain up by its short name; `None` exactly when no
    /// registered chain carries that key.
    pub fn get(&self, chain: &str) -> (r: Option<&EvmChainClient>)
        ensures
            match r {
                Some(c) => exists|i: int|
                    0 <= i < self.clients@.len() && self.clients@[i] == *c && key_of(*c) == chain@,
                None => !has_key(self.clients@, chain@),
            },
    {
        let key = String::from_str(chain);
        let mut i: usize = 0;
        while i < self.clients.len()
            invariant
                i <= self.clients@.len(),
                key@ == chain@,
                forall|j: int| 0 <= j < i ==> key_of(self.clients@[j]) != chain@,
            decreases self.clients@.len() - i,
        {
            if self.clients[i].metadata.short_name == key {
                return Some(&self.clients[i]);
            }
            i = i + 1;
        }
        None
    }

    /// Looks a chain up by its short name, surfacing a missing key as
    /// a lookup-miss error — never silently substituting another
    /// chain.
    pub fn lookup(&self, chain: &str) -> (r: Result<&EvmChainClient, ClientError>)
        ensures
            match r {
                Ok(c) => exists|i: int|
                    0 <= i < self.clients@.len() && self.clients@[i] == *c && key_of(*c) == chain@,
                Err(e) => e.is_not_found() && !has_key(self.clients@, chain@),
            },
    {
        match self.get(chain) {
            Some(c) => Ok(c),
            None => {
                let mut msg = String::from_str("chain not found: ");
                msg.append(chain);
                Err(ClientError::NotFound(msg))
            },
        }
    }
}

/// Whether `c` is the client that a descriptor with a usable RPC URL
/// yields: the descriptor's own metadata, the first usable URL, the
/// given explorer credential, and an empty token catalog.
pub open spec fn descriptor_client(ch: ChainMetaData, k: Seq<char>, c: EvmChainClient) -> bool {
    &&& meta_like(&c.metadata, &ch)
    &&& exists|i: int| first_ok(ch.rpc@, i) && c.rpc_url == ch.rpc@[i]
    &&& c.etherscan_api_key@ == k
    &&& c.tokens@.len() == 0
}

/// Whether `r` is exactly the client list that building from the
/// descriptor list `chains` yields: one client per descriptor with a
/// usable RPC URL, in descriptor order; descriptors without one are
/// skipped and contribute nothing.
pub open spec fn clients_match(chains: Seq<ChainMetaData>, k: Seq<char>, r: Seq<EvmChainClient>) -> bool
    decreases chains.len(),
{
    if chains.len() == 0 {
        r.len() == 0
    } else if none_ok(chains[0].rpc@) {
        clients_match(chains.drop_first(), k, r)
    } else {
        &&& r.len() > 0
        &&& descriptor_client(chains[0], k, r[0])
        &&& clients_match(chains.drop_first(), k, r.drop_first())
    }
}

/// Extends a built client list by one more descriptor: a descriptor
/// with a usable URL appends its client, one without appends nothing.
proof fn lemma_clients_match_push(
    chains: Seq<ChainMetaData>,
    k: Seq<char>,
    r: Seq<EvmChainClient>,
    ch: ChainMetaData,
    cl: Option<EvmChainClient>,
)
    requires
        clients_match(chains, k, r),
        match cl {
            Some(c) => !none_ok(ch.rpc@) && descriptor_client(ch, k, c),
            None => none_ok(ch.rpc@),
        },
    ensures
        clients_match(
            chains.push(ch),
            k,
            match cl {
                Some(c) => r.push(c),
                None => r,
            },
        ),
    decreases chains.len(),
{
    let chains2 = chains.push(ch);
    let r2 = match cl {
        Some(c) => r.push(c),
        None => r,
    };
    if chains.len() == 0 {
        assert(chains2[0] == ch);
        assert(chains2.drop_first() =~= Seq::<ChainMetaData>::empty());
        match cl {
            Some(c) => {
                assert(r2[0] == c);
                assert(r2.drop_first() =~= Seq::<EvmChainClient>::empty());
                assert(clients_match(chains2.drop_first(), k, r2.drop_first()));
                assert(clients_match(chains2, k, r2));
            },
            None => {
                assert(r2.len() == 0);
                assert(clients_match(chains2.drop_first(), k, r2));
                assert(clients_match(chains2, k, r2));
            },
        }
    } else {
        assert(chains2[0] == chains[0]);
        assert(chains2.drop_first() =~= chains.drop_first().push(ch));
        assert(chains2.drop_first() == chains.drop_first().push(ch));
        if none_ok(chains[0].rpc@) {
            lemma_clients_match_push(chains.drop_first(), k, r, ch, cl);
            assert(clients_match(chains2.drop_first(), k, r2));
            assert(clients_match(chains2, k, r2));
        } else {
            assert(r.len() > 0);
            lemma_clients_match_push(chains.drop_first(), k, r.drop_first(), ch, cl);
            match cl {
                Some(c) => {
                    assert(r2[0] == r[0]);
                    assert(r2.drop_first() =~= r.drop_first().push(c));
                    assert(r2.drop_first() == r.drop_first().push(c));
                    assert(clients_match(chains2.drop_first(), k, r2.drop_first()));
                    assert(descriptor_client(chains2[0], k, r2[0]));
                    assert(clients_match(chains2, k, r2));
                },
                None => {
                    assert(r2.drop_first() == r.drop_first());
                    assert(clients_match(chains2.drop_first(), k, r2.drop_first()));
                    assert(descriptor_client(chains2[0], k, r2[0]));
                    assert(clients_match(chains2, k, r2));
                },
            }
        }
    }
}

/// Builds one client per descriptor that yields one: the first usable
/// RPC URL of each descriptor is selected, and a descriptor with no
/// usable URL is skipped with nothing built for it — its failure
/// never aborts construction of the other chains' clients.
pub fn build_clients(chains: &Vec<ChainMetaData>, etherscan_api_key: &str) -> (r: Vec<
    EvmChainClient,
>)
    ensures
        clients_match(chains@, etherscan_api_key@, r@),
{
    let mut r: Vec<EvmChainClient> = Vec::new();
    let mut i: usize = 0;
    while i < chains.len()
        invariant
            i <= chains@.len(),
            clients_match(chains@.take(i as int), etherscan_api_key@, r@),
        decreases chains@.len() - i,
    {
        let ghost r_old = r@;
        let ghost prefix = chains@.take(i as int);
        match chains[i].create_rpc_client(etherscan_api_key) {
            Ok(c) => {
                proof {
                    lemma_clients_match_push(
                        prefix,
                        etherscan_api_key@,
                        r_old,
                        chains@[i as int],
                        Some(c),
                    );
                }
                r.push(c);
            },
            Err(_) => {
                proof {
                    lemma_clients_match_push(
                        prefix,
                        etherscan_api_key@,
                        r_old,
                        chains@[i as int],
                        None,
                    );
                }
            },
        }
        proof {
            assert(chains@.take(i + 1 as int) =~= prefix.push(chains@[i as int]));
        }
        i = i + 1;
    }
    proof {
        assert(chains@.take(chains@.len() as int) =~= chains@);
    }
    r
}

/// A descriptor whose candidate list holds no usable URL yields no
/// client: when its short name is no other descriptor's, that key is
/// absent from what was built — while every other descriptor's client
/// is still built.
pub proof fn lemma_unqualified_chain_absent(
    chains: Seq<ChainMetaData>,
    k: Seq<char>,
    r: Seq<EvmChainClient>,
    i: int,
)
    requires
        clients_match(chains, k, r),
        0 <= i < chains.len(),
        none_ok(chains[i].rpc@),
        forall|j: int|
            0 <= j < chains.len() && j != i ==> (#[trigger] chains[j]).short_name@
                != chains[i].short_name@,
    ensures
        !has_key(r, chains[i].short_name@),
    decreases chains.len(),
{
    if has_key(r, chains[i].short_name@) {
        let p = choose|p: int| 0 <= p < r.len() && key_of(r[p]) == chains[i].short_name@;
        lemma_built_clients_from_chains(chains, k, r, p);
        let j = choose|j: int|
            0 <= j < chains.len() && descriptor_client(chains[j], k, r[p]) && !none_ok(
                chains[j].rpc@,
            );
        assert(chains[j].short_name@ == key_of(r[p]));
        assert(j != i);
        assert(false);
    }
}

/// Dispatching the same native-balance aggregate query twice against
/// an unchanged backend yields identical keyed results: the merged
/// aggregate is a function of the registry and the per-chain outcomes
/// alone, so two fan-outs whose outcomes agree merge to the same keys
/// and the same values.
pub proof fn lemma_native_balances_idempotent(
    reg: &EvmClientRegistry,
    outcomes1: Seq<Option<U256>>,
    outcomes2: Seq<Option<U256>>,
    r1: Seq<(String, U256)>,
    r2: Seq<(String, U256)>,
)
    requires
        outcomes1 == outcomes2,
        outcomes1.len() == reg.clients@.len(),
        r1.len() == reg.clients@.len(),
        r2.len() == reg.clients@.len(),
        forall|i: int|
            0 <= i < r1.len() ==> (#[trigger] r1[i]).0 == reg.clients@[i].metadata.short_name
                && r1[i].1 == outcome_or_zero(outcomes1[i]),
        forall|i: int|
            0 <= i < r2.len() ==> (#[trigger] r2[i]).0 == reg.clients@[i].metadata.short_name
                && r2[i].1 == outcome_or_zero(outcomes2[i]),
    ensures
        r1 == r2,
{
    assert forall|i: int| 0 <= i < r1.len() implies r1[i] == r2[i] by {
        assert(r1[i].0 == r2[i].0);
        assert(r1[i].1 == r2[i].1);
    }
    assert(r1 =~= r2);
}

/// If exactly one of the registered chains' native-balance calls
/// fails, the merged aggregate still holds every registered chain's
/// key: the failing chain's value is zero, every other chain's value
/// is the balance its call fetched, and the aggregate itself does not
/// fail.
pub proof fn lemma_partial_failure_isolation(
    reg: &EvmClientRegistry,
    outcomes: Seq<Option<U256>>,
    r: Seq<(String, U256)>,
    f: int,
)
    requires
        outcomes.len() == reg.clients@.len(),
        r.len() == reg.clients@.len(),
        forall|i: int|
            0 <= i < r.len() ==> (#[trigger] r[i]).0 == reg.clients@[i].metadata.short_name && r[i].1
                == outcome_or_zero(outcomes[i]),
        0 <= f < outcomes.len(),
        outcomes[f] is None,
        forall|i: int| 0 <= i < outcomes.len() && i != f ==> (#[trigger] outcomes[i]) is Some,
    ensures
        r.len() == reg.clients@.len(),
        forall|i: int|
            0 <= i < r.len() ==> (#[trigger] r[i]).0 == reg.clients@[i].metadata.short_name,
        r[f].1.as_nat() == 0,
        forall|i: int| 0 <= i < r.len() && i != f ==> (#[trigger] r[i]).1 == outcomes[i]->0,
{
    assert(r[f].1 == outcome_or_zero(outcomes[f]));
    assert(r[f].1.as_nat() == 0);
}

/// A descriptor whose candidate list holds no usable URL is absent
/// from the registry built over the other descriptors' clients: no
/// entry carries its short name, while every descriptor with a usable
/// URL still contributed its client.
pub proof fn lemma_unqualified_chain_absent_from_registry(
    chains: Seq<ChainMetaData>,
    k: Seq<char>,
    built: Seq<EvmChainClient>,
    reg: &EvmClientRegistry,
    i: int,
)
    requires
        clients_match(chains, k, built),
        reg.clients@ == dedup_by_key(built),
        0 <= i < chains.len(),
        none_ok(chains[i].rpc@),
        forall|j: int|
            0 <= j < chains.len() && j != i ==> (#[trigger] chains[j]).short_name@
                != chains[i].short_name@,
    ensures
        !has_key(reg.clients@, chains[i].short_name@),
{
    lemma_unqualified_chain_absent(chains, k, built, i);
    lemma_dedup_same_keys(built);
}

/// Every built client is some descriptor's client, and that
/// descriptor had a usable URL.
proof fn lemma_built_clients_from_chains(
    chains: Seq<ChainMetaData>,
    k: Seq<char>,
    r: Seq<EvmChainClient>,
    p: int,
)
    requires
        clients_match(chains, k, r),
        0 <= p < r.len(),
    ensures
        exists|j: int|
            0 <= j < chains.len() && descriptor_client(chains[j], k, r[p]) && !none_ok(
                chains[j].rpc@,
            ),
    decreases chains.len(),
{
    if chains.len() == 0 {
    } else if none_ok(chains[0].rpc@) {
        lemma_built_clients_from_chains(chains.drop_first(), k, r, p);
        let j = choose|j: int|
            0 <= j < chains.drop_first().len() && descriptor_client(
                chains.drop_first()[j],
                k,
                r[p],
            ) && !none_ok(chains.drop_first()[j].rpc@);
        assert(chains[j + 1] == chains.drop_first()[j]);
        assert(descriptor_client(chains[j + 1], k, r[p]) && !none_ok(chains[j + 1].rpc@));
    } else {
        if p == 0 {
            assert(descriptor_client(chains[0], k, r[0]) && !none_ok(chains[0].rpc@));
        } else {
            lemma_built_clients_from_chains(chains.drop_first(), k, r.drop_first(), p - 1);
            let j = choose|j: int|
                0 <= j < chains.drop_first().len() && descriptor_client(
                    chains.drop_first()[j],
                    k,
                    r.drop_first()[p - 1],
                ) && !none_ok(chains.drop_first()[j].rpc@);
            assert(chains[j + 1] == chains.drop_first()[j]);
            assert(r.drop_first()[p - 1] == r[p]);
            assert(descriptor_client(chains[j + 1], k, r[p]) && !none_ok(chains[j + 1].rpc@));
        }
    }
}

} // verus!
