use vstd::prelude::*;

use crate::address::ServerAddress;

verus! {

/// No two entries are about the same server.
pub open spec fn no_duplicate_keys(s: Seq<(ServerAddress, bool)>) -> bool {
    forall|i: int, j: int|
        0 <= i < s.len() && 0 <= j < s.len() && i != j ==> #[trigger] s[i].0 != #[trigger] s[j].0
}

/// The map that a list of (server, vote) entries describes; a later entry
/// for a server overrides an earlier one.
pub open spec fn entries_map(s: Seq<(ServerAddress, bool)>) -> Map<ServerAddress, bool>
    decreases s.len(),
{
    if s.len() == 0 {
        Map::empty()
    } else {
        entries_map(s.drop_last()).insert(s.last().0, s.last().1)
    }
}

/// The number of entries that hold a granted vote.
pub open spec fn count_granted(s: Seq<(ServerAddress, bool)>) -> nat
    decreases s.len(),
{
    if s.len() == 0 {
        0
    } else {
        count_granted(s.drop_last()) + if s.last().1 {
            1nat
        } else {
            0nat
        }
    }
}

/// The servers that granted their vote.
pub open spec fn granted_voters(m: Map<ServerAddress, bool>) -> Set<ServerAddress> {
    m.dom().filter(|p: ServerAddress| m[p])
}

/// The map of every server in `peers` to a vote not granted.
pub open spec fn all_not_granted(peers: Seq<ServerAddress>) -> Map<ServerAddress, bool> {
    Map::new(|p: ServerAddress| peers.contains(p), |p: ServerAddress| false)
}

proof fn lemma_entries_map_dom(s: Seq<(ServerAddress, bool)>)
    ensures
        entries_map(s).dom().finite(),
        forall|k: ServerAddress|
            #![trigger entries_map(s).dom().contains(k)]
            entries_map(s).dom().contains(k) <==> exists|i: int| 0 <= i < s.len() && s[i].0 == k,
    decreases s.len(),
{
    if s.len() > 0 {
        let t = s.drop_last();
        lemma_entries_map_dom(t);
        assert forall|k: ServerAddress|
            #![trigger entries_map(s).dom().contains(k)]
            entries_map(s).dom().contains(k) <==> exists|i: int| 0 <= i < s.len() && s[i].0 == k by {
            if entries_map(s).dom().contains(k) {
                if k == s.last().0 {
                    assert(s[s.len() - 1].0 == k);
                } else {
                    let i = choose|i: int| 0 <= i < t.len() && t[i].0 == k;
                    assert(s[i].0 == k);
                }
            }
            if exists|i: int| 0 <= i < s.len() && s[i].0 == k {
                let i = choose|i: int| 0 <= i < s.len() && s[i].0 == k;
                if i < s.len() - 1 {
                    assert(t[i].0 == k);
                }
            }
        }
    }
}

proof fn lemma_no_duplicate_keys_drop_last(s: Seq<(ServerAddress, bool)>)
    requires
        no_duplicate_keys(s),
        s.len() > 0,
    ensures
        no_duplicate_keys(s.drop_last()),
{
    let t = s.drop_last();
    assert forall|a: int, b: int|
        0 <= a < t.len() && 0 <= b < t.len() && a != b implies #[trigger] t[a].0
        != #[trigger] t[b].0 by {
        assert(t[a] == s[a] && t[b] == s[b]);
    }
}

proof fn lemma_entries_map_value(s: Seq<(ServerAddress, bool)>, i: int)
    requires
        no_duplicate_keys(s),
        0 <= i < s.len(),
    ensures
        entries_map(s).dom().contains(s[i].0),
        entries_map(s)[s[i].0] == s[i].1,
    decreases s.len(),
{
    if i < s.len() - 1 {
        let t = s.drop_last();
        assert(t[i] == s[i]);
        lemma_no_duplicate_keys_drop_last(s);
        lemma_entries_map_value(t, i);
        assert(s[s.len() - 1].0 != s[i].0);
    }
}

proof fn lemma_entries_map_update(s: Seq<(ServerAddress, bool)>, i: int, v: bool)
    requires
        no_duplicate_keys(s),
        0 <= i < s.len(),
    ensures
        no_duplicate_keys(s.update(i, (s[i].0, v))),
        entries_map(s.update(i, (s[i].0, v))) == entries_map(s).insert(s[i].0, v),
{
    let k = s[i].0;
    let t = s.update(i, (k, v));
    assert(no_duplicate_keys(t)) by {
        assert forall|a: int, b: int|
            0 <= a < t.len() && 0 <= b < t.len() && a != b implies #[trigger] t[a].0
            != #[trigger] t[b].0 by {
            assert(t[a].0 == s[a].0 && t[b].0 == s[b].0);
        }
    }
    lemma_entries_map_dom(s);
    lemma_entries_map_dom(t);
    let lhs = entries_map(t);
    let rhs = entries_map(s).insert(k, v);
    assert forall|p: ServerAddress| lhs.dom().contains(p) <==> rhs.dom().contains(p) by {
        if lhs.dom().contains(p) {
            let j = choose|j: int| 0 <= j < t.len() && t[j].0 == p;
            assert(s[j].0 == p);
        }
        if entries_map(s).dom().contains(p) {
            let j = choose|j: int| 0 <= j < s.len() && s[j].0 == p;
            assert(t[j].0 == p);
        }
        if p == k {
            assert(t[i].0 == p);
        }
    }
    assert forall|p: ServerAddress| lhs.dom().contains(p) implies lhs[p] == rhs[p] by {
        let j = choose|j: int| 0 <= j < t.len() && t[j].0 == p;
        lemma_entries_map_value(t, j);
        if j != i {
            lemma_entries_map_value(s, j);
        }
    }
    assert(lhs =~= rhs);
}

proof fn lemma_entries_map_push(s: Seq<(ServerAddress, bool)>, e: (ServerAddress, bool))
    ensures
        entries_map(s.push(e)) == entries_map(s).insert(e.0, e.1),
{
    assert(s.push(e).drop_last() =~= s);
}

proof fn lemma_count_granted(s: Seq<(ServerAddress, bool)>)
    requires
        no_duplicate_keys(s),
    ensures
        granted_voters(entries_map(s)).finite(),
        granted_voters(entries_map(s)).len() == count_granted(s),
    decreases s.len(),
{
    let m = entries_map(s);
    if s.len() == 0 {
        assert(granted_voters(m) =~= Set::<ServerAddress>::empty());
    } else {
        let t = s.drop_last();
        let (k, v) = s.last();
        lemma_no_duplicate_keys_drop_last(s);
        lemma_count_granted(t);
        lemma_entries_map_dom(t);
        let mt = entries_map(t);
        assert(!mt.dom().contains(k)) by {
            if mt.dom().contains(k) {
                let j = choose|j: int| 0 <= j < t.len() && t[j].0 == k;
                assert(s[j].0 == s[s.len() - 1].0);
            }
        }
        if v {
            assert(granted_voters(m) =~= granted_voters(mt).insert(k));
        } else {
            assert(granted_voters(m) =~= granted_voters(mt));
        }
    }
}

/// The votes a candidate has heard back in its current election: at most one
/// entry per server.
pub struct ElectionResults {
    entries: Vec<(ServerAddress, bool)>,
}

impl View for ElectionResults {
    type V = Map<ServerAddress, bool>;

    closed spec fn view(&self) -> Map<ServerAddress, bool> {
        entries_map(self.entries@)
    }
}

impl ElectionResults {
    #[verifier::type_invariant]
    closed spec fn one_entry_per_server(self) -> bool {
        no_duplicate_keys(self.entries@)
    }

    /// No votes heard.
    pub fn new() -> (r: ElectionResults)
        ensures
            r@ == Map::<ServerAddress, bool>::empty(),
    {
        ElectionResults { entries: Vec::new() }
    }

    /// Every server of `peers` (each once) with its vote not granted.
    pub fn for_peers(peers: &Vec<ServerAddress>) -> (r: ElectionResults)
        ensures
            r@ == all_not_granted(peers@),
    {
        let mut r = ElectionResults::new();
        for i in 0..peers.len()
            invariant
                r@ == all_not_granted(peers@.take(i as int)),
        {
            r.insert(peers[i], false);
            let ghost before = peers@.take(i as int);
            let ghost after = peers@.take(i + 1);
            assert(after =~= before.push(peers@[i as int]));
            assert forall|x: ServerAddress|
                #[trigger] after.contains(x) <==> (before.contains(x) || x
                    == peers@[i as int]) by {
                if after.contains(x) {
                    let j = choose|j: int| 0 <= j < i + 1 && after[j] == x;
                    if j < i {
                        assert(before[j] == x);
                    }
                }
                if before.contains(x) {
                    let j = choose|j: int| 0 <= j < i && before[j] == x;
                    assert(after[j] == x);
                }
                if x == peers@[i as int] {
                    assert(after[i as int] == x);
                }
            }
            assert(r@ =~= all_not_granted(peers@.take(i + 1)));
        }
        assert(peers@.take(peers@.len() as int) =~= peers@);
        r
    }

    /// Records the vote of `peer`, replacing an earlier one.
    pub fn insert(&mut self, peer: ServerAddress, granted: bool)
        ensures
            final(self)@ == old(self)@.insert(peer, granted),
    {
        proof {
            use_type_invariant(&*self);
        }
        let mut entries: Vec<(ServerAddress, bool)> = Vec::new();
        std::mem::swap(&mut entries, &mut self.entries);
        let n = entries.len();
        let mut i: usize = 0;
        while i < n
            invariant
                n == entries@.len(),
                entries@ == old(self).entries@,
                no_duplicate_keys(entries@),
                i <= n,
                forall|j: int| 0 <= j < i ==> #[trigger] entries@[j].0 != peer,
            ensures
                i < n ==> entries@[i as int].0 == peer,
            decreases n - i,
        {
            if entries[i].0 == peer {
                break;
            }
            i += 1;
        }
        if i < n {
            proof {
                lemma_entries_map_update(entries@, i as int, granted);
            }
            entries.set(i, (peer, granted));
        } else {
            proof {
                lemma_entries_map_push(entries@, (peer, granted));
                assert(no_duplicate_keys(entries@.push((peer, granted))));
            }
            entries.push((peer, granted));
        }
        self.entries = entries;
    }

    /// The recorded vote of `peer`, if there is one.
    pub fn get(&self, peer: ServerAddress) -> (r: Option<bool>)
        ensures
            r == (if self@.dom().contains(peer) {
                Some(self@[peer])
            } else {
                None
            }),
    {
        proof {
            use_type_invariant(self);
            lemma_entries_map_dom(self.entries@);
        }
        let n = self.entries.len();
        for i in 0..n
            invariant
                n == self.entries@.len(),
                no_duplicate_keys(self.entries@),
                forall|j: int| 0 <= j < i ==> #[trigger] self.entries@[j].0 != peer,
        {
            if self.entries[i].0 == peer {
                proof {
                    lemma_entries_map_value(self.entries@, i as int);
                }
                return Some(self.entries[i].1);
            }
        }
        None
    }

    /// The number of servers that granted their vote.
    pub fn granted_count(&self) -> (r: usize)
        ensures
            granted_voters(self@).finite(),
            r == granted_voters(self@).len(),
    {
        proof {
            use_type_invariant(self);
            lemma_count_granted(self.entries@);
        }
        let n = self.entries.len();
        let mut count: usize = 0;
        for i in 0..n
            invariant
                n == self.entries@.len(),
                count == count_granted(self.entries@.take(i as int)),
                count <= i,
        {
            assert(self.entries@.take(i + 1).drop_last() =~= self.entries@.take(i as int));
            if self.entries[i].1 {
                count += 1;
            }
        }
        assert(self.entries@.take(n as int) =~= self.entries@);
        count
    }
}

} // verus!
