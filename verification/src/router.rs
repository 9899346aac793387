use vstd::prelude::*;
use crate::address::Address;
use crate::route::addr_views;

verus! {

/// A worker's table entry: its primary address, every address bound to the
/// worker (the primary among them), and the identifier of the mailbox
/// sender used to deliver messages to it.
pub struct WorkerRecord {
    pub primary: Address,
    pub addresses: Vec<Address>,
    pub sender: u64,
}

impl Clone for WorkerRecord {
    fn clone(&self) -> (r: Self)
        ensures
            r.primary == self.primary,
            r.addresses@ == self.addresses@,
            r.sender == self.sender,
    {
        let mut addresses: Vec<Address> = Vec::new();
        let mut i: usize = 0;
        while i < self.addresses.len()
            invariant
                i <= self.addresses.len(),
                addresses@ == self.addresses@.subrange(0, i as int),
            decreases self.addresses.len() - i,
        {
            addresses.push(self.addresses[i].clone());
            proof {
                assert(addresses@ =~= self.addresses@.subrange(0, i + 1 as int));
            }
            i += 1;
        }
        proof {
            assert(self.addresses@.subrange(0, self.addresses@.len() as int) =~= self.addresses@);
        }
        WorkerRecord { primary: self.primary.clone(), addresses, sender: self.sender }
    }
}

/// One entry of the alias table: a bound address, mapped to the primary
/// address of the worker that owns it.
pub struct AliasEntry {
    pub alias: Address,
    pub primary: Address,
}

/// The router's reply to a control command, delivered on the issuing
/// caller's private reply channel.
pub enum NodeReply {
    Okay,
    NoSuchAddress(Address),
    AlreadyRegistered(Address),
    ShutDown,
}

/// Whether the sequence of addresses holds one whose name is `a`.
pub open spec fn addrs_have(s: Seq<Address>, a: Seq<char>) -> bool {
    exists|i: int| 0 <= i < s.len() && s[i]@ == a
}

/// Whether the alias table holds an entry keyed by `a`.
pub open spec fn amap_has(m: Seq<AliasEntry>, a: Seq<char>) -> bool {
    exists|i: int| 0 <= i < m.len() && m[i].alias@ == a
}

pub open spec fn amap_idx(m: Seq<AliasEntry>, a: Seq<char>) -> int {
    choose|i: int| 0 <= i < m.len() && m[i].alias@ == a
}

/// The primary name the alias table maps `a` to.
pub open spec fn amap_get(m: Seq<AliasEntry>, a: Seq<char>) -> Seq<char> {
    m[amap_idx(m, a)].primary@
}

/// Whether the record table holds a record whose primary name is `p`.
pub open spec fn recs_have(rs: Seq<WorkerRecord>, p: Seq<char>) -> bool {
    exists|i: int| 0 <= i < rs.len() && rs[i].primary@ == p
}

pub open spec fn rec_idx(rs: Seq<WorkerRecord>, p: Seq<char>) -> int {
    choose|i: int| 0 <= i < rs.len() && rs[i].primary@ == p
}

/// No two alias entries share a key.
pub open spec fn amap_keyed(m: Seq<AliasEntry>) -> bool {
    forall|i: int, j: int| 0 <= i < j < m.len() ==> m[i].alias@ != m[j].alias@
}

/// No two records share a primary.
pub open spec fn recs_keyed(rs: Seq<WorkerRecord>) -> bool {
    forall|i: int, j: int| 0 <= i < j < rs.len() ==> rs[i].primary@ != rs[j].primary@
}

/// The alias entry at `i` points at a live record that owns the alias.
pub open spec fn alias_linked(r: Router, i: int) -> bool {
    exists|j: int|
        0 <= j < r.internal@.len() && #[trigger] r.internal@[j].primary@
            == r.addr_map@[i].primary@ && addrs_have(
            r.internal@[j].addresses@,
            r.addr_map@[i].alias@,
        )
}

/// The record at `j` owns its primary, and each of its addresses is bound
/// to its primary in the alias table.
pub open spec fn record_linked(r: Router, j: int) -> bool {
    addrs_have(r.internal@[j].addresses@, r.internal@[j].primary@) && (forall|k: int|
        #![trigger r.internal@[j].addresses@[k]]
        0 <= k < r.internal@[j].addresses@.len() ==> {
            amap_has(r.addr_map@, r.internal@[j].addresses@[k]@) && amap_get(
                r.addr_map@,
                r.internal@[j].addresses@[k]@,
            ) == r.internal@[j].primary@
        })
}

/// The sole authority over the address table. All registration, lookup and
/// removal is serialized through its command operations; no caller ever
/// holds a reference into the table, so the table's invariants are enforced
/// by this command set alone.
pub struct Router {
    /// alias table: every bound address, mapped to its worker's primary.
    pub addr_map: Vec<AliasEntry>,
    /// record table: one record per live worker, keyed by primary address.
    pub internal: Vec<WorkerRecord>,
    /// Cleared by `shutdown`; afterwards every command is refused.
    pub running: bool,
}

impl Router {
    /// Both tables have distinct keys.
    pub open spec fn keyed(self) -> bool {
        amap_keyed(self.addr_map@) && recs_keyed(self.internal@)
    }

    pub open spec fn wf(self) -> bool {
        self.keyed() && self.linked()
    }

    /// The two tables agree: every alias entry points at a live record that
    /// owns the alias, and every address of every record is in the alias
    /// table, keyed to that record's primary; a record's address set holds
    /// its own primary. Together with `keyed` this is the table invariant:
    /// no alias without its primary record, and no address owned by two
    /// workers.
    pub open spec fn linked(self) -> bool {
        (forall|i: int|
            0 <= i < self.addr_map@.len() ==> #[trigger] alias_linked(self, i)) && (forall|j: int|
            0 <= j < self.internal@.len() ==> #[trigger] record_linked(self, j))
    }

    /// Whether `a` is bound in the table.
    pub open spec fn contains_address(self, a: Seq<char>) -> bool {
        amap_has(self.addr_map@, a)
    }

    pub fn new() -> (r: Router)
        ensures
            r.wf(),
            r.running,
            r.addr_map@.len() == 0,
            r.internal@.len() == 0,
    {
        Router { addr_map: Vec::new(), internal: Vec::new(), running: true }
    }
}

/// Find the alias-table index of `a`, scanning from the front.
fn find_alias(m: &Vec<AliasEntry>, a: &Address) -> (r: Option<usize>)
    ensures
        match r {
            Some(i) => i < m@.len() && m@[i as int].alias@ == a@,
            None => !amap_has(m@, a@),
        },
{
    let mut i: usize = 0;
    while i < m.len()
        invariant
            i <= m@.len(),
            forall|k: int| 0 <= k < i ==> m@[k].alias@ != a@,
        decreases m@.len() - i,
    {
        if m[i].alias == *a {
            return Some(i);
        }
        i += 1;
    }
    None
}

/// Find the record-table index of the record whose primary is `p`.
fn find_record(rs: &Vec<WorkerRecord>, p: &Address) -> (r: Option<usize>)
    ensures
        match r {
            Some(i) => i < rs@.len() && rs@[i as int].primary@ == p@,
            None => !recs_have(rs@, p@),
        },
{
    let mut i: usize = 0;
    while i < rs.len()
        invariant
            i <= rs@.len(),
            forall|k: int| 0 <= k < i ==> rs@[k].primary@ != p@,
        decreases rs@.len() - i,
    {
        if rs[i].primary == *p {
            return Some(i);
        }
        i += 1;
    }
    None
}

/// Whether `all` holds an address whose name is `a@`.
fn contains_addr(all: &Vec<Address>, a: &Address) -> (r: bool)
    ensures
        r == addrs_have(all@, a@),
{
    let mut i: usize = 0;
    while i < all.len()
        invariant
            i <= all@.len(),
            forall|k: int| 0 <= k < i ==> all@[k]@ != a@,
        decreases all@.len() - i,
    {
        if all[i] == *a {
            return true;
        }
        i += 1;
    }
    false
}

/// With distinct keys, the entry found at `i` is the entry the table maps
/// `a` to.
pub proof fn lemma_amap_get_at(m: Seq<AliasEntry>, a: Seq<char>, i: int)
    requires
        amap_keyed(m),
        0 <= i < m.len(),
        m[i].alias@ == a,
    ensures
        amap_has(m, a),
        amap_idx(m, a) == i,
        amap_get(m, a) == m[i].primary@,
{
    assert(amap_has(m, a));
    let j = amap_idx(m, a);
    assert(0 <= j < m.len() && m[j].alias@ == a);
    if i < j {
        assert(m[i].alias@ != m[j].alias@);
    } else if j < i {
        assert(m[j].alias@ != m[i].alias@);
    }
}

/// With distinct primaries, the record found at `i` is the record for `p`.
pub proof fn lemma_rec_at(rs: Seq<WorkerRecord>, p: Seq<char>, i: int)
    requires
        recs_keyed(rs),
        0 <= i < rs.len(),
        rs[i].primary@ == p,
    ensures
        recs_have(rs, p),
        rec_idx(rs, p) == i,
{
    assert(recs_have(rs, p));
    let j = rec_idx(rs, p);
    assert(0 <= j < rs.len() && rs[j].primary@ == p);
    if i < j {
        assert(rs[i].primary@ != rs[j].primary@);
    } else if j < i {
        assert(rs[j].primary@ != rs[i].primary@);
    }
}

/// Membership in an address list after a push.
pub proof fn lemma_addrs_have_push(s: Seq<Address>, x: Address)
    ensures
        forall|a: Seq<char>| #[trigger] addrs_have(s.push(x), a) <==> (addrs_have(s, a) || x@
            == a),
{
    assert forall|a: Seq<char>| #[trigger] addrs_have(s.push(x), a) implies (addrs_have(s, a)
        || x@ == a) by {
        let i = choose|i: int| 0 <= i < s.push(x).len() && s.push(x)[i]@ == a;
        if i < s.len() {
            assert(s[i]@ == a);
        } else {
            assert(s.push(x)[s.len() as int] == x);
        }
    };
    assert forall|a: Seq<char>| (addrs_have(s, a) || x@ == a) implies #[trigger] addrs_have(
        s.push(x),
        a,
    ) by {
        if addrs_have(s, a) {
            let i = choose|i: int| 0 <= i < s.len() && s[i]@ == a;
            assert(s.push(x)[i]@ == a);
        } else {
            assert(s.push(x)[s.len() as int]@ == a);
        }
    };
}

/// Membership in the alias table after a push.
pub proof fn lemma_amap_has_push(m: Seq<AliasEntry>, e: AliasEntry)
    ensures
        forall|a: Seq<char>| #[trigger] amap_has(m.push(e), a) <==> (amap_has(m, a) || e.alias@
            == a),
{
    assert forall|a: Seq<char>| #[trigger] amap_has(m.push(e), a) implies (amap_has(m, a)
        || e.alias@ == a) by {
        let i = choose|i: int| 0 <= i < m.push(e).len() && m.push(e)[i].alias@ == a;
        if i < m.len() {
            assert(m[i].alias@ == a);
        } else {
            assert(m.push(e)[m.len() as int] == e);
        }
    };
    assert forall|a: Seq<char>| (amap_has(m, a) || e.alias@ == a) implies #[trigger] amap_has(
        m.push(e),
        a,
    ) by {
        if amap_has(m, a) {
            let i = choose|i: int| 0 <= i < m.len() && m[i].alias@ == a;
            assert(m.push(e)[i].alias@ == a);
        } else {
            assert(m.push(e)[m.len() as int].alias@ == a);
        }
    };
}

/// Removing one entry from a keyed alias table removes exactly its key and
/// keeps every other key bound to the same primary.
pub proof fn lemma_amap_remove(m: Seq<AliasEntry>, i: int)
    requires
        amap_keyed(m),
        0 <= i < m.len(),
    ensures
        amap_keyed(m.remove(i)),
        forall|a: Seq<char>| #[trigger] amap_has(m.remove(i), a) <==> (amap_has(m, a) && a
            != m[i].alias@),
        forall|a: Seq<char>| #[trigger] amap_has(m.remove(i), a) ==> amap_get(m.remove(i), a)
            == amap_get(m, a),
{
    let m2 = m.remove(i);
    assert forall|p: int, q: int| 0 <= p < q < m2.len() implies m2[p].alias@ != m2[q].alias@ by {
        let p0 = if p < i { p } else { p + 1 };
        let q0 = if q < i { q } else { q + 1 };
        assert(m2[p] == m[p0] && m2[q] == m[q0]);
    };
    assert forall|a: Seq<char>| #[trigger] amap_has(m2, a) implies (amap_has(m, a) && a
        != m[i].alias@) by {
        let j = choose|j: int| 0 <= j < m2.len() && m2[j].alias@ == a;
        let j0 = if j < i { j } else { j + 1 };
        assert(m2[j] == m[j0]);
        assert(m[j0].alias@ == a);
        assert(j0 != i);
        if j0 < i {
            assert(m[j0].alias@ != m[i].alias@);
        } else {
            assert(m[i].alias@ != m[j0].alias@);
        }
    };
    assert forall|a: Seq<char>| (amap_has(m, a) && a != m[i].alias@) implies #[trigger] amap_has(
        m2,
        a,
    ) by {
        let j = choose|j: int| 0 <= j < m.len() && m[j].alias@ == a;
        if j < i {
            assert(m2[j] == m[j]);
            assert(m2[j].alias@ == a);
        } else {
            assert(j != i);
            assert(m2[j - 1] == m[j]);
            assert(m2[j - 1].alias@ == a);
        }
    };
    assert forall|a: Seq<char>| #[trigger] amap_has(m2, a) implies amap_get(m2, a) == amap_get(
        m,
        a,
    ) by {
        let j = choose|j: int| 0 <= j < m2.len() && m2[j].alias@ == a;
        let j0 = if j < i { j } else { j + 1 };
        assert(m2[j] == m[j0]);
        lemma_amap_get_at(m2, a, j);
        lemma_amap_get_at(m, a, j0);
    };
}

/// Removing one record from a keyed record table removes exactly its
/// primary.
pub proof fn lemma_recs_remove(rs: Seq<WorkerRecord>, i: int)
    requires
        recs_keyed(rs),
        0 <= i < rs.len(),
    ensures
        recs_keyed(rs.remove(i)),
        forall|p: Seq<char>| #[trigger] recs_have(rs.remove(i), p) <==> (recs_have(rs, p) && p
            != rs[i].primary@),
{
    let rs2 = rs.remove(i);
    assert forall|p: int, q: int| 0 <= p < q < rs2.len() implies rs2[p].primary@
        != rs2[q].primary@ by {
        let p0 = if p < i { p } else { p + 1 };
        let q0 = if q < i { q } else { q + 1 };
        assert(rs2[p] == rs[p0] && rs2[q] == rs[q0]);
    };
    assert forall|p: Seq<char>| #[trigger] recs_have(rs2, p) implies (recs_have(rs, p) && p
        != rs[i].primary@) by {
        let j = choose|j: int| 0 <= j < rs2.len() && rs2[j].primary@ == p;
        let j0 = if j < i { j } else { j + 1 };
        assert(rs2[j] == rs[j0]);
        assert(rs[j0].primary@ == p);
        if j0 < i {
            assert(rs[j0].primary@ != rs[i].primary@);
        } else {
            assert(rs[i].primary@ != rs[j0].primary@);
        }
    };
    assert forall|p: Seq<char>| (recs_have(rs, p) && p != rs[i].primary@) implies
        #[trigger] recs_have(rs2, p) by {
        let j = choose|j: int| 0 <= j < rs.len() && rs[j].primary@ == p;
        if j < i {
            assert(rs2[j] == rs[j]);
            assert(rs2[j].primary@ == p);
        } else {
            assert(j != i);
            assert(rs2[j - 1] == rs[j]);
            assert(rs2[j - 1].primary@ == p);
        }
    };
}

impl Router {
    /// A registration conflicts when its primary or any alias is already
    /// present in either mapping.
    pub open spec fn register_conflict(self, primary: Seq<char>, aliases: Seq<Seq<char>>) -> bool {
        self.contains_address(primary) || recs_have(self.internal@, primary) || exists|i: int|
            0 <= i < aliases.len() && (self.contains_address(#[trigger] aliases[i]) || recs_have(
                self.internal@,
                aliases[i],
            ))
    }
}

/// What a successful registration does to the table: one new record whose
/// address set is the primary together with the aliases, every one of those
/// addresses newly bound to the primary, and everything else untouched.
pub open spec fn register_effect(
    pre: Router,
    post: Router,
    primary: Seq<char>,
    aliases: Seq<Seq<char>>,
    sender: u64,
) -> bool {
    &&& post.keyed()
    &&& post.running == pre.running
    &&& post.internal@.len() == pre.internal@.len() + 1
    &&& post.internal@.subrange(0, pre.internal@.len() as int) == pre.internal@
    &&& post.internal@.last().primary@ == primary
    &&& post.internal@.last().sender == sender
    &&& (forall|a: Seq<char>| #[trigger]
        addrs_have(post.internal@.last().addresses@, a) <==> (a == primary || aliases.contains(
            a,
        )))
    &&& (forall|a: Seq<char>| #[trigger]
        post.contains_address(a) <==> (pre.contains_address(a) || a == primary
            || aliases.contains(a)))
    &&& (forall|a: Seq<char>| #[trigger]
        pre.contains_address(a) ==> amap_get(post.addr_map@, a) == amap_get(pre.addr_map@, a))
    &&& (forall|a: Seq<char>|
        (!pre.contains_address(a) && (a == primary || aliases.contains(a))) ==> #[trigger] amap_get(
            post.addr_map@,
            a,
        ) == primary)
}

impl Router {
    /// Register a worker under `primary`, binding every alias to it. Fails
    /// with `AlreadyRegistered` when the primary or any alias is already
    /// present in either mapping, leaving the table untouched; on success
    /// the record and all its alias entries are inserted as one step.
    pub fn register(&mut self, primary: Address, aliases: Vec<Address>, sender: u64) -> (r:
        NodeReply)
        requires
            old(self).keyed(),
        ensures
            final(self).keyed(),
            !old(self).running ==> r == NodeReply::ShutDown && *final(self) == *old(self),
            (old(self).running && old(self).register_conflict(primary@, addr_views(aliases@)))
                ==> (r matches NodeReply::AlreadyRegistered(x) && (x@ == primary@ || addr_views(
                aliases@,
            ).contains(x@)) && (old(self).contains_address(x@) || recs_have(
                old(self).internal@,
                x@,
            )) && *final(self) == *old(self)),
            (old(self).running && !old(self).register_conflict(primary@, addr_views(aliases@)))
                ==> (r == NodeReply::Okay && register_effect(
                *old(self),
                *final(self),
                primary@,
                addr_views(aliases@),
                sender,
            )),
            old(self).wf() ==> final(self).wf(),
    {
        if !self.running {
            return NodeReply::ShutDown;
        }
        let ghost avs = addr_views(aliases@);
        // Collect the distinct addresses of the worker: the primary first,
        // then each alias not yet seen.
        let mut all: Vec<Address> = Vec::new();
        all.push(primary.clone());
        proof {
            assert(avs.subrange(0, 0) =~= Seq::<Seq<char>>::empty());
            assert forall|a: Seq<char>| #[trigger]
                addrs_have(all@, a) implies (a == primary@ || avs.subrange(0, 0).contains(
                a,
            )) by {
                let i = choose|i: int| 0 <= i < all@.len() && all@[i]@ == a;
                assert(i == 0);
            };
            assert forall|a: Seq<char>| a == primary@ implies #[trigger] addrs_have(all@, a) by {
                assert(all@[0]@ == a);
            };
        }
        let mut k: usize = 0;
        while k < aliases.len()
            invariant
                k <= aliases@.len(),
                avs == addr_views(aliases@),
                all@.len() >= 1,
                all@[0]@ == primary@,
                forall|a: Seq<char>| #[trigger]
                    addrs_have(all@, a) <==> (a == primary@ || avs.subrange(0, k as int).contains(
                        a,
                    )),
                forall|i: int, j: int| 0 <= i < j < all@.len() ==> all@[i]@ != all@[j]@,
            decreases aliases@.len() - k,
        {
            let ghost pre_all = all@;
            assert(avs[k as int] == aliases@[k as int]@);
            if !contains_addr(&all, &aliases[k]) {
                all.push(aliases[k].clone());
                proof {
                    lemma_addrs_have_push(pre_all, all@.last());
                }
            }
            proof {
                assert forall|a: Seq<char>| #[trigger]
                    addrs_have(all@, a) <==> (a == primary@ || avs.subrange(
                    0,
                    k + 1 as int,
                ).contains(a)) by {
                    assert(avs.subrange(0, k + 1 as int) == avs.subrange(0, k as int).push(
                        avs[k as int],
                    ));
                    if avs.subrange(0, k + 1 as int).contains(a) {
                        let t = choose|t: int|
                            0 <= t < k + 1 && #[trigger] avs.subrange(0, k + 1 as int)[t] == a;
                        if t < k {
                            assert(avs.subrange(0, k as int)[t] == a);
                        }
                    }
                    if avs.subrange(0, k as int).contains(a) {
                        let t = choose|t: int| 0 <= t < k && avs.subrange(0, k as int)[t] == a;
                        assert(avs.subrange(0, k + 1 as int)[t] == a);
                    }
                    if a == avs[k as int] {
                        assert(avs.subrange(0, k + 1 as int)[k as int] == a);
                    }
                };
            }
            k += 1;
        }
        proof {
            assert(avs.subrange(0, avs.len() as int) =~= avs);
        }
        // Refuse the whole registration if any of the addresses is bound.
        let mut c: usize = 0;
        while c < all.len()
            invariant
                c <= all@.len(),
                forall|t: int|
                    0 <= t < c ==> !amap_has(self.addr_map@, #[trigger] all@[t]@) && !recs_have(
                        self.internal@,
                        all@[t]@,
                    ),
            decreases all@.len() - c,
        {
            let in_amap = find_alias(&self.addr_map, &all[c]).is_some();
            let in_recs = find_record(&self.internal, &all[c]).is_some();
            if in_amap || in_recs {
                proof {
                    assert(addrs_have(all@, all@[c as int]@));
                }
                return NodeReply::AlreadyRegistered(all[c].clone());
            }
            c += 1;
        }
        proof {
            assert(!self.register_conflict(primary@, avs)) by {
                assert(addrs_have(all@, primary@));
                assert forall|i: int| 0 <= i < avs.len() implies !self.contains_address(
                    #[trigger] avs[i],
                ) && !recs_have(self.internal@, avs[i]) by {
                    assert(avs.contains(avs[i]));
                    assert(addrs_have(all@, avs[i]));
                    let t = choose|t: int| 0 <= t < all@.len() && all@[t]@ == avs[i];
                };
            };
        }
        let ghost pre = *self;
        // Insert one alias entry per address, then the record: no command
        // can observe the table between these edits.
        let mut idx: usize = 0;
        while idx < all.len()
            invariant
                idx <= all@.len(),
                self.internal == pre.internal,
                self.running == pre.running,
                pre.keyed(),
                all@.len() >= 1,
                all@[0]@ == primary@,
                forall|i: int, j: int| 0 <= i < j < all@.len() ==> all@[i]@ != all@[j]@,
                forall|t: int|
                    0 <= t < all@.len() ==> !amap_has(pre.addr_map@, #[trigger] all@[t]@),
                self.addr_map@.len() == pre.addr_map@.len() + idx,
                self.addr_map@.subrange(0, pre.addr_map@.len() as int) == pre.addr_map@,
                forall|t: int|
                    0 <= t < idx ==> (#[trigger] self.addr_map@[pre.addr_map@.len() + t].alias@
                        == all@[t]@ && self.addr_map@[pre.addr_map@.len() + t].primary@
                        == primary@),
                amap_keyed(self.addr_map@),
                forall|a: Seq<char>| #[trigger]
                    amap_has(self.addr_map@, a) <==> (amap_has(pre.addr_map@, a) || addrs_have(
                        all@.subrange(0, idx as int),
                        a,
                    )),
                forall|a: Seq<char>| #[trigger]
                    amap_has(pre.addr_map@, a) ==> amap_get(self.addr_map@, a) == amap_get(
                        pre.addr_map@,
                        a,
                    ),
            decreases all@.len() - idx,
        {
            let ghost m0 = self.addr_map@;
            let entry = AliasEntry { alias: all[idx].clone(), primary: primary.clone() };
            proof {
                // the new key is fresh: not in the old table, not among the
                // entries already inserted
                assert(!amap_has(m0, all@[idx as int]@)) by {
                    assert(!amap_has(pre.addr_map@, all@[idx as int]@));
                    assert(!addrs_have(all@.subrange(0, idx as int), all@[idx as int]@)) by {
                        if addrs_have(all@.subrange(0, idx as int), all@[idx as int]@) {
                            let t = choose|t: int|
                                0 <= t < idx && all@.subrange(0, idx as int)[t]@
                                    == all@[idx as int]@;
                            assert(all@[t]@ == all@[idx as int]@);
                        }
                    };
                };
            }
            self.addr_map.push(entry);
            proof {
                lemma_amap_has_push(m0, self.addr_map@.last());
                assert(self.addr_map@.subrange(0, pre.addr_map@.len() as int) =~= pre.addr_map@);
                assert forall|p: int, q: int|
                    0 <= p < q < self.addr_map@.len() implies self.addr_map@[p].alias@
                    != self.addr_map@[q].alias@ by {
                    if q < self.addr_map@.len() - 1 {
                        assert(m0[p].alias@ != m0[q].alias@);
                    } else {
                        assert(self.addr_map@[q].alias@ == all@[idx as int]@);
                        assert(!amap_has(m0, all@[idx as int]@));
                        assert(self.addr_map@[p] == m0[p]);
                    }
                };
                assert forall|a: Seq<char>| #[trigger]
                    amap_has(pre.addr_map@, a) implies amap_get(self.addr_map@, a) == amap_get(
                    pre.addr_map@,
                    a,
                ) by {
                    let j = choose|j: int|
                        0 <= j < pre.addr_map@.len() && pre.addr_map@[j].alias@ == a;
                    assert(self.addr_map@[j] == pre.addr_map@[j]);
                    lemma_amap_get_at(self.addr_map@, a, j);
                    lemma_amap_get_at(pre.addr_map@, a, j);
                };
                assert forall|a: Seq<char>| #[trigger]
                    amap_has(self.addr_map@, a) <==> (amap_has(pre.addr_map@, a) || addrs_have(
                    all@.subrange(0, idx + 1 as int),
                    a,
                )) by {
                    assert(all@.subrange(0, idx + 1 as int) == all@.subrange(0, idx as int).push(
                        all@[idx as int],
                    ));
                    lemma_addrs_have_push(all@.subrange(0, idx as int), all@[idx as int]);
                };
            }
            idx += 1;
        }
        proof {
            assert(all@.subrange(0, all@.len() as int) =~= all@);
        }
        let ghost rec_addrs = all@;
        let rec = WorkerRecord { primary, addresses: all, sender };
        let ghost recs0 = self.internal@;
        self.internal.push(rec);
        proof {
            assert(self.internal@.subrange(0, recs0.len() as int) =~= recs0);
            assert(self.internal@.last().addresses@ == rec_addrs);
            // distinct primaries: the new primary is fresh
            assert forall|p: int, q: int|
                0 <= p < q < self.internal@.len() implies self.internal@[p].primary@
                != self.internal@[q].primary@ by {
                if q < self.internal@.len() - 1 {
                    assert(recs0[p].primary@ != recs0[q].primary@);
                } else {
                    assert(self.internal@[q].primary@ == primary@);
                    assert(!recs_have(recs0, primary@)) by {
                        assert(addrs_have(rec_addrs, primary@));
                    };
                    assert(self.internal@[p] == recs0[p]);
                }
            };
            // the new record's address set is the primary plus the aliases
            assert forall|a: Seq<char>| #[trigger]
                addrs_have(self.internal@.last().addresses@, a) <==> (a == primary@
                || avs.contains(a)) by {};
            // the membership characterization over the whole table
            assert forall|a: Seq<char>| #[trigger]
                self.contains_address(a) <==> (pre.contains_address(a) || a == primary@
                || avs.contains(a)) by {
                assert(amap_has(self.addr_map@, a) <==> (amap_has(pre.addr_map@, a) || addrs_have(
                    rec_addrs,
                    a,
                )));
            };
            assert forall|a: Seq<char>|
                (!pre.contains_address(a) && (a == primary@ || avs.contains(a))) implies
                #[trigger] amap_get(self.addr_map@, a) == primary@ by {
                assert(addrs_have(rec_addrs, a));
                let t = choose|t: int| 0 <= t < rec_addrs.len() && rec_addrs[t]@ == a;
                assert(self.addr_map@[pre.addr_map@.len() + t].alias@ == a);
                assert(self.addr_map@[pre.addr_map@.len() + t].primary@ == primary@);
                lemma_amap_get_at(self.addr_map@, a, pre.addr_map@.len() + t);
            };
            assert(register_effect(pre, *self, primary@, avs, sender));
            if pre.wf() {
                lemma_register_linked(pre, *self, primary@, avs, sender);
            }
        }
        NodeReply::Okay
    }
}

/// A successful registration on a well-formed table leaves the two tables
/// in agreement.
pub proof fn lemma_register_linked(
    pre: Router,
    post: Router,
    primary: Seq<char>,
    aliases: Seq<Seq<char>>,
    sender: u64,
)
    requires
        pre.wf(),
        !pre.register_conflict(primary, aliases),
        register_effect(pre, post, primary, aliases, sender),
    ensures
        post.wf(),
{
    let pn = pre.internal@.len() as int;
    let rec = post.internal@.last();
    assert forall|i: int| 0 <= i < post.addr_map@.len() implies #[trigger] alias_linked(
        post,
        i,
    ) by {
        let e = post.addr_map@[i];
        assert(amap_has(post.addr_map@, e.alias@));
        lemma_amap_get_at(post.addr_map@, e.alias@, i);
        assert(post.contains_address(e.alias@));
        if pre.contains_address(e.alias@) {
            assert(amap_get(post.addr_map@, e.alias@) == amap_get(pre.addr_map@, e.alias@));
            let i0 = amap_idx(pre.addr_map@, e.alias@);
            assert(0 <= i0 < pre.addr_map@.len() && pre.addr_map@[i0].alias@ == e.alias@);
            assert(alias_linked(pre, i0));
            let j0 = choose|j: int|
                0 <= j < pre.internal@.len() && #[trigger] pre.internal@[j].primary@
                    == pre.addr_map@[i0].primary@ && addrs_have(
                    pre.internal@[j].addresses@,
                    pre.addr_map@[i0].alias@,
                );
            assert(post.internal@.subrange(0, pn)[j0] == pre.internal@[j0]);
            assert(post.internal@[j0] == pre.internal@[j0]);
            assert(post.internal@[j0].primary@ == e.primary@);
        } else {
            assert(e.alias@ == primary || aliases.contains(e.alias@));
            assert(amap_get(post.addr_map@, e.alias@) == primary);
            assert(e.primary@ == primary);
            assert(addrs_have(rec.addresses@, e.alias@));
            assert(post.internal@[post.internal@.len() - 1] == rec);
        }
    };
    assert forall|j: int| 0 <= j < post.internal@.len() implies #[trigger] record_linked(
        post,
        j,
    ) by {
        if j < pn {
            assert(post.internal@.subrange(0, pn)[j] == pre.internal@[j]);
            let r = pre.internal@[j];
            assert(post.internal@[j] == r);
            assert(record_linked(pre, j));
            assert(addrs_have(r.addresses@, r.primary@));
            assert forall|k: int| #![trigger r.addresses@[k]]
                0 <= k < r.addresses@.len() implies {
                amap_has(post.addr_map@, r.addresses@[k]@) && amap_get(
                    post.addr_map@,
                    r.addresses@[k]@,
                ) == r.primary@
            } by {
                assert(amap_has(pre.addr_map@, r.addresses@[k]@));
                assert(pre.contains_address(r.addresses@[k]@));
                assert(post.contains_address(r.addresses@[k]@));
            };
        } else {
            assert(post.internal@[j] == rec);
            assert(addrs_have(rec.addresses@, rec.primary@));
            assert forall|k: int| #![trigger rec.addresses@[k]]
                0 <= k < rec.addresses@.len() implies {
                amap_has(post.addr_map@, rec.addresses@[k]@) && amap_get(
                    post.addr_map@,
                    rec.addresses@[k]@,
                ) == rec.primary@
            } by {
                let b = rec.addresses@[k]@;
                assert(addrs_have(rec.addresses@, b));
                assert(b == primary || aliases.contains(b));
                assert(!pre.contains_address(b)) by {
                    if aliases.contains(b) {
                        let t = choose|t: int| 0 <= t < aliases.len() && aliases[t] == b;
                    }
                };
                assert(post.contains_address(b));
                assert(amap_get(post.addr_map@, b) == primary);
            };
        }
    };
}

/// What stopping the worker bound to `a` does to the table: its record is
/// gone, exactly its addresses are unbound, and every surviving address is
/// still bound to the same primary.
pub open spec fn stop_effect(pre: Router, post: Router, a: Seq<char>) -> bool {
    let p = amap_get(pre.addr_map@, a);
    let j = rec_idx(pre.internal@, p);
    let rec = pre.internal@[j];
    &&& post.keyed()
    &&& post.running == pre.running
    &&& post.internal@ == pre.internal@.remove(j)
    &&& (forall|b: Seq<char>| #[trigger]
        post.contains_address(b) <==> (pre.contains_address(b) && !addrs_have(rec.addresses@, b)))
    &&& (forall|b: Seq<char>| #[trigger]
        post.contains_address(b) ==> amap_get(post.addr_map@, b) == amap_get(pre.addr_map@, b))
}

impl Router {
    /// Stop the worker bound to `addr`: resolve it to its primary through
    /// the alias table, remove the worker's record, then unbind every one
    /// of its addresses, all as one logical step. Replies `NoSuchAddress`
    /// without touching the table when `addr` is not bound — also in the
    /// degraded case where the alias is bound but its record is missing,
    /// which signals an internal inconsistency and must not bring the
    /// router down.
    pub fn stop_worker(&mut self, addr: &Address) -> (r: NodeReply)
        requires
            old(self).keyed(),
        ensures
            final(self).keyed(),
            !old(self).running ==> r == NodeReply::ShutDown && *final(self) == *old(self),
            (old(self).running && !old(self).contains_address(addr@)) ==> (r
                matches NodeReply::NoSuchAddress(x) && x@ == addr@ && *final(self) == *old(
                self,
            )),
            (old(self).running && old(self).contains_address(addr@) && !recs_have(
                old(self).internal@,
                amap_get(old(self).addr_map@, addr@),
            )) ==> (r matches NodeReply::NoSuchAddress(x) && x@ == addr@ && *final(self) == *old(
                self,
            )),
            (old(self).running && old(self).contains_address(addr@) && recs_have(
                old(self).internal@,
                amap_get(old(self).addr_map@, addr@),
            )) ==> (r == NodeReply::Okay && stop_effect(*old(self), *final(self), addr@)),
            old(self).wf() ==> final(self).wf(),
    {
        if !self.running {
            return NodeReply::ShutDown;
        }
        let i = match find_alias(&self.addr_map, addr) {
            Some(i) => i,
            None => {
                return NodeReply::NoSuchAddress(addr.clone());
            },
        };
        proof {
            lemma_amap_get_at(self.addr_map@, addr@, i as int);
        }
        let primary = self.addr_map[i].primary.clone();
        let j = match find_record(&self.internal, &primary) {
            Some(j) => j,
            None => {
                return NodeReply::NoSuchAddress(addr.clone());
            },
        };
        proof {
            lemma_rec_at(self.internal@, primary@, j as int);
        }
        let ghost pre = *self;
        let rec = self.internal.remove(j);
        proof {
            lemma_recs_remove(pre.internal@, j as int);
        }
        let ghost rvs = rec.addresses@;
        let mut k: usize = 0;
        while k < rec.addresses.len()
            invariant
                k <= rvs.len(),
                rec.addresses@ == rvs,
                self.internal@ == pre.internal@.remove(j as int),
                self.running == pre.running,
                amap_keyed(self.addr_map@),
                forall|b: Seq<char>| #[trigger]
                    amap_has(self.addr_map@, b) <==> (amap_has(pre.addr_map@, b) && !addrs_have(
                        rvs.subrange(0, k as int),
                        b,
                    )),
                forall|b: Seq<char>| #[trigger]
                    amap_has(self.addr_map@, b) ==> amap_get(self.addr_map@, b) == amap_get(
                        pre.addr_map@,
                        b,
                    ),
            decreases rvs.len() - k,
        {
            let ghost m0 = self.addr_map@;
            match find_alias(&self.addr_map, &rec.addresses[k]) {
                Some(i2) => {
                    proof {
                        lemma_amap_remove(m0, i2 as int);
                    }
                    self.addr_map.remove(i2);
                },
                None => {},
            }
            proof {
                assert(rvs.subrange(0, k + 1 as int) == rvs.subrange(0, k as int).push(
                    rvs[k as int],
                ));
                lemma_addrs_have_push(rvs.subrange(0, k as int), rvs[k as int]);
            }
            k += 1;
        }
        proof {
            assert(rvs.subrange(0, rvs.len() as int) =~= rvs);
            assert(stop_effect(pre, *self, addr@));
            if pre.wf() {
                lemma_stop_linked(pre, *self, addr@);
            }
        }
        NodeReply::Okay
    }

    /// Look the worker record up for `addr`, resolving an alias to its
    /// primary first: a pure lookup used to dispatch a message. `None`
    /// stands for `NoSuchAddress`, also in the degraded
    /// alias-without-record case.
    pub fn resolve(&self, addr: &Address) -> (r: Option<WorkerRecord>)
        requires
            self.keyed(),
        ensures
            match r {
                Some(rec) => {
                    &&& self.running
                    &&& self.contains_address(addr@)
                    &&& recs_have(self.internal@, amap_get(self.addr_map@, addr@))
                    &&& rec.primary@ == amap_get(self.addr_map@, addr@)
                    &&& rec.addresses@ == self.internal@[rec_idx(
                        self.internal@,
                        amap_get(self.addr_map@, addr@),
                    )].addresses@
                    &&& rec.sender == self.internal@[rec_idx(
                        self.internal@,
                        amap_get(self.addr_map@, addr@),
                    )].sender
                },
                None => !self.running || !self.contains_address(addr@) || !recs_have(
                    self.internal@,
                    amap_get(self.addr_map@, addr@),
                ),
            },
    {
        if !self.running {
            return None;
        }
        let i = match find_alias(&self.addr_map, addr) {
            Some(i) => i,
            None => {
                return None;
            },
        };
        proof {
            lemma_amap_get_at(self.addr_map@, addr@, i as int);
        }
        let j = match find_record(&self.internal, &self.addr_map[i].primary) {
            Some(j) => j,
            None => {
                return None;
            },
        };
        proof {
            lemma_rec_at(self.internal@, self.addr_map@[i as int].primary@, j as int);
        }
        Some(self.internal[j].clone())
    }

    /// Invalidate the table: the records and aliases are dropped and every
    /// subsequent command is refused rather than silently applied.
    pub fn shutdown(&mut self)
        ensures
            !final(self).running,
            final(self).addr_map@.len() == 0,
            final(self).internal@.len() == 0,
            final(self).wf(),
    {
        self.running = false;
        self.addr_map.clear();
        self.internal.clear();
    }
}

/// Stopping a worker on a well-formed table leaves the two tables in
/// agreement: the stopped record owned every address that was unbound, and
/// no other record shared any of them.
pub proof fn lemma_stop_linked(pre: Router, post: Router, a: Seq<char>)
    requires
        pre.wf(),
        pre.contains_address(a),
        recs_have(pre.internal@, amap_get(pre.addr_map@, a)),
        stop_effect(pre, post, a),
    ensures
        post.wf(),
{
    let p = amap_get(pre.addr_map@, a);
    let j = rec_idx(pre.internal@, p);
    let rec = pre.internal@[j];
    assert(0 <= j < pre.internal@.len() && pre.internal@[j].primary@ == p);
    lemma_recs_remove(pre.internal@, j);
    assert forall|i: int| 0 <= i < post.addr_map@.len() implies #[trigger] alias_linked(
        post,
        i,
    ) by {
        let e = post.addr_map@[i];
        assert(amap_has(post.addr_map@, e.alias@));
        lemma_amap_get_at(post.addr_map@, e.alias@, i);
        assert(post.contains_address(e.alias@));
        assert(pre.contains_address(e.alias@) && !addrs_have(rec.addresses@, e.alias@));
        assert(amap_get(post.addr_map@, e.alias@) == amap_get(pre.addr_map@, e.alias@));
        let i0 = amap_idx(pre.addr_map@, e.alias@);
        assert(0 <= i0 < pre.addr_map@.len() && pre.addr_map@[i0].alias@ == e.alias@);
        assert(alias_linked(pre, i0));
        let j0 = choose|j0: int|
            0 <= j0 < pre.internal@.len() && #[trigger] pre.internal@[j0].primary@
                == pre.addr_map@[i0].primary@ && addrs_have(
                pre.internal@[j0].addresses@,
                pre.addr_map@[i0].alias@,
            );
        assert(j0 != j) by {
            if j0 == j {
                assert(addrs_have(rec.addresses@, e.alias@));
            }
        };
        let j2 = if j0 < j { j0 } else { j0 - 1 };
        assert(post.internal@[j2] == pre.internal@[j0]);
        assert(pre.internal@[j0].primary@ == e.primary@);
    };
    assert forall|j2: int| 0 <= j2 < post.internal@.len() implies #[trigger] record_linked(
        post,
        j2,
    ) by {
        let j0 = if j2 < j { j2 } else { j2 + 1 };
        let r2 = pre.internal@[j0];
        assert(post.internal@[j2] == r2);
        assert(j0 != j);
        assert(record_linked(pre, j0));
        assert(r2.primary@ != rec.primary@);
        assert(addrs_have(r2.addresses@, r2.primary@));
        assert forall|k: int| #![trigger r2.addresses@[k]]
            0 <= k < r2.addresses@.len() implies {
            amap_has(post.addr_map@, r2.addresses@[k]@) && amap_get(
                post.addr_map@,
                r2.addresses@[k]@,
            ) == r2.primary@
        } by {
            let b = r2.addresses@[k]@;
            assert(amap_has(pre.addr_map@, b) && amap_get(pre.addr_map@, b) == r2.primary@);
            assert(!addrs_have(rec.addresses@, b)) by {
                if addrs_have(rec.addresses@, b) {
                    assert(record_linked(pre, j));
                    let t = choose|t: int| 0 <= t < rec.addresses@.len() && rec.addresses@[t]@
                        == b;
                    assert(amap_get(pre.addr_map@, rec.addresses@[t]@) == rec.primary@);
                }
            };
            assert(post.contains_address(b));
        };
    };
}

/// A control command submitted to the router's serializing task, at the
/// level of the table model.
pub enum Command {
    Register { primary: Seq<char>, aliases: Seq<Seq<char>>, sender: u64 },
    StopWorker { addr: Seq<char> },
    Shutdown,
}

/// How one command may transform the table, as the operations' contracts
/// allow it: the command either fails and leaves the table unchanged, or
/// applies its effect.
pub open spec fn step_allowed(pre: Router, post: Router, c: Command) -> bool {
    match c {
        Command::Register { primary, aliases, sender } => (post == pre) || (pre.running
            && !pre.register_conflict(primary, aliases) && register_effect(
            pre,
            post,
            primary,
            aliases,
            sender,
        )),
        Command::StopWorker { addr } => (post == pre) || (pre.running && pre.contains_address(
            addr,
        ) && recs_have(pre.internal@, amap_get(pre.addr_map@, addr)) && stop_effect(
            pre,
            post,
            addr,
        )),
        Command::Shutdown => !post.running && post.addr_map@.len() == 0 && post.internal@.len()
            == 0,
    }
}

/// Any single command keeps the table invariant.
pub proof fn lemma_step_preserves_wf(pre: Router, post: Router, c: Command)
    requires
        pre.wf(),
        step_allowed(pre, post, c),
    ensures
        post.wf(),
{
    match c {
        Command::Register { primary, aliases, sender } => {
            if post != pre {
                lemma_register_linked(pre, post, primary, aliases, sender);
            }
        },
        Command::StopWorker { addr } => {
            if post != pre {
                lemma_stop_linked(pre, post, addr);
            }
        },
        Command::Shutdown => {},
    }
}

/// For every sequence of commands applied one at a time by the serializing
/// task — and every interleaving of concurrently submitted commands is such
/// a sequence — the table invariant holds in every reachable state: no
/// alias without its record, no address owned by two workers.
pub proof fn lemma_command_sequence_preserves_invariant(states: Seq<Router>, cmds: Seq<Command>)
    requires
        states.len() == cmds.len() + 1,
        states[0].wf(),
        forall|i: int|
            0 <= i < cmds.len() ==> step_allowed(states[i], states[i + 1], #[trigger] cmds[i]),
    ensures
        forall|i: int| 0 <= i < states.len() ==> (#[trigger] states[i]).wf(),
    decreases cmds.len(),
{
    if cmds.len() > 0 {
        lemma_step_preserves_wf(states[0], states[1], cmds[0]);
        let states2 = states.drop_first();
        let cmds2 = cmds.drop_first();
        assert forall|i: int|
            0 <= i < cmds2.len() implies step_allowed(
            states2[i],
            states2[i + 1],
            #[trigger] cmds2[i],
        ) by {
            assert(cmds2[i] == cmds[i + 1]);
            assert(states2[i] == states[i + 1]);
            assert(states2[i + 1] == states[i + 2]);
        };
        lemma_command_sequence_preserves_invariant(states2, cmds2);
        assert forall|i: int| 0 <= i < states.len() implies (#[trigger] states[i]).wf() by {
            if i > 0 {
                assert(states2[i - 1] == states[i]);
            }
        };
    }
}

/// What the invariant says of the visible table: every bound address is
/// backed by a live record, and no address is owned by two records.
pub proof fn lemma_wf_no_orphans_no_sharing(r: Router)
    requires
        r.wf(),
    ensures
        forall|a: Seq<char>| #[trigger]
            r.contains_address(a) ==> recs_have(r.internal@, amap_get(r.addr_map@, a)),
        forall|j1: int, j2: int, a: Seq<char>|
            (0 <= j1 < r.internal@.len() && 0 <= j2 < r.internal@.len() && #[trigger] addrs_have(
                r.internal@[j1].addresses@,
                a,
            ) && #[trigger] addrs_have(r.internal@[j2].addresses@, a)) ==> j1 == j2,
{
    assert forall|a: Seq<char>| #[trigger] r.contains_address(a) implies recs_have(
        r.internal@,
        amap_get(r.addr_map@, a),
    ) by {
        let i = amap_idx(r.addr_map@, a);
        assert(0 <= i < r.addr_map@.len() && r.addr_map@[i].alias@ == a);
        lemma_amap_get_at(r.addr_map@, a, i);
        assert(alias_linked(r, i));
        let j = choose|j: int|
            0 <= j < r.internal@.len() && #[trigger] r.internal@[j].primary@
                == r.addr_map@[i].primary@ && addrs_have(
                r.internal@[j].addresses@,
                r.addr_map@[i].alias@,
            );
        assert(r.internal@[j].primary@ == amap_get(r.addr_map@, a));
    };
    assert forall|j1: int, j2: int, a: Seq<char>|
        (0 <= j1 < r.internal@.len() && 0 <= j2 < r.internal@.len() && #[trigger] addrs_have(
            r.internal@[j1].addresses@,
            a,
        ) && #[trigger] addrs_have(r.internal@[j2].addresses@, a)) implies j1 == j2 by {
        assert(record_linked(r, j1));
        assert(record_linked(r, j2));
        let t1 = choose|t: int|
            0 <= t < r.internal@[j1].addresses@.len() && r.internal@[j1].addresses@[t]@ == a;
        let t2 = choose|t: int|
            0 <= t < r.internal@[j2].addresses@.len() && r.internal@[j2].addresses@[t]@ == a;
        assert(amap_get(r.addr_map@, a) == r.internal@[j1].primary@);
        assert(amap_get(r.addr_map@, a) == r.internal@[j2].primary@);
        if j1 < j2 {
            assert(r.internal@[j1].primary@ != r.internal@[j2].primary@);
        } else if j2 < j1 {
            assert(r.internal@[j2].primary@ != r.internal@[j1].primary@);
        }
    };
}

/// After a registration of `primary` succeeds, a second registration of
/// the same primary conflicts — by `register`'s contract the second call
/// replies `AlreadyRegistered` and leaves the table, and so the first
/// registration, intact.
pub proof fn lemma_register_twice_conflicts(
    pre: Router,
    mid: Router,
    primary: Seq<char>,
    aliases1: Seq<Seq<char>>,
    sender1: u64,
    aliases2: Seq<Seq<char>>,
)
    requires
        register_effect(pre, mid, primary, aliases1, sender1),
    ensures
        mid.register_conflict(primary, aliases2),
{
    assert(mid.contains_address(primary));
}

/// Stopping a worker unbinds every one of its addresses: afterwards no
/// alias of the stopped record is contained in the table, so `resolve`
/// and `stop_worker` reply `NoSuchAddress` for each of them.
pub proof fn lemma_stop_unbinds_all_aliases(pre: Router, post: Router, addr: Seq<char>, b: Seq<char>)
    requires
        stop_effect(pre, post, addr),
        addrs_have(
            pre.internal@[rec_idx(pre.internal@, amap_get(pre.addr_map@, addr))].addresses@,
            b,
        ),
    ensures
        !post.contains_address(b),
{
    if post.contains_address(b) {
        assert(!addrs_have(
            pre.internal@[rec_idx(pre.internal@, amap_get(pre.addr_map@, addr))].addresses@,
            b,
        ));
    }
}

} // verus!
