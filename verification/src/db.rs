//! Groups, clusters, and the cluster-membership store with its
//! forward-target resolution query.

use vstd::prelude::*;

verus! {

/// The instant-messaging networks a group can live on.
#[derive(Debug, Clone, Copy, PartialEq, Eq, Structural)]
pub enum IM {
    QQ,
}

/// A chat group on a specific IM backend, identified by `(im, id)`.
#[derive(Debug)]
pub struct Group {
    pub im: IM,
    pub id: String,
}

/// Mathematical image of a [`Group`]: the backend tag and the id characters.
pub struct GroupV {
    pub im: IM,
    pub id: Seq<char>,
}

impl View for Group {
    type V = GroupV;

    open spec fn view(&self) -> GroupV {
        GroupV { im: self.im, id: self.id@ }
    }
}

impl Clone for Group {
    fn clone(&self) -> (r: Self)
        ensures
            r == *self,
    {
        Group { im: self.im, id: self.id.clone() }
    }
}

impl PartialEq for Group {
    fn eq(&self, other: &Group) -> (r: bool) {
        self.im == other.im && self.id == other.id
    }
}

impl vstd::std_specs::cmp::PartialEqSpecImpl for Group {
    open spec fn obeys_eq_spec() -> bool {
        true
    }

    open spec fn eq_spec(&self, other: &Group) -> bool {
        self@ == other@
    }
}

impl Eq for Group {}

/// A handle onto one QQ group message, enough to identify it for a recall.
#[derive(Debug, Clone)]
pub struct QQMessageHandle {
    pub group: i64,
    pub seqs: Vec<i32>,
    pub rands: Vec<i32>,
}

pub open spec fn dec_digit(d: int) -> char {
    if d == 0 {
        '0'
    } else if d == 1 {
        '1'
    } else if d == 2 {
        '2'
    } else if d == 3 {
        '3'
    } else if d == 4 {
        '4'
    } else if d == 5 {
        '5'
    } else if d == 6 {
        '6'
    } else if d == 7 {
        '7'
    } else if d == 8 {
        '8'
    } else {
        '9'
    }
}

pub open spec fn nat_dec_chars(n: int) -> Seq<char>
    decreases n,
{
    if n < 10 {
        seq![dec_digit(n)]
    } else {
        nat_dec_chars(n / 10).push(dec_digit(n % 10))
    }
}

/// The decimal rendering of a signed number, a minus sign in front when negative.
pub open spec fn i64_dec_chars(n: int) -> Seq<char> {
    if n < 0 {
        seq!['-'] + nat_dec_chars(-n)
    } else {
        nat_dec_chars(n)
    }
}

/// Relies on i64's to_string: the decimal rendering of the number, with a
/// leading minus sign when negative.
#[verifier::external_body]
fn i64_to_string(n: i64) -> (r: String)
    ensures
        r@ == i64_dec_chars(n as int),
{
    n.to_string()
}

impl Group {
    /// The group with the given QQ group code.
    pub fn from_qq(group_code: i64) -> (r: Self)
        ensures
            r@.im == IM::QQ,
            r@.id == i64_dec_chars(group_code as int),
    {
        Self { im: IM::QQ, id: i64_to_string(group_code) }
    }
}

/// Relies on chbs's short built-in EFF word list: draws one random
/// human-pronounceable word; nothing is promised of the drawn value.
#[verifier::external_body]
fn sample_word() -> String {
    chbs::component::traits::WordProvider::word(
        &chbs::word::WordList::builtin_eff_short().sampler(),
    )
}

/// The groups reachable from a member sequence, as a set of group images.
pub open spec fn members_of(gs: Seq<Group>) -> Set<GroupV> {
    Set::new(|t: GroupV| exists|k: int| 0 <= k < gs.len() && (#[trigger] gs[k])@ == t)
}

/// No two entries of the member sequence denote the same group.
pub open spec fn groups_distinct(gs: Seq<Group>) -> bool {
    forall|k: int, l: int|
        0 <= k < l < gs.len() ==> (#[trigger] gs[k])@ != (#[trigger] gs[l])@
}

/// A named cluster and its member groups.
#[derive(Debug)]
pub struct Cluster {
    pub name: String,
    pub groups: Vec<Group>,
}

impl Cluster {
    pub open spec fn wf(&self) -> bool {
        groups_distinct(self.groups@)
    }
}

/// Why a store operation failed.
#[derive(Debug, Clone, Copy, PartialEq, Eq, Structural)]
pub enum StoreError {
    /// A cluster with the requested name already exists.
    DuplicateName,
    /// No cluster with the requested name exists, so nothing was modified.
    NoSuchCluster,
}

/// Every other member of every cluster that contains `g`, deduplicated.
pub open spec fn spec_targets(m: Map<Seq<char>, Set<GroupV>>, g: GroupV) -> Set<GroupV> {
    Set::new(
        |t: GroupV|
            t != g && exists|n: Seq<char>|
                #![auto]
                m.dom().contains(n) && m[n].contains(g) && m[n].contains(t),
    )
}

/// The cluster-membership store: named clusters, each with a member set.
/// Abstractly a map from cluster name to member set.
pub struct ClusterStore {
    clusters: Vec<Cluster>,
}

impl View for ClusterStore {
    type V = Map<Seq<char>, Set<GroupV>>;

    closed spec fn view(&self) -> Map<Seq<char>, Set<GroupV>> {
        Map::new(
            |n: Seq<char>| ClusterStore::has_name(self.clusters@, n),
            |n: Seq<char>|
                members_of(
                    self.clusters@[ClusterStore::idx_of(self.clusters@, n)].groups@,
                ),
        )
    }
}

impl Default for ClusterStore {
    /// An empty store: no cluster exists.
    fn default() -> (r: Self)
        ensures
            r@ == Map::<Seq<char>, Set<GroupV>>::empty(),
            r.wf(),
    {
        let r = ClusterStore { clusters: Vec::new() };
        proof {
            assert(r@ =~= Map::<Seq<char>, Set<GroupV>>::empty());
        }
        r
    }
}

impl ClusterStore {
    pub closed spec fn has_name(cs: Seq<Cluster>, n: Seq<char>) -> bool {
        exists|i: int| 0 <= i < cs.len() && (#[trigger] cs[i]).name@ == n
    }

    closed spec fn idx_of(cs: Seq<Cluster>, n: Seq<char>) -> int {
        choose|i: int| 0 <= i < cs.len() && (#[trigger] cs[i]).name@ == n
    }

    pub closed spec fn wf(&self) -> bool {
        &&& forall|i: int, j: int|
            0 <= i < j < self.clusters@.len() ==> (#[trigger] self.clusters@[i]).name@ != (
            #[trigger] self.clusters@[j]).name@
        &&& forall|i: int|
            0 <= i < self.clusters@.len() ==> (#[trigger] self.clusters@[i]).wf()
    }

    /// Each well-formed store index is the one its cluster's name resolves to.
    proof fn lemma_at_index(&self, i: int)
        requires
            self.wf(),
            0 <= i < self.clusters@.len(),
        ensures
            Self::has_name(self.clusters@, self.clusters@[i].name@),
            Self::idx_of(self.clusters@, self.clusters@[i].name@) == i,
            self@.dom().contains(self.clusters@[i].name@),
            self@[self.clusters@[i].name@] == members_of(self.clusters@[i].groups@),
    {
        let cs = self.clusters@;
        let n = cs[i].name@;
        assert(Self::has_name(cs, n));
        let j = Self::idx_of(cs, n);
        assert(0 <= j < cs.len() && cs[j].name@ == n);
        if i != j {
            assert(false);
        }
    }

    /// A name in the abstract domain names some stored cluster.
    proof fn lemma_dom_index(&self, n: Seq<char>)
        requires
            self.wf(),
            self@.dom().contains(n),
        ensures
            0 <= Self::idx_of(self.clusters@, n) < self.clusters@.len(),
            self.clusters@[Self::idx_of(self.clusters@, n)].name@ == n,
            self@[n] == members_of(self.clusters@[Self::idx_of(self.clusters@, n)].groups@),
    {
        assert(Self::has_name(self.clusters@, n));
    }

    /// The index of the cluster with this name, if one exists.
    fn find_name(&self, name: &String) -> (r: Option<usize>)
        requires
            self.wf(),
        ensures
            match r {
                Some(i) => i < self.clusters@.len() && self.clusters@[i as int].name@ == name@,
                None => !self@.dom().contains(name@),
            },
    {
        let n = self.clusters.len();
        let mut k: usize = 0;
        while k < n
            invariant
                n == self.clusters@.len(),
                k <= n,
                forall|t: int| 0 <= t < k ==> (#[trigger] self.clusters@[t]).name@ != name@,
            decreases n - k,
        {
            if self.clusters[k].name == *name {
                return Some(k);
            }
            k += 1;
        }
        proof {
            if self@.dom().contains(name@) {
                assert(Self::has_name(self.clusters@, name@));
            }
        }
        None
    }

    /// Insert a cluster with the given name and no members. Fails exactly when
    /// a cluster of that name already exists, leaving the store unchanged.
    pub fn insert_cluster(&mut self, name: String) -> (r: Result<(), StoreError>)
        requires
            old(self).wf(),
        ensures
            final(self).wf(),
            old(self)@.dom().contains(name@) ==> r == Result::<(), StoreError>::Err(
                StoreError::DuplicateName,
            ) && final(self)@ == old(self)@,
            !old(self)@.dom().contains(name@) ==> r == Result::<(), StoreError>::Ok(())
                && final(self)@ == old(self)@.insert(name@, Set::<GroupV>::empty()),
    {
        match self.find_name(&name) {
            Some(i) => {
                proof {
                    self.lemma_at_index(i as int);
                }
                Err(StoreError::DuplicateName)
            },
            None => {
                let ghost pre = *self;
                self.clusters.push(Cluster { name, groups: Vec::new() });
                proof {
                    let cs = pre.clusters@;
                    let post = self.clusters@;
                    let ln = cs.len() as int;
                    assert forall|i: int, j: int| 0 <= i < j < post.len() implies (
                    #[trigger] post[i]).name@ != (#[trigger] post[j]).name@ by {
                        if j < ln {
                            assert(pre.wf());
                        } else {
                            assert(post[j].name@ == name@);
                            assert(Self::has_name(cs, cs[i].name@));
                        }
                    }
                    assert(self.wf());
                    self.lemma_at_index(ln);
                    assert(post[ln].name@ == name@);
                    assert(post[ln].groups@ =~= Seq::<Group>::empty());
                    assert(members_of(post[ln].groups@) =~= Set::<GroupV>::empty());
                    assert(self@[name@] =~= Set::<GroupV>::empty());
                    assert forall|n: Seq<char>| pre@.dom().contains(n) implies self@.dom().contains(
                        n,
                    ) && self@[n] == pre@[n] by {
                        pre.lemma_dom_index(n);
                        let i = Self::idx_of(cs, n);
                        self.lemma_at_index(i);
                    }
                    assert forall|n: Seq<char>|
                        self@.dom().contains(n) && n != name@ implies pre@.dom().contains(n) by {
                        self.lemma_dom_index(n);
                        let i = Self::idx_of(post, n);
                        assert(i < ln);
                        pre.lemma_at_index(i);
                    }
                    assert forall|n: Seq<char>|
                        self@.dom().contains(n) == pre@.dom().insert(name@).contains(n) by {
                        if n != name@ {
                            if self@.dom().contains(n) {
                                assert(pre@.dom().contains(n));
                            }
                            if pre@.dom().contains(n) {
                                pre.lemma_dom_index(n);
                                let i = Self::idx_of(cs, n);
                                assert(post[i] == cs[i]);
                                self.lemma_at_index(i);
                                assert(self@.dom().contains(n));
                            }
                        }
                    }
                    assert(self@.dom() =~= pre@.dom().insert(name@));
                    assert forall|n: Seq<char>| self@.dom().contains(n) implies self@[n] == pre@.insert(
                        name@,
                        Set::<GroupV>::empty(),
                    )[n] by {
                        if n != name@ {
                            self.lemma_dom_index(n);
                            let i = Self::idx_of(post, n);
                            assert(i < ln);
                            assert(post[i] == cs[i]);
                            pre.lemma_at_index(i);
                        }
                    }
                    assert(self@ =~= pre@.insert(name@, Set::<GroupV>::empty()));
                }
                Ok(())
            },
        }
    }

    /// Is this group already a member of the sequence?
    fn vec_has_group(gs: &Vec<Group>, g: &Group) -> (r: bool)
        ensures
            r == members_of(gs@).contains(g@),
    {
        let n = gs.len();
        let mut k: usize = 0;
        while k < n
            invariant
                n == gs@.len(),
                k <= n,
                forall|t: int| 0 <= t < k ==> (#[trigger] gs@[t])@ != g@,
            decreases n - k,
        {
            if gs[k] == *g {
                proof {
                    assert(members_of(gs@).contains(g@));
                }
                return true;
            }
            k += 1;
        }
        false
    }

    /// Add the group to the named cluster's member set (an idempotent set
    /// union). Fails exactly when no cluster with that name exists, leaving
    /// the store unchanged.
    pub fn join(&mut self, cluster: &String, group: &Group) -> (r: Result<(), StoreError>)
        requires
            old(self).wf(),
        ensures
            final(self).wf(),
            old(self)@.dom().contains(cluster@) ==> r == Result::<(), StoreError>::Ok(())
                && final(self)@ == old(self)@.insert(
                cluster@,
                old(self)@[cluster@].insert(group@),
            ),
            !old(self)@.dom().contains(cluster@) ==> r == Result::<(), StoreError>::Err(
                StoreError::NoSuchCluster,
            ) && final(self)@ == old(self)@,
    {
        match self.find_name(cluster) {
            None => Err(StoreError::NoSuchCluster),
            Some(i) => {
                let ghost pre = *self;
                let already = Self::vec_has_group(&self.clusters[i].groups, group);
                if !already {
                    let g = group.clone();
                    self.clusters[i].groups.push(g);
                }
                proof {
                    let cs = pre.clusters@;
                    let post = self.clusters@;
                    let ii = i as int;
                    pre.lemma_at_index(ii);
                    if !already {
                        assert(post == cs.update(ii, post[ii]));
                        assert(post[ii].name@ == cluster@);
                        assert(post[ii].groups@ == cs[ii].groups@.push(*group));
                        assert forall|k: int, l: int| 0 <= k < l < post[ii].groups@.len() implies (
                        #[trigger] post[ii].groups@[k])@ != (#[trigger] post[ii].groups@[l])@ by {
                            assert(pre.clusters@[ii].wf());
                            if l == post[ii].groups@.len() - 1 {
                                assert(post[ii].groups@[l]@ == group@);
                                assert(!members_of(cs[ii].groups@).contains(group@));
                                assert(members_of(cs[ii].groups@).contains(cs[ii].groups@[k]@));
                            }
                        }
                        assert forall|t: int|
                            0 <= t < post.len() implies (#[trigger] post[t]).wf() by {
                            assert(pre.clusters@[t].wf());
                        }
                        assert(self.wf());
                    } else {
                        assert(post == cs);
                        assert(self.wf());
                    }
                    // the member set at `cluster` picks up exactly `group@`
                    let msold = members_of(cs[ii].groups@);
                    let msnew = members_of(post[ii].groups@);
                    assert forall|t: GroupV| msnew.contains(t) implies msold.insert(
                        group@,
                    ).contains(t) by {
                        let k = choose|k: int|
                            0 <= k < post[ii].groups@.len() && (#[trigger] post[ii].groups@[k])@
                                == t;
                        if !already && k == post[ii].groups@.len() - 1 {
                        } else {
                            assert(cs[ii].groups@[k]@ == t);
                            assert(msold.contains(t));
                        }
                    }
                    assert forall|t: GroupV| msold.insert(group@).contains(t) implies msnew.contains(
                        t,
                    ) by {
                        if t == group@ {
                            if already {
                                assert(msold.contains(t));
                                let k = choose|k: int|
                                    0 <= k < cs[ii].groups@.len() && (#[trigger] cs[ii].groups@[k])@
                                        == t;
                                assert(post[ii].groups@[k]@ == t);
                            } else {
                                assert(post[ii].groups@[post[ii].groups@.len() - 1]@ == t);
                            }
                        } else {
                            assert(msold.contains(t));
                            let k = choose|k: int|
                                0 <= k < cs[ii].groups@.len() && (#[trigger] cs[ii].groups@[k])@
                                    == t;
                            assert(post[ii].groups@[k]@ == t);
                        }
                    }
                    assert(msnew =~= msold.insert(group@));
                    // the rest of the map is untouched
                    self.lemma_at_index(ii);
                    assert(post[ii].name@ == cluster@);
                    assert forall|n: Seq<char>|
                        pre@.dom().contains(n) && n != cluster@ implies self@.dom().contains(n)
                        && self@[n] == pre@[n] by {
                        pre.lemma_dom_index(n);
                        let t = Self::idx_of(cs, n);
                        assert(t != ii);
                        assert(post[t] == cs[t]);
                        self.lemma_at_index(t);
                    }
                    assert forall|n: Seq<char>| self@.dom().contains(n) implies pre@.dom().contains(
                        n,
                    ) by {
                        self.lemma_dom_index(n);
                        let t = Self::idx_of(post, n);
                        assert(cs[t].name@ == n);
                        pre.lemma_at_index(t);
                    }
                    assert forall|n: Seq<char>|
                        self@.dom().contains(n) == pre@.dom().contains(n) by {
                        if n != cluster@ {
                            if self@.dom().contains(n) {
                                assert(pre@.dom().contains(n));
                            }
                            if pre@.dom().contains(n) {
                                pre.lemma_dom_index(n);
                                let t = Self::idx_of(cs, n);
                                assert(t != ii);
                                assert(post[t] == cs[t]);
                                self.lemma_at_index(t);
                                assert(self@.dom().contains(n));
                            }
                        } else {
                            assert(self@.dom().contains(cluster@));
                            assert(pre@.dom().contains(cluster@));
                        }
                    }
                    assert(self@.dom() =~= pre@.dom());
                    assert(self@[cluster@] == msnew);
                    assert(pre@[cluster@] == msold);
                    assert forall|n: Seq<char>| self@.dom().contains(n) implies self@[n]
                        == pre@.insert(cluster@, pre@[cluster@].insert(group@))[n] by {
                        if n != cluster@ {
                            self.lemma_dom_index(n);
                            let t = Self::idx_of(post, n);
                            assert(t != ii);
                            assert(post[t] == cs[t]);
                            pre.lemma_at_index(t);
                            assert(self@[n] == pre@[n]);
                        }
                    }
                    assert(self@ =~= pre@.insert(cluster@, pre@[cluster@].insert(group@)));
                }
                Ok(())
            },
        }
    }

    /// The names of all clusters, each exactly once, in store order.
    pub fn list_names(&self) -> (r: Vec<String>)
        requires
            self.wf(),
        ensures
            forall|i: int, j: int| 0 <= i < j < r@.len() ==> (#[trigger] r@[i])@ != (
            #[trigger] r@[j])@,
            forall|i: int| 0 <= i < r@.len() ==> self@.dom().contains((#[trigger] r@[i])@),
            forall|n: Seq<char>|
                self@.dom().contains(n) ==> exists|i: int|
                    0 <= i < r@.len() && (#[trigger] r@[i])@ == n,
    {
        let n = self.clusters.len();
        let mut out: Vec<String> = Vec::new();
        let mut k: usize = 0;
        while k < n
            invariant
                self.wf(),
                n == self.clusters@.len(),
                k <= n,
                out@.len() == k,
                forall|t: int| 0 <= t < k ==> (#[trigger] out@[t])@ == self.clusters@[t].name@,
            decreases n - k,
        {
            out.push(self.clusters[k].name.clone());
            k += 1;
        }
        proof {
            assert forall|i: int, j: int| 0 <= i < j < out@.len() implies (#[trigger] out@[i])@ != (
            #[trigger] out@[j])@ by {
                assert(self.clusters@[i].name@ != self.clusters@[j].name@);
            }
            assert forall|i: int| 0 <= i < out@.len() implies self@.dom().contains(
                (#[trigger] out@[i])@,
            ) by {
                self.lemma_at_index(i);
            }
            assert forall|nm: Seq<char>| self@.dom().contains(nm) implies exists|i: int|
                0 <= i < out@.len() && (#[trigger] out@[i])@ == nm by {
                self.lemma_dom_index(nm);
                let t = Self::idx_of(self.clusters@, nm);
                assert(out@[t]@ == nm);
            }
        }
        out
    }

    /// Create a cluster under a freshly drawn name with no members. A name
    /// collision is a hard failure that leaves the store unchanged.
    pub fn new_cluster(&mut self) -> (r: Result<String, StoreError>)
        requires
            old(self).wf(),
        ensures
            final(self).wf(),
            match r {
                Ok(name) => !old(self)@.dom().contains(name@) && final(self)@ == old(
                    self,
                )@.insert(name@, Set::<GroupV>::empty()),
                Err(e) => e == StoreError::DuplicateName && final(self)@ == old(self)@
                    && exists|n: Seq<char>| old(self)@.dom().contains(n),
            },
    {
        let name = sample_word();
        let copy = name.clone();
        match self.insert_cluster(copy) {
            Ok(_) => Ok(name),
            Err(e) => {
                proof {
                    assert(old(self)@.dom().contains(name@));
                }
                Err(e)
            },
        }
    }

    /// The forward targets seen through the first `hi` stored clusters.
    spec fn targets_upto(cs: Seq<Cluster>, g: GroupV, hi: int) -> Set<GroupV> {
        Set::new(
            |t: GroupV|
                t != g && exists|k: int|
                    #![auto]
                    0 <= k < hi && members_of(cs[k].groups@).contains(g) && members_of(
                        cs[k].groups@,
                    ).contains(t),
        )
    }

    /// The members among the first `hi` entries, the group itself left out.
    spec fn others_upto(gs: Seq<Group>, g: GroupV, hi: int) -> Set<GroupV> {
        Set::new(
            |t: GroupV|
                t != g && exists|k: int| 0 <= k < hi && (#[trigger] gs[k])@ == t,
        )
    }

    /// Every other member of every cluster that contains the group,
    /// deduplicated across all such clusters.
    pub fn forward_targets(&self, group: &Group) -> (r: Vec<Group>)
        requires
            self.wf(),
        ensures
            groups_distinct(r@),
            members_of(r@) == spec_targets(self@, group@),
    {
        let n = self.clusters.len();
        let mut out: Vec<Group> = Vec::new();
        let mut k: usize = 0;
        while k < n
            invariant
                self.wf(),
                n == self.clusters@.len(),
                k <= n,
                groups_distinct(out@),
                members_of(out@) =~= Self::targets_upto(self.clusters@, group@, k as int),
            decreases n - k,
        {
            let ghost cs = self.clusters@;
            let ghost sofar = members_of(out@);
            if Self::vec_has_group(&self.clusters[k].groups, group) {
                let m = self.clusters[k].groups.len();
                let ghost gs = self.clusters@[k as int].groups@;
                let mut j: usize = 0;
                while j < m
                    invariant
                        self.wf(),
                        k < n,
                        n == self.clusters@.len(),
                        gs == self.clusters@[k as int].groups@,
                        m == gs.len(),
                        j <= m,
                        groups_distinct(out@),
                        members_of(out@) =~= sofar.union(Self::others_upto(gs, group@, j as int)),
                    decreases m - j,
                {
                    let ghost before = members_of(out@);
                    let ghost bseq = out@;
                    let cand = &self.clusters[k].groups[j];
                    if !(cand == group) && !Self::vec_has_group(&out, cand) {
                        let c = cand.clone();
                        out.push(c);
                        proof {
                            assert(out@ == bseq.push(gs[j as int]));
                            assert forall|t: GroupV| members_of(out@).contains(t) implies
                                before.insert(gs[j as int]@).contains(t) by {
                                let w = choose|w: int|
                                    0 <= w < out@.len() && (#[trigger] out@[w])@ == t;
                                if w < bseq.len() {
                                    assert(bseq[w]@ == t);
                                    assert(before.contains(t));
                                } else {
                                    assert(out@[w] == gs[j as int]);
                                }
                            }
                            assert forall|t: GroupV|
                                before.insert(gs[j as int]@).contains(t) implies members_of(
                                out@,
                            ).contains(t) by {
                                if t == gs[j as int]@ {
                                    assert(out@[bseq.len() as int]@ == t);
                                } else {
                                    assert(before.contains(t));
                                    let w = choose|w: int|
                                        0 <= w < bseq.len() && (#[trigger] bseq[w])@ == t;
                                    assert(out@[w] == bseq[w]);
                                    assert(out@[w]@ == t);
                                }
                            }
                            assert(members_of(out@) =~= before.insert(gs[j as int]@));
                            assert forall|x: int, y: int|
                                0 <= x < y < out@.len() implies (#[trigger] out@[x])@ != (
                            #[trigger] out@[y])@ by {
                                if y == out@.len() - 1 {
                                    assert(out@[x] == bseq[x]);
                                    assert(members_of(bseq).contains(bseq[x]@));
                                    assert(out@[y]@ == gs[j as int]@);
                                } else {
                                    assert(out@[x] == bseq[x] && out@[y] == bseq[y]);
                                }
                            }
                        }
                    }
                    proof {
                        assert forall|t: GroupV|
                            sofar.union(Self::others_upto(gs, group@, j + 1)).contains(t) implies
                            members_of(out@).contains(t) by {
                            if Self::others_upto(gs, group@, j + 1).contains(t) && !Self::others_upto(
                                gs,
                                group@,
                                j as int,
                            ).contains(t) && !sofar.contains(t) {
                                assert(t == gs[j as int]@);
                            }
                        }
                        assert(members_of(out@) =~= sofar.union(
                            Self::others_upto(gs, group@, j + 1),
                        ));
                    }
                    j += 1;
                }
                proof {
                    let full = Self::others_upto(gs, group@, m as int);
                    assert forall|t: GroupV|
                        Self::targets_upto(cs, group@, k + 1).contains(t) implies sofar.union(
                        full,
                    ).contains(t) by {
                        let w = choose|w: int|
                            #![auto]
                            0 <= w < k + 1 && members_of(cs[w].groups@).contains(group@)
                                && members_of(cs[w].groups@).contains(t);
                        if w < k as int {
                            assert(Self::targets_upto(cs, group@, k as int).contains(t));
                        } else {
                            assert(members_of(gs).contains(t));
                            let u = choose|u: int|
                                0 <= u < gs.len() && (#[trigger] gs[u])@ == t;
                            assert(full.contains(t));
                        }
                    }
                    assert forall|t: GroupV| sofar.union(full).contains(t) implies
                        Self::targets_upto(cs, group@, k + 1).contains(t) by {
                        if sofar.contains(t) {
                            assert(Self::targets_upto(cs, group@, k as int).contains(t));
                        } else {
                            assert(full.contains(t));
                            assert(members_of(cs[k as int].groups@).contains(t));
                            assert(members_of(cs[k as int].groups@).contains(group@));
                        }
                    }
                    assert(members_of(out@) =~= Self::targets_upto(cs, group@, k + 1));
                }
            } else {
                proof {
                    assert forall|t: GroupV|
                        Self::targets_upto(cs, group@, k + 1).contains(t) implies
                        Self::targets_upto(cs, group@, k as int).contains(t) by {
                        let w = choose|w: int|
                            #![auto]
                            0 <= w < k + 1 && members_of(cs[w].groups@).contains(group@)
                                && members_of(cs[w].groups@).contains(t);
                        assert(w != k as int);
                    }
                    assert(members_of(out@) =~= Self::targets_upto(cs, group@, k + 1));
                }
            }
            k += 1;
        }
        proof {
            let cs = self.clusters@;
            assert forall|t: GroupV| Self::targets_upto(cs, group@, n as int).contains(t) implies
                spec_targets(self@, group@).contains(t) by {
                let w = choose|w: int|
                    #![auto]
                    0 <= w < n && members_of(cs[w].groups@).contains(group@) && members_of(
                        cs[w].groups@,
                    ).contains(t);
                self.lemma_at_index(w);
                assert(self@.dom().contains(cs[w].name@));
            }
            assert forall|t: GroupV| spec_targets(self@, group@).contains(t) implies
                Self::targets_upto(cs, group@, n as int).contains(t) by {
                let nm = choose|nm: Seq<char>|
                    #![auto]
                    self@.dom().contains(nm) && self@[nm].contains(group@) && self@[nm].contains(t);
                self.lemma_dom_index(nm);
                let w = Self::idx_of(cs, nm);
                assert(members_of(cs[w].groups@).contains(group@));
            }
            assert(members_of(out@) =~= spec_targets(self@, group@));
        }
        out
    }
}

/// Two groups that together form the whole member set of one cluster, and
/// are members of no other cluster, each see exactly the other as their
/// forward target.
pub proof fn lemma_pair_targets(
    m: Map<Seq<char>, Set<GroupV>>,
    c: Seq<char>,
    g1: GroupV,
    g2: GroupV,
)
    requires
        m.dom().contains(c),
        m[c] == set![g1, g2],
        g1 != g2,
        forall|n: Seq<char>|
            m.dom().contains(n) && n != c ==> !(#[trigger] m[n]).contains(g1) && !m[n].contains(g2),
    ensures
        spec_targets(m, g1) == set![g2],
        spec_targets(m, g2) == set![g1],
{
    assert(m[c].contains(g1) && m[c].contains(g2));
    assert forall|t: GroupV| spec_targets(m, g1).contains(t) implies set![g2].contains(t) by {
        let n = choose|n: Seq<char>|
            #![auto]
            m.dom().contains(n) && m[n].contains(g1) && m[n].contains(t);
        assert(n == c);
        assert(set![g1, g2].contains(t));
    }
    assert(spec_targets(m, g1).contains(g2));
    assert(spec_targets(m, g1) =~= set![g2]);
    assert forall|t: GroupV| spec_targets(m, g2).contains(t) implies set![g1].contains(t) by {
        let n = choose|n: Seq<char>|
            #![auto]
            m.dom().contains(n) && m[n].contains(g2) && m[n].contains(t);
        assert(n == c);
        assert(set![g1, g2].contains(t));
    }
    assert(spec_targets(m, g2).contains(g1));
    assert(spec_targets(m, g2) =~= set![g1]);
}

/// Joining the same group to the same cluster twice leaves the store exactly
/// as after the first join.
pub proof fn lemma_join_idempotent(m: Map<Seq<char>, Set<GroupV>>, c: Seq<char>, g: GroupV)
    requires
        m.dom().contains(c),
    ensures
        ({
            let once = m.insert(c, m[c].insert(g));
            once.insert(c, once[c].insert(g)) == once
        }),
{
    let once = m.insert(c, m[c].insert(g));
    assert(once[c] =~= m[c].insert(g));
    assert(once[c].insert(g) =~= once[c]);
    assert(once.insert(c, once[c].insert(g)) =~= once);
}

} // verus!
