//! The cluster-membership analyzer.
//!
//! A membership table is streamed line by line: each well-formed line
//! appends its member identifier to the group owned by its centroid
//! identifier, creating the group on first sight. A line with fewer than
//! two fields is a fatal parse error carrying the 1-based line number and
//! the raw line content; no statistics are returned then.
//!
//! The mathematical model is `aggregate`: groups in order of first sight,
//! each holding its members in arrival order. The statistics are derived
//! from the aggregate alone: `lemma_aggregate_total` shows that the total
//! member count equals the number of lines, and
//! `lemma_singleton_partition` that singleton and non-singleton clusters
//! partition the clusters.

use vstd::prelude::*;
use crate::errors::PipelineError;
use crate::membership::line_key;
use crate::membership::line_member;
use crate::membership::line_well_formed;
use crate::membership::split_fields;
use crate::membership::split_into_lines;
use crate::membership::split_lines;
use crate::membership::string_views;
use crate::membership::tokens;

verus! {

/// The model of a grouped membership table: for each centroid, in order
/// of first sight, the members accumulated for it, in arrival order.
pub type GroupsView = Seq<(Seq<char>, Seq<Seq<char>>)>;

/// Appends member `m` to the group keyed `k`, creating the group at the
/// end when no group carries that key yet.
pub open spec fn insert_member(gs: GroupsView, k: Seq<char>, m: Seq<char>) -> GroupsView
    decreases gs.len(),
{
    if gs.len() == 0 {
        seq![(k, seq![m])]
    } else if gs[0].0 == k {
        seq![(gs[0].0, gs[0].1.push(m))] + gs.subrange(1, gs.len() as int)
    } else {
        seq![gs[0]] + insert_member(gs.subrange(1, gs.len() as int), k, m)
    }
}

/// The aggregate of a sequence of record lines, processed in order.
pub open spec fn aggregate(lines: Seq<Seq<char>>) -> GroupsView
    decreases lines.len(),
{
    if lines.len() == 0 {
        Seq::empty()
    } else {
        insert_member(
            aggregate(lines.drop_last()),
            line_key(lines.last()),
            line_member(lines.last()),
        )
    }
}

/// The centroid identifiers of the groups, in order.
pub open spec fn keys_of(gs: GroupsView) -> Seq<Seq<char>> {
    gs.map_values(|g: (Seq<char>, Seq<Seq<char>>)| g.0)
}

/// Whether some group carries key `k`.
pub open spec fn has_key(gs: GroupsView, k: Seq<char>) -> bool {
    exists|p: int| 0 <= p < gs.len() && gs[p].0 == k
}

/// No two groups carry the same key.
pub open spec fn distinct_keys(gs: GroupsView) -> bool {
    forall|i: int, j: int| 0 <= i < j < gs.len() ==> gs[i].0 != gs[j].0
}

/// Every group holds at least one member.
pub open spec fn all_groups_nonempty(gs: GroupsView) -> bool {
    forall|i: int| 0 <= i < gs.len() ==> gs[i].1.len() >= 1
}

/// The sum of the group sizes.
pub open spec fn total_members_of(gs: GroupsView) -> nat
    decreases gs.len(),
{
    if gs.len() == 0 {
        0
    } else {
        total_members_of(gs.drop_last()) + gs.last().1.len()
    }
}

/// The number of groups holding exactly one member.
pub open spec fn singleton_count_of(gs: GroupsView) -> nat
    decreases gs.len(),
{
    if gs.len() == 0 {
        0
    } else {
        singleton_count_of(gs.drop_last()) + (if gs.last().1.len() == 1 {
            1nat
        } else {
            0nat
        })
    }
}

/// The number of groups not holding exactly one member. On an aggregate,
/// where every group is nonempty, these are the groups with more than
/// one member.
pub open spec fn non_singleton_count_of(gs: GroupsView) -> nat
    decreases gs.len(),
{
    if gs.len() == 0 {
        0
    } else {
        non_singleton_count_of(gs.drop_last()) + (if gs.last().1.len() == 1 {
            0nat
        } else {
            1nat
        })
    }
}

/// Law: singleton and non-singleton clusters partition the clusters, so
/// the two counts always sum to the cluster count.
pub proof fn lemma_singleton_partition(gs: GroupsView)
    ensures
        singleton_count_of(gs) + non_singleton_count_of(gs) == gs.len(),
    decreases gs.len(),
{
    if gs.len() > 0 {
        lemma_singleton_partition(gs.drop_last());
    }
}

/// Group sizes add over concatenation.
pub proof fn lemma_total_concat(a: GroupsView, b: GroupsView)
    ensures
        total_members_of(a + b) == total_members_of(a) + total_members_of(b),
    decreases b.len(),
{
    if b.len() == 0 {
        assert(a + b =~= a);
    } else {
        lemma_total_concat(a, b.drop_last());
        assert((a + b).drop_last() =~= a + b.drop_last());
        assert((a + b).last() == b.last());
    }
}

/// The total member count of a one-group table is that group's size.
proof fn lemma_total_singleton(x: (Seq<char>, Seq<Seq<char>>))
    ensures
        total_members_of(seq![x]) == x.1.len(),
{
    assert(seq![x].drop_last() =~= Seq::<(Seq<char>, Seq<Seq<char>>)>::empty());
    assert(total_members_of(Seq::<(Seq<char>, Seq<Seq<char>>)>::empty()) == 0);
    assert(seq![x].last() == x);
}

/// Inserting one member grows the total member count by exactly one.
pub proof fn lemma_insert_member_total(gs: GroupsView, k: Seq<char>, m: Seq<char>)
    ensures
        total_members_of(insert_member(gs, k, m)) == total_members_of(gs) + 1,
    decreases gs.len(),
{
    if gs.len() == 0 {
        lemma_total_singleton((k, seq![m]));
        assert(seq![m].len() == 1);
        assert(total_members_of(gs) == 0);
    } else {
        let tail = gs.subrange(1, gs.len() as int);
        assert(gs =~= seq![gs[0]] + tail);
        lemma_total_concat(seq![gs[0]], tail);
        lemma_total_singleton(gs[0]);
        assert(total_members_of(gs) == gs[0].1.len() + total_members_of(tail));
        if gs[0].0 == k {
            let head = (gs[0].0, gs[0].1.push(m));
            lemma_total_concat(seq![head], tail);
            lemma_total_singleton(head);
            assert(head.1.len() == gs[0].1.len() + 1);
            assert(insert_member(gs, k, m) == seq![head] + tail);
        } else {
            lemma_insert_member_total(tail, k, m);
            lemma_total_concat(seq![gs[0]], insert_member(tail, k, m));
            assert(insert_member(gs, k, m) == seq![gs[0]] + insert_member(tail, k, m));
        }
    }
}

/// Law: the aggregate of `lines` holds exactly one member per line, so
/// its total member count equals the number of lines.
pub proof fn lemma_aggregate_total(lines: Seq<Seq<char>>)
    ensures
        total_members_of(aggregate(lines)) == lines.len(),
    decreases lines.len(),
{
    if lines.len() > 0 {
        lemma_aggregate_total(lines.drop_last());
        lemma_insert_member_total(
            aggregate(lines.drop_last()),
            line_key(lines.last()),
            line_member(lines.last()),
        );
    }
}

/// Inserting a member keeps the key list when the key is present and
/// appends the key when it is new.
pub proof fn lemma_insert_member_keys(gs: GroupsView, k: Seq<char>, m: Seq<char>)
    ensures
        has_key(gs, k) ==> keys_of(insert_member(gs, k, m)) =~= keys_of(gs),
        !has_key(gs, k) ==> keys_of(insert_member(gs, k, m)) =~= keys_of(gs).push(k),
    decreases gs.len(),
{
    let r = insert_member(gs, k, m);
    if gs.len() == 0 {
        assert(!has_key(gs, k));
        assert(r == seq![(k, seq![m])]);
        assert(keys_of(r)[0] == r[0].0);
        assert(keys_of(r) =~= keys_of(gs).push(k));
    } else if gs[0].0 == k {
        assert(has_key(gs, k));
        let tail = gs.subrange(1, gs.len() as int);
        assert(r == seq![(gs[0].0, gs[0].1.push(m))] + tail);
        assert forall|q: int| 0 <= q < gs.len() implies keys_of(r)[q] == keys_of(gs)[q] by {
            assert(keys_of(r)[q] == r[q].0);
            assert(keys_of(gs)[q] == gs[q].0);
            if q > 0 {
                assert(r[q] == tail[q - 1]);
                assert(tail[q - 1] == gs[q]);
            }
        }
        assert(keys_of(r) =~= keys_of(gs));
    } else {
        let tail = gs.subrange(1, gs.len() as int);
        let rt = insert_member(tail, k, m);
        assert(r == seq![gs[0]] + rt);
        lemma_insert_member_keys(tail, k, m);
        if has_key(gs, k) {
            let p = choose|p: int| 0 <= p < gs.len() && gs[p].0 == k;
            assert(p != 0);
            assert(tail[p - 1] == gs[p]);
            assert(has_key(tail, k));
        }
        if has_key(tail, k) {
            let p = choose|p: int| 0 <= p < tail.len() && tail[p].0 == k;
            assert(gs[p + 1] == tail[p]);
            assert(has_key(gs, k));
        }
        if has_key(gs, k) {
            assert forall|q: int| 0 <= q < gs.len() implies keys_of(r)[q] == keys_of(gs)[q] by {
                assert(keys_of(r)[q] == r[q].0);
                assert(keys_of(gs)[q] == gs[q].0);
                if q > 0 {
                    assert(r[q] == rt[q - 1]);
                    assert(keys_of(rt)[q - 1] == rt[q - 1].0);
                    assert(keys_of(tail)[q - 1] == tail[q - 1].0);
                    assert(tail[q - 1] == gs[q]);
                }
            }
            assert(keys_of(r) =~= keys_of(gs));
        } else {
            assert(rt.len() == tail.len() + 1);
            assert forall|q: int| 0 <= q < gs.len() + 1 implies keys_of(r)[q] == keys_of(
                gs,
            ).push(k)[q] by {
                assert(keys_of(r)[q] == r[q].0);
                if q > 0 {
                    assert(r[q] == rt[q - 1]);
                    assert(keys_of(rt)[q - 1] == rt[q - 1].0);
                    if q < gs.len() {
                        assert(keys_of(tail)[q - 1] == tail[q - 1].0);
                        assert(tail[q - 1] == gs[q]);
                        assert(keys_of(gs)[q] == gs[q].0);
                    } else {
                        assert(keys_of(rt)[q - 1] == keys_of(tail).push(k)[q - 1]);
                    }
                } else {
                    assert(keys_of(gs)[0] == gs[0].0);
                }
            }
            assert(keys_of(r) =~= keys_of(gs).push(k));
        }
    }
}

/// Inserting a member introduces its key and keeps every key already
/// present, and no other.
pub proof fn lemma_insert_member_has_key(gs: GroupsView, k: Seq<char>, m: Seq<char>, k2: Seq<char>)
    ensures
        has_key(insert_member(gs, k, m), k2) <==> (has_key(gs, k2) || k2 == k),
{
    lemma_insert_member_keys(gs, k, m);
    let r = insert_member(gs, k, m);
    if has_key(gs, k) {
        if has_key(r, k2) {
            let p = choose|p: int| 0 <= p < r.len() && r[p].0 == k2;
            assert(keys_of(r)[p] == r[p].0);
            assert(keys_of(gs)[p] == gs[p].0);
            assert(has_key(gs, k2));
        }
        if has_key(gs, k2) {
            let p = choose|p: int| 0 <= p < gs.len() && gs[p].0 == k2;
            assert(keys_of(gs)[p] == gs[p].0);
            assert(keys_of(r)[p] == r[p].0);
            assert(has_key(r, k2));
        }
        if k2 == k {
            let p = choose|p: int| 0 <= p < gs.len() && gs[p].0 == k;
            assert(keys_of(gs)[p] == gs[p].0);
            assert(keys_of(r)[p] == r[p].0);
            assert(has_key(r, k2));
        }
    } else {
        if has_key(r, k2) {
            let p = choose|p: int| 0 <= p < r.len() && r[p].0 == k2;
            assert(keys_of(r)[p] == r[p].0);
            if p < gs.len() {
                assert(keys_of(gs)[p] == gs[p].0);
                assert(has_key(gs, k2));
            } else {
                assert(keys_of(r)[p] == k);
            }
        }
        if has_key(gs, k2) {
            let p = choose|p: int| 0 <= p < gs.len() && gs[p].0 == k2;
            assert(keys_of(gs)[p] == gs[p].0);
            assert(keys_of(r)[p] == r[p].0);
            assert(has_key(r, k2));
        }
        if k2 == k {
            assert(keys_of(r)[gs.len() as int] == k);
            assert(r[gs.len() as int].0 == k);
            assert(has_key(r, k2));
        }
    }
}

/// Law: a centroid owns a group of the aggregate exactly when some line
/// names it as its first field.
pub proof fn lemma_aggregate_keys(lines: Seq<Seq<char>>, k: Seq<char>)
    ensures
        has_key(aggregate(lines), k) <==> exists|i: int|
            0 <= i < lines.len() && line_key(#[trigger] lines[i]) == k,
    decreases lines.len(),
{
    if lines.len() == 0 {
        assert(!has_key(aggregate(lines), k));
    } else {
        let prefix = lines.drop_last();
        lemma_aggregate_keys(prefix, k);
        lemma_insert_member_has_key(
            aggregate(prefix),
            line_key(lines.last()),
            line_member(lines.last()),
            k,
        );
        assert forall|i: int|
            0 <= i < prefix.len() && line_key(#[trigger] prefix[i]) == k implies exists|j: int|
            0 <= j < lines.len() && line_key(#[trigger] lines[j]) == k by {
            assert(lines[i] == prefix[i]);
        }
        if exists|i: int| 0 <= i < lines.len() && line_key(#[trigger] lines[i]) == k {
            let i = choose|i: int| 0 <= i < lines.len() && line_key(#[trigger] lines[i]) == k;
            if i < lines.len() - 1 {
                assert(prefix[i] == lines[i]);
                assert(has_key(aggregate(prefix), k));
            } else {
                assert(lines.last() == lines[i]);
            }
        }
    }
}

/// Inserting a member preserves the uniqueness of the keys.
pub proof fn lemma_insert_member_distinct(gs: GroupsView, k: Seq<char>, m: Seq<char>)
    requires
        distinct_keys(gs),
    ensures
        distinct_keys(insert_member(gs, k, m)),
{
    lemma_insert_member_keys(gs, k, m);
    let r = insert_member(gs, k, m);
    if has_key(gs, k) {
        assert forall|i: int, j: int| 0 <= i < j < r.len() implies r[i].0 != r[j].0 by {
            assert(keys_of(r)[i] == r[i].0);
            assert(keys_of(r)[j] == r[j].0);
            assert(keys_of(gs)[i] == gs[i].0);
            assert(keys_of(gs)[j] == gs[j].0);
        }
    } else {
        assert forall|i: int, j: int| 0 <= i < j < r.len() implies r[i].0 != r[j].0 by {
            assert(keys_of(r)[i] == r[i].0);
            assert(keys_of(r)[j] == r[j].0);
            if j < gs.len() {
                assert(keys_of(gs)[i] == gs[i].0);
                assert(keys_of(gs)[j] == gs[j].0);
            } else {
                assert(r[j].0 == k);
                assert(keys_of(gs)[i] == gs[i].0);
                assert(!(0 <= i < gs.len() && gs[i].0 == k));
            }
        }
    }
}

/// Inserting a member keeps every group nonempty.
pub proof fn lemma_insert_member_nonempty(gs: GroupsView, k: Seq<char>, m: Seq<char>)
    requires
        all_groups_nonempty(gs),
    ensures
        all_groups_nonempty(insert_member(gs, k, m)),
    decreases gs.len(),
{
    let r = insert_member(gs, k, m);
    if gs.len() == 0 {
        assert(r[0].1.len() == 1);
    } else if gs[0].0 == k {
        assert forall|i: int| 0 <= i < r.len() implies r[i].1.len() >= 1 by {
            if i > 0 {
                assert(r[i] == gs[i]);
            }
        }
    } else {
        let tail = gs.subrange(1, gs.len() as int);
        lemma_insert_member_nonempty(tail, k, m);
        assert forall|i: int| 0 <= i < r.len() implies r[i].1.len() >= 1 by {
            if i > 0 {
                assert(r[i] == insert_member(tail, k, m)[i - 1]);
            }
        }
    }
}

/// Law: the keys of an aggregate are unique — a centroid owns one group.
pub proof fn lemma_aggregate_distinct(lines: Seq<Seq<char>>)
    ensures
        distinct_keys(aggregate(lines)),
    decreases lines.len(),
{
    if lines.len() > 0 {
        lemma_aggregate_distinct(lines.drop_last());
        lemma_insert_member_distinct(
            aggregate(lines.drop_last()),
            line_key(lines.last()),
            line_member(lines.last()),
        );
    }
}

/// Law: every group of an aggregate holds at least one member.
pub proof fn lemma_aggregate_nonempty(lines: Seq<Seq<char>>)
    ensures
        all_groups_nonempty(aggregate(lines)),
    decreases lines.len(),
{
    if lines.len() > 0 {
        lemma_aggregate_nonempty(lines.drop_last());
        lemma_insert_member_nonempty(
            aggregate(lines.drop_last()),
            line_key(lines.last()),
            line_member(lines.last()),
        );
    }
}

/// Unfolds `insert_member` at the first matching index `p`.
proof fn lemma_insert_member_existing(gs: GroupsView, k: Seq<char>, m: Seq<char>, p: int)
    requires
        0 <= p < gs.len(),
        gs[p].0 == k,
        forall|q: int| 0 <= q < p ==> gs[q].0 != k,
    ensures
        insert_member(gs, k, m) =~= gs.update(p, (gs[p].0, gs[p].1.push(m))),
    decreases p,
{
    let tail = gs.subrange(1, gs.len() as int);
    if p == 0 {
        assert(insert_member(gs, k, m) =~= gs.update(0, (gs[0].0, gs[0].1.push(m))));
    } else {
        assert(gs[0].0 != k);
        assert(tail[p - 1] == gs[p]);
        assert forall|q: int| 0 <= q < p - 1 implies tail[q].0 != k by {
            assert(tail[q] == gs[q + 1]);
        }
        lemma_insert_member_existing(tail, k, m, p - 1);
        assert(insert_member(gs, k, m) =~= gs.update(p, (gs[p].0, gs[p].1.push(m))));
    }
}

/// Unfolds `insert_member` when no group carries the key.
proof fn lemma_insert_member_new_key(gs: GroupsView, k: Seq<char>, m: Seq<char>)
    requires
        forall|q: int| 0 <= q < gs.len() ==> gs[q].0 != k,
    ensures
        insert_member(gs, k, m) =~= gs.push((k, seq![m])),
    decreases gs.len(),
{
    if gs.len() > 0 {
        let tail = gs.subrange(1, gs.len() as int);
        assert forall|q: int| 0 <= q < tail.len() implies tail[q].0 != k by {
            assert(tail[q] == gs[q + 1]);
        }
        lemma_insert_member_new_key(tail, k, m);
    }
}

/// The grouped membership records: parallel lists of centroid keys and
/// member groups, `members[i]` owned by `keys[i]`.
#[derive(Debug)]
pub struct ClusterRecords {
    pub keys: Vec<String>,
    pub members: Vec<Vec<String>>,
}

impl ClusterRecords {
    /// The two lists pair up.
    pub open spec fn wf(self) -> bool {
        self.keys@.len() == self.members@.len()
    }
}

impl View for ClusterRecords {
    type V = GroupsView;

    open spec fn view(&self) -> GroupsView {
        Seq::new(self.keys@.len(), |i: int| (self.keys@[i]@, string_views(self.members@[i]@)))
    }
}

impl ClusterRecords {
    /// An empty aggregate.
    pub fn new() -> (r: ClusterRecords)
        ensures
            r.wf(),
            r@ =~= Seq::<(Seq<char>, Seq<Seq<char>>)>::empty(),
    {
        ClusterRecords { keys: Vec::new(), members: Vec::new() }
    }

    /// The number of groups.
    pub fn len(&self) -> (n: usize)
        requires
            self.wf(),
        ensures
            n == self@.len(),
    {
        self.keys.len()
    }

    /// Appends `member` to the group keyed `key`, creating the group at
    /// the end when the key is new.
    pub fn insert(&mut self, key: String, member: String)
        requires
            old(self).wf(),
        ensures
            final(self).wf(),
            final(self)@ == insert_member(old(self)@, key@, member@),
    {
        let ghost gs = self@;
        let n = self.keys.len();
        let mut idx: usize = 0;
        while idx < n && !(self.keys[idx] == key)
            invariant
                idx <= n,
                n == self.keys@.len(),
                *self == *old(self),
                forall|q: int| 0 <= q < idx ==> old(self)@[q].0 != key@,
            decreases n - idx,
        {
            proof {
                assert(old(self)@[idx as int].0 == self.keys@[idx as int]@);
            }
            idx = idx + 1;
        }
        if idx < n {
            proof {
                assert(gs[idx as int].0 == self.keys@[idx as int]@);
                lemma_insert_member_existing(gs, key@, member@, idx as int);
            }
            self.members[idx].push(member);
            proof {
                assert(string_views(self.members@[idx as int]@) =~= string_views(
                    old(self).members@[idx as int]@,
                ).push(member@));
                assert(self@ =~~= gs.update(
                    idx as int,
                    (gs[idx as int].0, gs[idx as int].1.push(member@)),
                ));
            }
        } else {
            proof {
                lemma_insert_member_new_key(gs, key@, member@);
            }
            self.keys.push(key);
            let mut group: Vec<String> = Vec::new();
            group.push(member);
            self.members.push(group);
            proof {
                assert(string_views(self.members@[gs.len() as int]@) =~= seq![member@]);
                assert(self@ =~~= gs.push((key@, seq![member@])));
            }
        }
    }
}

/// The summary statistics of a grouped membership table. The average
/// cluster size is not stored: it is the exact fraction given by
/// `average_size_fraction`, rendered as a floating value only at the
/// presentation edge.
#[derive(Debug)]
pub struct ClusterStatistics {
    /// The number of distinct centroid identifiers seen.
    pub cluster_count: usize,
    /// The sum of all group sizes.
    pub total_members: usize,
    /// The number of clusters with exactly one member.
    pub singleton_count: usize,
    /// The number of clusters with more than one member.
    pub non_singleton_count: usize,
    /// All centroid identifiers, in order of first sight.
    pub centroid_set: Vec<String>,
}

impl ClusterStatistics {
    /// The average cluster size as an exact fraction (numerator,
    /// denominator): total members over cluster count, and 0/1 when
    /// there are no clusters — the explicit empty-input policy, not a
    /// division fault.
    pub fn average_size_fraction(&self) -> (r: (usize, usize))
        ensures
            self.cluster_count == 0 ==> r == (0usize, 1usize),
            self.cluster_count > 0 ==> r == (self.total_members, self.cluster_count),
    {
        if self.cluster_count == 0 {
            (0, 1)
        } else {
            (self.total_members, self.cluster_count)
        }
    }
}

/// Computes the summary statistics of a grouped membership table in one
/// pass: cluster count, total members, the singleton/non-singleton
/// partition, and the centroid identifiers.
pub fn compute_statistics(records: &ClusterRecords) -> (stats: ClusterStatistics)
    requires
        records.wf(),
        total_members_of(records@) <= usize::MAX,
    ensures
        stats.cluster_count == records@.len(),
        stats.total_members == total_members_of(records@),
        stats.singleton_count == singleton_count_of(records@),
        stats.non_singleton_count == non_singleton_count_of(records@),
        stats.singleton_count + stats.non_singleton_count == stats.cluster_count,
        string_views(stats.centroid_set@) == keys_of(records@),
{
    let ghost gs = records@;
    let n = records.keys.len();
    let mut total: usize = 0;
    let mut singles: usize = 0;
    let mut non_singles: usize = 0;
    let mut centroids: Vec<String> = Vec::new();
    proof {
        assert(gs.take(0) =~= Seq::<(Seq<char>, Seq<Seq<char>>)>::empty());
        assert(string_views(centroids@) =~= keys_of(gs.take(0)));
    }
    for i in 0..n
        invariant
            n == records.keys@.len(),
            records.wf(),
            gs == records@,
            total == total_members_of(gs.take(i as int)),
            singles == singleton_count_of(gs.take(i as int)),
            non_singles == non_singleton_count_of(gs.take(i as int)),
            singles + non_singles == i,
            total_members_of(records@) <= usize::MAX,
            string_views(centroids@) =~= keys_of(gs.take(i as int)),
    {
        let size = records.members[i].len();
        proof {
            assert(gs.take(i + 1).drop_last() =~= gs.take(i as int));
            assert(gs.take(i + 1).last() == gs[i as int]);
            assert(gs[i as int].1 == string_views(records.members@[i as int]@));
            assert(size == gs[i as int].1.len());
            assert(gs =~= gs.take(i + 1) + gs.skip(i + 1));
            lemma_total_concat(gs.take(i + 1), gs.skip(i + 1));
            lemma_singleton_partition(gs.take(i + 1));
        }
        total = total + size;
        if size == 1 {
            singles = singles + 1;
        } else {
            non_singles = non_singles + 1;
        }
        centroids.push(records.keys[i].clone());
        proof {
            assert(string_views(centroids@) =~= keys_of(gs.take(i as int)).push(gs[i as int].0));
            assert(keys_of(gs.take(i + 1)) =~= keys_of(gs.take(i as int)).push(gs[i as int].0));
        }
    }
    proof {
        assert(gs.take(n as int) =~= gs);
    }
    ClusterStatistics {
        cluster_count: n,
        total_members: total,
        singleton_count: singles,
        non_singleton_count: non_singles,
        centroid_set: centroids,
    }
}

/// Analyzes a membership table given as text: streams its lines into
/// grouped records and computes the summary statistics.
///
/// Returns `Ok` exactly when every line holds at least two fields; the
/// records are then the aggregate of all lines, the keys are unique,
/// every group is nonempty, and the total member count equals the number
/// of lines. Returns the parse error of the first malformed line
/// otherwise, carrying its 1-based number and its content.
pub fn analyze_text(text: &str) -> (r: Result<(ClusterRecords, ClusterStatistics), PipelineError>)
    ensures
        match r {
            Ok(out) => {
                &&& forall|i: int|
                    0 <= i < split_lines(text@).len() ==> line_well_formed(
                        #[trigger] split_lines(text@)[i],
                    )
                &&& out.0.wf()
                &&& out.0@ == aggregate(split_lines(text@))
                &&& distinct_keys(out.0@)
                &&& all_groups_nonempty(out.0@)
                &&& out.1.cluster_count == out.0@.len()
                &&& out.1.total_members == split_lines(text@).len()
                &&& out.1.singleton_count == singleton_count_of(out.0@)
                &&& out.1.non_singleton_count == non_singleton_count_of(out.0@)
                &&& out.1.singleton_count + out.1.non_singleton_count == out.1.cluster_count
                &&& string_views(out.1.centroid_set@) == keys_of(out.0@)
            },
            Err(e) => {
                &&& (e matches PipelineError::Parse { line, content } && {
                    &&& 1 <= line <= split_lines(text@).len()
                    &&& !line_well_formed(split_lines(text@)[line - 1])
                    &&& forall|k: int|
                        0 <= k < line - 1 ==> line_well_formed(#[trigger] split_lines(text@)[k])
                    &&& content@ == split_lines(text@)[line - 1]
                })
            },
        },
{
    let lines = split_into_lines(text);
    let ghost lviews = string_views(lines@);
    let mut records = ClusterRecords::new();
    let n = lines.len();
    proof {
        assert(lviews.take(0) =~= Seq::<Seq<char>>::empty());
    }
    let mut idx: usize = 0;
    while idx < n
        invariant
            idx <= n,
            n == lines@.len(),
            lviews == string_views(lines@),
            lviews =~= split_lines(text@),
            records.wf(),
            records@ == aggregate(lviews.take(idx as int)),
            forall|k: int| 0 <= k < idx ==> line_well_formed(#[trigger] lviews[k]),
        decreases n - idx,
    {
        let line = &lines[idx];
        proof {
            assert(lviews[idx as int] == lines@[idx as int]@);
        }
        let fields = split_fields(line.as_str());
        if fields.len() < 2 {
            proof {
                assert(string_views(fields@).len() == tokens(line@).len());
            }
            return Err(PipelineError::Parse { line: idx + 1, content: line.clone() });
        }
        let key = fields[0].clone();
        let member = fields[1].clone();
        proof {
            assert(string_views(fields@)[0] == fields@[0]@);
            assert(string_views(fields@)[1] == fields@[1]@);
            assert(key@ == line_key(lviews[idx as int]));
            assert(member@ == line_member(lviews[idx as int]));
            assert(lviews.take(idx + 1).drop_last() =~= lviews.take(idx as int));
            assert(lviews.take(idx + 1).last() == lviews[idx as int]);
        }
        records.insert(key, member);
        idx = idx + 1;
    }
    proof {
        assert(lviews.take(n as int) =~= lviews);
        lemma_aggregate_total(lviews);
        lemma_aggregate_distinct(lviews);
        lemma_aggregate_nonempty(lviews);
    }
    let stats = compute_statistics(&records);
    Ok((records, stats))
}

} // verus!
