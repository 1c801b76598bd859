//! QoS policies, their defaults and the normal form of a set of policies.
use vstd::prelude::*;
use vstd::string::*;

verus! {

#[allow(inconsistent_fields)]
#[derive(Debug, PartialEq)]
pub enum QosPolicy {
    Reliability {
        kind: u8,  // 0=BEST_EFFORT, 1=RELIABLE
        max_blocking_time_ms: u32,
    },
    Durability {
        kind: u8,  // 0=VOLATILE, 1=TRANSIENT_LOCAL, 2=TRANSIENT, 3=PERSISTENT
    },
    History {
        kind: u8,  // 0=KEEP_LAST, 1=KEEP_ALL
        depth: u32,
    },
    Deadline {
        period_ms: u32,  // 0 = infinite
    },
    LatencyBudget { duration_ms: u32 },
    OwnershipStrength { value: u32 },
    Liveliness {
        kind: u8,  // 0=AUTOMATIC, 1=MANUAL_BY_PARTICIPANT, 2=MANUAL_BY_TOPIC
        lease_duration_ms: u32,
    },
    DestinationOrder {
        kind: u8,  // 0=BY_RECEPTION_TIMESTAMP, 1=BY_SOURCE_TIMESTAMP
    },
    Presentation {
        access_scope: u8,  // 0=INSTANCE, 1=TOPIC, 2=GROUP
        coherent_access: u8,  // 0 or 1
        ordered_access: u8,  // 0 or 1
    },
    Partition { partitions: Vec<String> },
    Ownership {
        kind: u8,  // 0=SHARED, 1=EXCLUSIVE
    },
    WriterDataLifecycle {
        autodispose_unregistered_instances: u8,  // 0 or 1
    },
    TimeBasedFilter { minimum_separation_ms: u32 },
}

/// The mathematical value of a [`QosPolicy`].
#[allow(inconsistent_fields)]
#[verifier::ext_equal]
pub enum QosPolicyView {
    Reliability { kind: u8, max_blocking_time_ms: u32 },
    Durability { kind: u8 },
    History { kind: u8, depth: u32 },
    Deadline { period_ms: u32 },
    LatencyBudget { duration_ms: u32 },
    OwnershipStrength { value: u32 },
    Liveliness { kind: u8, lease_duration_ms: u32 },
    DestinationOrder { kind: u8 },
    Presentation { access_scope: u8, coherent_access: u8, ordered_access: u8 },
    Partition { partitions: Seq<Seq<char>> },
    Ownership { kind: u8 },
    WriterDataLifecycle { autodispose_unregistered_instances: u8 },
    TimeBasedFilter { minimum_separation_ms: u32 },
}

/// The texts of a list of strings.
pub open spec fn texts(strings: Seq<String>) -> Seq<Seq<char>> {
    strings.map_values(|s: String| s@)
}

impl View for QosPolicy {
    type V = QosPolicyView;

    open spec fn view(&self) -> QosPolicyView {
        match *self {
            QosPolicy::Reliability { kind, max_blocking_time_ms } => {
                QosPolicyView::Reliability { kind, max_blocking_time_ms }
            },
            QosPolicy::Durability { kind } => QosPolicyView::Durability { kind },
            QosPolicy::History { kind, depth } => QosPolicyView::History { kind, depth },
            QosPolicy::Deadline { period_ms } => QosPolicyView::Deadline { period_ms },
            QosPolicy::LatencyBudget { duration_ms } => {
                QosPolicyView::LatencyBudget { duration_ms }
            },
            QosPolicy::OwnershipStrength { value } => QosPolicyView::OwnershipStrength { value },
            QosPolicy::Liveliness { kind, lease_duration_ms } => {
                QosPolicyView::Liveliness { kind, lease_duration_ms }
            },
            QosPolicy::DestinationOrder { kind } => QosPolicyView::DestinationOrder { kind },
            QosPolicy::Presentation { access_scope, coherent_access, ordered_access } => {
                QosPolicyView::Presentation { access_scope, coherent_access, ordered_access }
            },
            QosPolicy::Partition { partitions } => {
                QosPolicyView::Partition { partitions: texts(partitions@) }
            },
            QosPolicy::Ownership { kind } => QosPolicyView::Ownership { kind },
            QosPolicy::WriterDataLifecycle { autodispose_unregistered_instances } => {
                QosPolicyView::WriterDataLifecycle { autodispose_unregistered_instances }
            },
            QosPolicy::TimeBasedFilter { minimum_separation_ms } => {
                QosPolicyView::TimeBasedFilter { minimum_separation_ms }
            },
        }
    }
}

impl QosPolicyView {
    /// The byte that stands for the kind of policy.
    pub open spec fn id(self) -> u8 {
        match self {
            QosPolicyView::Reliability { .. } => 0x01,
            QosPolicyView::Durability { .. } => 0x02,
            QosPolicyView::History { .. } => 0x03,
            QosPolicyView::Deadline { .. } => 0x04,
            QosPolicyView::LatencyBudget { .. } => 0x05,
            QosPolicyView::OwnershipStrength { .. } => 0x06,
            QosPolicyView::Liveliness { .. } => 0x07,
            QosPolicyView::DestinationOrder { .. } => 0x08,
            QosPolicyView::Presentation { .. } => 0x09,
            QosPolicyView::Partition { .. } => 0x0A,
            QosPolicyView::Ownership { .. } => 0x0B,
            QosPolicyView::WriterDataLifecycle { .. } => 0x0C,
            QosPolicyView::TimeBasedFilter { .. } => 0x0D,
        }
    }

    /// Whether the policy says what holds without it.
    pub open spec fn is_default(self) -> bool {
        match self {
            QosPolicyView::Reliability { kind, max_blocking_time_ms } => {
                kind == 1 && max_blocking_time_ms == 100
            },
            QosPolicyView::Durability { kind } => kind == 0,
            QosPolicyView::History { kind, depth } => kind == 0 && depth == 1,
            QosPolicyView::Deadline { period_ms } => period_ms == 0,
            QosPolicyView::LatencyBudget { duration_ms } => duration_ms == 0,
            QosPolicyView::OwnershipStrength { value } => value == 0,
            QosPolicyView::Liveliness { kind, lease_duration_ms } => {
                kind == 0 && lease_duration_ms == 0
            },
            QosPolicyView::DestinationOrder { kind } => kind == 0,
            QosPolicyView::Presentation { access_scope, coherent_access, ordered_access } => {
                access_scope == 0 && coherent_access == 0 && ordered_access == 0
            },
            QosPolicyView::Partition { partitions } => partitions.len() == 0,
            QosPolicyView::Ownership { kind } => kind == 0,
            QosPolicyView::WriterDataLifecycle { autodispose_unregistered_instances } => {
                autodispose_unregistered_instances == 1
            },
            QosPolicyView::TimeBasedFilter { minimum_separation_ms } => {
                minimum_separation_ms == 0
            },
        }
    }
}

/// Copies a list of strings.
fn copy_strings(strings: &Vec<String>) -> (copy: Vec<String>)
    ensures
        texts(copy@) == texts(strings@),
{
    let mut copy: Vec<String> = Vec::new();
    let mut i: usize = 0;
    while i < strings.len()
        invariant
            i <= strings@.len(),
            texts(copy@) == texts(strings@).take(i as int),
        decreases strings@.len() - i,
    {
        let ghost before = copy@;
        copy.push(strings[i].clone());
        assert(texts(copy@) =~= texts(before).push(strings@[i as int]@));
        i = i + 1;
        assert(texts(copy@) =~= texts(strings@).take(i as int));
    }
    assert(texts(strings@).take(i as int) =~= texts(strings@));
    copy
}

/// Whether two lists hold the same strings in the same order.
fn strings_eq(a: &Vec<String>, b: &Vec<String>) -> (same: bool)
    ensures
        same == (texts(a@) == texts(b@)),
{
    if a.len() != b.len() {
        assert(texts(a@).len() != texts(b@).len());
        return false;
    }
    let mut i: usize = 0;
    while i < a.len()
        invariant
            i <= a@.len(),
            a@.len() == b@.len(),
            forall|j: int| 0 <= j < i ==> a@[j]@ == b@[j]@,
        decreases a@.len() - i,
    {
        if !(a[i] == b[i]) {
            assert(texts(a@)[i as int] != texts(b@)[i as int]);
            return false;
        }
        i = i + 1;
    }
    assert(texts(a@) =~= texts(b@));
    true
}

impl Clone for QosPolicy {
    fn clone(&self) -> (copy: Self)
        ensures
            copy@ == self@,
    {
        match self {
            QosPolicy::Reliability { kind, max_blocking_time_ms } => QosPolicy::Reliability {
                kind: *kind,
                max_blocking_time_ms: *max_blocking_time_ms,
            },
            QosPolicy::Durability { kind } => QosPolicy::Durability { kind: *kind },
            QosPolicy::History { kind, depth } => {
                QosPolicy::History { kind: *kind, depth: *depth }
            },
            QosPolicy::Deadline { period_ms } => QosPolicy::Deadline { period_ms: *period_ms },
            QosPolicy::LatencyBudget { duration_ms } => {
                QosPolicy::LatencyBudget { duration_ms: *duration_ms }
            },
            QosPolicy::OwnershipStrength { value } => {
                QosPolicy::OwnershipStrength { value: *value }
            },
            QosPolicy::Liveliness { kind, lease_duration_ms } => {
                QosPolicy::Liveliness { kind: *kind, lease_duration_ms: *lease_duration_ms }
            },
            QosPolicy::DestinationOrder { kind } => QosPolicy::DestinationOrder { kind: *kind },
            QosPolicy::Presentation { access_scope, coherent_access, ordered_access } => {
                QosPolicy::Presentation {
                    access_scope: *access_scope,
                    coherent_access: *coherent_access,
                    ordered_access: *ordered_access,
                }
            },
            QosPolicy::Partition { partitions } => {
                QosPolicy::Partition { partitions: copy_strings(partitions) }
            },
            QosPolicy::Ownership { kind } => QosPolicy::Ownership { kind: *kind },
            QosPolicy::WriterDataLifecycle { autodispose_unregistered_instances } => {
                QosPolicy::WriterDataLifecycle {
                    autodispose_unregistered_instances: *autodispose_unregistered_instances,
                }
            },
            QosPolicy::TimeBasedFilter { minimum_separation_ms } => {
                QosPolicy::TimeBasedFilter { minimum_separation_ms: *minimum_separation_ms }
            },
        }
    }
}

impl QosPolicy {
    /// The byte that stands for the kind of policy.
    pub fn policy_id(&self) -> (id: u8)
        ensures
            id == self@.id(),
    {
        match self {
            QosPolicy::Reliability { .. } => 0x01,
            QosPolicy::Durability { .. } => 0x02,
            QosPolicy::History { .. } => 0x03,
            QosPolicy::Deadline { .. } => 0x04,
            QosPolicy::LatencyBudget { .. } => 0x05,
            QosPolicy::OwnershipStrength { .. } => 0x06,
            QosPolicy::Liveliness { .. } => 0x07,
            QosPolicy::DestinationOrder { .. } => 0x08,
            QosPolicy::Presentation { .. } => 0x09,
            QosPolicy::Partition { .. } => 0x0A,
            QosPolicy::Ownership { .. } => 0x0B,
            QosPolicy::WriterDataLifecycle { .. } => 0x0C,
            QosPolicy::TimeBasedFilter { .. } => 0x0D,
        }
    }

    /// Whether the policy says what holds without it.
    pub fn is_default(&self) -> (default: bool)
        ensures
            default == self@.is_default(),
    {
        match self {
            QosPolicy::Reliability { kind, max_blocking_time_ms } => {
                *kind == 1 && *max_blocking_time_ms == 100
            },
            QosPolicy::Durability { kind } => *kind == 0,
            QosPolicy::History { kind, depth } => *kind == 0 && *depth == 1,
            QosPolicy::Deadline { period_ms } => *period_ms == 0,
            QosPolicy::LatencyBudget { duration_ms } => *duration_ms == 0,
            QosPolicy::OwnershipStrength { value } => *value == 0,
            QosPolicy::Liveliness { kind, lease_duration_ms } => {
                *kind == 0 && *lease_duration_ms == 0
            },
            QosPolicy::DestinationOrder { kind } => *kind == 0,
            QosPolicy::Presentation { access_scope, coherent_access, ordered_access } => {
                *access_scope == 0 && *coherent_access == 0 && *ordered_access == 0
            },
            QosPolicy::Partition { partitions } => partitions.is_empty(),
            QosPolicy::Ownership { kind } => *kind == 0,
            QosPolicy::WriterDataLifecycle { autodispose_unregistered_instances } => {
                *autodispose_unregistered_instances == 1
            },
            QosPolicy::TimeBasedFilter { minimum_separation_ms } => *minimum_separation_ms == 0,
        }
    }

    /// Whether two policies say the same.
    pub fn same_as(&self, other: &QosPolicy) -> (same: bool)
        ensures
            same == (self@ == other@),
    {
        match (self, other) {
            (
                QosPolicy::Reliability { kind: k, max_blocking_time_ms: v },
                QosPolicy::Reliability { kind: l, max_blocking_time_ms: w },
            ) => *k == *l && *v == *w,
            (QosPolicy::Durability { kind: k }, QosPolicy::Durability { kind: l }) => *k == *l,
            (
                QosPolicy::History { kind: k, depth: v },
                QosPolicy::History { kind: l, depth: w },
            ) => *k == *l && *v == *w,
            (QosPolicy::Deadline { period_ms: v }, QosPolicy::Deadline { period_ms: w }) => {
                *v == *w
            },
            (
                QosPolicy::LatencyBudget { duration_ms: v },
                QosPolicy::LatencyBudget { duration_ms: w },
            ) => *v == *w,
            (
                QosPolicy::OwnershipStrength { value: v },
                QosPolicy::OwnershipStrength { value: w },
            ) => *v == *w,
            (
                QosPolicy::Liveliness { kind: k, lease_duration_ms: v },
                QosPolicy::Liveliness { kind: l, lease_duration_ms: w },
            ) => *k == *l && *v == *w,
            (
                QosPolicy::DestinationOrder { kind: k },
                QosPolicy::DestinationOrder { kind: l },
            ) => *k == *l,
            (
                QosPolicy::Presentation { access_scope: s, coherent_access: c, ordered_access: o },
                QosPolicy::Presentation { access_scope: t, coherent_access: d, ordered_access: p },
            ) => *s == *t && *c == *d && *o == *p,
            (QosPolicy::Partition { partitions: a }, QosPolicy::Partition { partitions: b }) => {
                strings_eq(a, b)
            },
            (QosPolicy::Ownership { kind: k }, QosPolicy::Ownership { kind: l }) => *k == *l,
            (
                QosPolicy::WriterDataLifecycle { autodispose_unregistered_instances: v },
                QosPolicy::WriterDataLifecycle { autodispose_unregistered_instances: w },
            ) => *v == *w,
            (
                QosPolicy::TimeBasedFilter { minimum_separation_ms: v },
                QosPolicy::TimeBasedFilter { minimum_separation_ms: w },
            ) => *v == *w,
            _ => false,
        }
    }
}

#[derive(Debug, PartialEq)]
pub struct QosSet {
    pub policies: Vec<QosPolicy>,
}

/// The values of a list of policies.
pub open spec fn policy_views(policies: Seq<QosPolicy>) -> Seq<QosPolicyView> {
    policies.map_values(|p: QosPolicy| p@)
}

impl View for QosSet {
    type V = Seq<QosPolicyView>;

    open spec fn view(&self) -> Seq<QosPolicyView> {
        policy_views(self.policies@)
    }
}

impl Default for QosSet {
    fn default() -> (qos: Self)
        ensures
            qos@ == Seq::<QosPolicyView>::empty(),
    {
        let qos = QosSet { policies: Vec::new() };
        assert(qos@ =~= Seq::<QosPolicyView>::empty());
        qos
    }
}

impl Clone for QosSet {
    fn clone(&self) -> (copy: Self)
        ensures
            copy@ == self@,
    {
        let mut policies: Vec<QosPolicy> = Vec::new();
        let mut i: usize = 0;
        while i < self.policies.len()
            invariant
                i <= self.policies@.len(),
                policy_views(policies@) == self@.take(i as int),
            decreases self.policies@.len() - i,
        {
            let ghost before = policies@;
            policies.push(self.policies[i].clone());
            assert(policy_views(policies@) =~= policy_views(before).push(
                self.policies@[i as int]@,
            ));
            i = i + 1;
            assert(policy_views(policies@) =~= self@.take(i as int));
        }
        assert(self@.take(i as int) =~= self@);
        QosSet { policies }
    }
}

/// The policies that stay when a list is normalized.
pub open spec fn kept() -> spec_fn(QosPolicyView) -> bool {
    |p: QosPolicyView| !p.is_default()
}

/// A list of policies without those that say what holds without them.
pub open spec fn normal_form(policies: Seq<QosPolicyView>) -> Seq<QosPolicyView> {
    policies.filter(kept())
}

/// Whether two lists of policies ask for the same: their normal forms hold the
/// same policies, each as often, in whatever order.
pub open spec fn normalized_same(a: Seq<QosPolicyView>, b: Seq<QosPolicyView>) -> bool {
    normal_form(a).to_multiset() == normal_form(b).to_multiset()
}

/// The count of a policy in one more element of a list.
proof fn lemma_count_step(policies: Seq<QosPolicyView>, i: int, policy: QosPolicyView)
    requires
        0 <= i < policies.len(),
    ensures
        policies.take(i + 1).to_multiset().count(policy) == policies.take(i).to_multiset().count(
            policy,
        ) + (if policies[i] == policy {
            1int
        } else {
            0int
        }),
{
    broadcast use vstd::seq_lib::group_to_multiset_ensures;
    broadcast use vstd::multiset::group_multiset_axioms;

    assert(policies.take(i + 1) =~= policies.take(i).push(policies[i]));
    assert(policies.take(i + 1).to_multiset() == policies.take(i).to_multiset().insert(
        policies[i],
    ));
}

impl QosSet {
    /// Normalize: remove policies that are set to their default values.
    pub fn normalize(&self) -> (normalized: QosSet)
        ensures
            normalized@ == normal_form(self@),
    {
        let mut policies: Vec<QosPolicy> = Vec::new();
        let mut i: usize = 0;
        assert(self@.take(0) =~= Seq::<QosPolicyView>::empty());
        assert(normal_form(self@.take(0)) =~= Seq::<QosPolicyView>::empty()) by {
            reveal(Seq::filter);
        }
        while i < self.policies.len()
            invariant
                i <= self.policies@.len(),
                policy_views(policies@) == normal_form(self@.take(i as int)),
            decreases self.policies@.len() - i,
        {
            let ghost before = policies@;
            let policy = &self.policies[i];
            if !policy.is_default() {
                policies.push(policy.clone());
                assert(policy_views(policies@) =~= policy_views(before).push(policy@));
            }
            i = i + 1;
            proof {
                reveal(Seq::filter);
                let now = self@.take(i as int);
                assert(now.drop_last() =~= self@.take(i - 1));
                assert(now.last() == policy@);
            }
        }
        assert(self@.take(i as int) =~= self@);
        QosSet { policies }
    }

    /// How often a policy with the given value is in the set.
    fn count(&self, policy: &QosPolicy) -> (n: usize)
        ensures
            n == self@.to_multiset().count(policy@),
    {
        let mut n: usize = 0;
        let mut i: usize = 0;
        proof {
            broadcast use vstd::seq_lib::group_to_multiset_ensures;

            let none = self@.take(0);
            assert(!none.contains(policy@));
            assert(!(none.to_multiset().count(policy@) > 0));
        }
        while i < self.policies.len()
            invariant
                n <= i <= self.policies@.len(),
                n == self@.take(i as int).to_multiset().count(policy@),
            decreases self.policies@.len() - i,
        {
            proof {
                assert(self@[i as int] == self.policies@[i as int]@);
                lemma_count_step(self@, i as int, policy@);
            }
            if policy.same_as(&self.policies[i]) {
                n = n + 1;
            }
            i = i + 1;
        }
        assert(self@.take(i as int) =~= self@);
        n
    }

    /// Whether every policy of this set is as often in the other one.
    fn counts_agree(&self, other: &QosSet) -> (agree: bool)
        ensures
            agree <==> forall|p: QosPolicyView| #[trigger]
                self@.contains(p) ==> self@.to_multiset().count(p) == other@.to_multiset().count(
                    p,
                ),
    {
        let mut i: usize = 0;
        while i < self.policies.len()
            invariant
                i <= self.policies@.len(),
                forall|j: int|
                    0 <= j < i ==> self@.to_multiset().count(#[trigger] self@[j])
                        == other@.to_multiset().count(self@[j]),
            decreases self.policies@.len() - i,
        {
            assert(self@[i as int] == self.policies@[i as int]@);
            if self.count(&self.policies[i]) != other.count(&self.policies[i]) {
                assert(self@.contains(self@[i as int]));
                return false;
            }
            i = i + 1;
        }
        true
    }

    /// Whether two sets hold the same policies, each as often, in whatever
    /// order.
    pub fn same_policies(&self, other: &QosSet) -> (same: bool)
        ensures
            same == (self@.to_multiset() == other@.to_multiset()),
    {
        broadcast use vstd::seq_lib::group_to_multiset_ensures;

        let same = self.counts_agree(other) && other.counts_agree(self);
        proof {
            if same {
                assert forall|p: QosPolicyView|
                    self@.to_multiset().count(p) == other@.to_multiset().count(p) by {
                    if !self@.contains(p) && !other@.contains(p) {
                        assert(!(self@.to_multiset().count(p) > 0));
                        assert(!(other@.to_multiset().count(p) > 0));
                    }
                }
                assert(self@.to_multiset() =~= other@.to_multiset());
            }
        }
        same
    }

    /// Normalized equality: two QosSets are equal if they have the same
    /// non-default policies (order-independent).
    pub fn normalized_eq(&self, other: &QosSet) -> (same: bool)
        ensures
            same == normalized_same(self@, other@),
    {
        self.normalize().same_policies(&other.normalize())
    }
}

} // verus!
