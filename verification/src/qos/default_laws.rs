//! What the defaults of QoS policies mean: leaving a policy out asks for its
//! documented default, and nothing but that is left out.
use vstd::prelude::*;

use crate::qos::laws::{ids_distinct, law_normalized_same_is_set_equality};
use crate::qos::policy::{normal_form, normalized_same, QosPolicyView};

verus! {

/// What holds of each kind of policy where nothing is said.
pub open spec fn documented_default(id: u8) -> QosPolicyView {
    if id == 0x01 {
        QosPolicyView::Reliability { kind: 1, max_blocking_time_ms: 100 }
    } else if id == 0x02 {
        QosPolicyView::Durability { kind: 0 }
    } else if id == 0x03 {
        QosPolicyView::History { kind: 0, depth: 1 }
    } else if id == 0x04 {
        QosPolicyView::Deadline { period_ms: 0 }
    } else if id == 0x05 {
        QosPolicyView::LatencyBudget { duration_ms: 0 }
    } else if id == 0x06 {
        QosPolicyView::OwnershipStrength { value: 0 }
    } else if id == 0x07 {
        QosPolicyView::Liveliness { kind: 0, lease_duration_ms: 0 }
    } else if id == 0x08 {
        QosPolicyView::DestinationOrder { kind: 0 }
    } else if id == 0x09 {
        QosPolicyView::Presentation { access_scope: 0, coherent_access: 0, ordered_access: 0 }
    } else if id == 0x0A {
        QosPolicyView::Partition { partitions: Seq::empty() }
    } else if id == 0x0B {
        QosPolicyView::Ownership { kind: 0 }
    } else if id == 0x0C {
        QosPolicyView::WriterDataLifecycle { autodispose_unregistered_instances: 1 }
    } else {
        QosPolicyView::TimeBasedFilter { minimum_separation_ms: 0 }
    }
}

/// A policy is a default exactly when it says the documented default of its
/// kind. In particular a Partition is one if and only if it lists no partition.
pub proof fn law_defaults_are_the_documented_ones(policy: QosPolicyView)
    ensures
        policy.is_default() <==> policy == documented_default(policy.id()),
        policy matches QosPolicyView::Partition { partitions } ==> (policy.is_default()
            <==> partitions == Seq::<Seq<char>>::empty()),
        1 <= policy.id() <= 13,
        documented_default(policy.id()).id() == policy.id(),
        documented_default(policy.id()).is_default(),
{
    if let QosPolicyView::Partition { partitions } = policy {
        if partitions.len() == 0 {
            assert(partitions =~= Seq::<Seq<char>>::empty());
        }
    }
}

/// The normal form holds exactly the policies that do not say the documented
/// default of their kind, in their order.
pub proof fn law_normal_form_drops_documented_defaults(
    before: Seq<QosPolicyView>,
    policy: QosPolicyView,
)
    ensures
        normal_form(Seq::<QosPolicyView>::empty()) == Seq::<QosPolicyView>::empty(),
        normal_form(before.push(policy)) == (if policy == documented_default(policy.id()) {
            normal_form(before)
        } else {
            normal_form(before).push(policy)
        }),
{
    reveal(Seq::filter);
    law_defaults_are_the_documented_ones(policy);
    assert(before.push(policy).drop_last() =~= before);
}

/// A policy is in the normal form if and only if it is in the set and does not
/// say the documented default of its kind.
pub proof fn law_normal_form_members(policies: Seq<QosPolicyView>, policy: QosPolicyView)
    ensures
        normal_form(policies).contains(policy) <==> policies.contains(policy) && policy
            != documented_default(policy.id()),
    decreases policies.len(),
{
    reveal(Seq::filter);
    law_defaults_are_the_documented_ones(policy);
    if policies.len() > 0 {
        let shorter = policies.drop_last();
        let last = policies.last();
        law_normal_form_members(shorter, policy);
        law_defaults_are_the_documented_ones(last);
        assert(policies =~= shorter.push(last));
        lemma_push_member(shorter, last, policy);
        lemma_push_member(normal_form(shorter), last, policy);
    }
}

proof fn lemma_push_member(policies: Seq<QosPolicyView>, last: QosPolicyView, p: QosPolicyView)
    ensures
        policies.push(last).contains(p) <==> policies.contains(p) || p == last,
{
    let longer = policies.push(last);
    if longer.contains(p) {
        let k = choose|k: int| 0 <= k < longer.len() && longer[k] == p;
        if k < policies.len() {
            assert(policies[k] == p);
        }
    }
    if policies.contains(p) {
        let k = choose|k: int| 0 <= k < policies.len() && policies[k] == p;
        assert(longer[k] == p);
    }
    if p == last {
        assert(longer[policies.len() as int] == p);
    }
}

/// Of two policies of the same kind, no matter which, normalized equality tells
/// every difference: sets with different partitions, for instance, are never
/// equal.
pub proof fn law_different_policies_of_a_kind_are_told_apart(a: QosPolicyView, b: QosPolicyView)
    requires
        a.id() == b.id(),
    ensures
        normalized_same(seq![a], seq![b]) <==> a == b,
{
    broadcast use vstd::seq_lib::group_to_multiset_ensures;

    let na = normal_form(seq![a]);
    let nb = normal_form(seq![b]);
    law_normal_form_members(seq![a], a);
    law_normal_form_members(seq![a], b);
    law_normal_form_members(seq![b], a);
    law_normal_form_members(seq![b], b);
    assert(seq![a][0] == a && seq![b][0] == b);
    assert(seq![a].contains(a) && seq![b].contains(b));
    if normalized_same(seq![a], seq![b]) {
        assert(na.contains(a) <==> na.to_multiset().count(a) > 0);
        assert(nb.contains(a) <==> nb.to_multiset().count(a) > 0);
        assert(na.contains(b) <==> na.to_multiset().count(b) > 0);
        assert(nb.contains(b) <==> nb.to_multiset().count(b) > 0);
        if a != b {
            assert(!seq![a].contains(b));
            assert(!seq![b].contains(a));
            assert(!nb.contains(a) && !na.contains(b));
            assert(a == documented_default(a.id()) && b == documented_default(b.id()));
        }
    }
}

/// What a set asks for of one kind of policy: what it says, or the documented
/// default.
pub open spec fn asked_for(policies: Seq<QosPolicyView>, id: u8) -> QosPolicyView {
    if exists|i: int| 0 <= i < policies.len() && (#[trigger] policies[i]).id() == id {
        policies[choose|i: int| 0 <= i < policies.len() && (#[trigger] policies[i]).id() == id]
    } else {
        documented_default(id)
    }
}

proof fn lemma_asked_for(policies: Seq<QosPolicyView>, id: u8, p: QosPolicyView)
    requires
        ids_distinct(policies),
        p.id() == id,
        p != documented_default(id),
    ensures
        asked_for(policies, id) == p <==> policies.contains(p),
{
    if policies.contains(p) {
        let k = choose|k: int| 0 <= k < policies.len() && policies[k] == p;
        assert(policies[k].id() == id);
        let i = choose|i: int| 0 <= i < policies.len() && (#[trigger] policies[i]).id() == id;
        if i < k {
            assert(policies[i].id() != policies[k].id());
        } else if k < i {
            assert(policies[k].id() != policies[i].id());
        }
    }
    if asked_for(policies, id) == p {
        let i = choose|i: int| 0 <= i < policies.len() && (#[trigger] policies[i]).id() == id;
        assert(policies[i] == p);
    }
}

/// Normalized equality is what sharing needs: two sets without two policies of a
/// kind, such as every set that was read from a payload, are equal if and only
/// if they ask for the same of every kind of policy, where leaving a policy out
/// asks for its documented default.
pub proof fn law_normalized_equality_is_asking_for_the_same(
    a: Seq<QosPolicyView>,
    b: Seq<QosPolicyView>,
)
    requires
        ids_distinct(a),
        ids_distinct(b),
    ensures
        normalized_same(a, b) <==> forall|id: u8|
            1 <= id <= 13 ==> #[trigger] asked_for(a, id) == asked_for(b, id),
{
    let na = normal_form(a);
    let nb = normal_form(b);
    law_normalized_same_is_set_equality(a, b);
    if normalized_same(a, b) {
        assert forall|id: u8| 1 <= id <= 13 implies #[trigger] asked_for(a, id) == asked_for(
            b,
            id,
        ) by {
            let pa = asked_for(a, id);
            let pb = asked_for(b, id);
            lemma_asked_kind(a, id);
            lemma_asked_kind(b, id);
            if pa != documented_default(id) {
                lemma_asked_for(a, id, pa);
                law_normal_form_members(a, pa);
                law_normal_form_members(b, pa);
                assert(na.to_set().contains(pa));
                assert(nb.to_set().contains(pa));
                lemma_asked_for(b, id, pa);
            } else if pb != documented_default(id) {
                lemma_asked_for(b, id, pb);
                law_normal_form_members(b, pb);
                law_normal_form_members(a, pb);
                assert(nb.to_set().contains(pb));
                assert(na.to_set().contains(pb));
                lemma_asked_for(a, id, pb);
            }
        }
    }
    if forall|id: u8| 1 <= id <= 13 ==> #[trigger] asked_for(a, id) == asked_for(b, id) {
        assert forall|p: QosPolicyView| na.to_set().contains(p) <==> nb.to_set().contains(p) by {
            law_defaults_are_the_documented_ones(p);
            law_normal_form_members(a, p);
            law_normal_form_members(b, p);
            if p != documented_default(p.id()) {
                lemma_asked_for(a, p.id(), p);
                lemma_asked_for(b, p.id(), p);
                assert(asked_for(a, p.id()) == asked_for(b, p.id()));
            }
        }
        assert(na.to_set() =~= nb.to_set());
    }
}

proof fn lemma_asked_kind(policies: Seq<QosPolicyView>, id: u8)
    requires
        1 <= id <= 13,
    ensures
        asked_for(policies, id).id() == id,
{
    if exists|i: int| 0 <= i < policies.len() && (#[trigger] policies[i]).id() == id {
        let i = choose|i: int| 0 <= i < policies.len() && (#[trigger] policies[i]).id() == id;
        assert(policies[i].id() == id);
    }
}

} // verus!
